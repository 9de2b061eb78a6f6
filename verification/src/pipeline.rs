//! One run, from the latest revision to the unpacked archive: what has to be
//! done, given what the cache holds.

use crate::cache::{
    archive_name, check_archive_exists, get_archive_path, join_path, listing_holds,
    remove_old_version, stale_paths,
};
use crate::repo::{Repository, RepositoryRef};
use crate::text::views_of;
use vstd::prelude::*;

verus! {

/// What a run does once the latest revision is known.
#[derive(Clone, Debug, PartialEq, Eq)]
pub struct Plan {
    /// The path of the archive in the cache. It is unpacked from there.
    pub archive: String,
    /// Whether the archive has to be downloaded and saved first.
    pub download: bool,
    /// The paths of the cache entries to delete before the download. A
    /// deletion that fails does not stop the run.
    pub stale: Vec<String>,
    /// The directory into which the archive is unpacked.
    pub target: String,
}

/// The directory into which `r` is unpacked: the one that was asked for,
/// else one named after the repository.
pub open spec fn target_dir(r: RepositoryRef, target: Option<String>) -> Seq<char> {
    match target {
        Some(dir) => dir@,
        None => r.name,
    }
}

/// Whether `plan` is the plan for revision `rev` of `r`, where the cache
/// directory `cache` holds the files `names`.
///
/// The archive is downloaded if and only if the cache does not hold it. The
/// other entries of the repository are deleted only then, so that a run
/// which finds its archive in the cache deletes nothing.
pub open spec fn is_plan_for(
    plan: Plan,
    cache: Seq<char>,
    names: Seq<Seq<char>>,
    r: RepositoryRef,
    rev: Seq<char>,
    target: Option<String>,
) -> bool {
    &&& plan.archive@ == join_path(cache, archive_name(r, rev))
    &&& plan.download == !listing_holds(names, r, rev)
    &&& views_of(plan.stale@) == if plan.download {
        stale_paths(cache, names, r)
    } else {
        Seq::empty()
    }
    &&& plan.target@ == target_dir(r, target)
}

/// Plans the run for revision `sha` of `repo`. `entries` are the names of
/// the files in the cache directory `cache`, none if it does not exist;
/// `target` is the directory asked for, if any.
pub fn plan(
    cache: &str,
    entries: &Vec<String>,
    repo: &Repository,
    sha: &str,
    target: Option<String>,
) -> (plan: Plan)
    ensures
        is_plan_for(plan, cache@, views_of(entries@), repo@, sha@, target),
{
    let archive = get_archive_path(cache, repo, sha);
    let download = !check_archive_exists(entries, repo, sha);
    let stale = if download {
        remove_old_version(cache, entries, repo)
    } else {
        let none: Vec<String> = Vec::new();
        assert(views_of(none@) =~= Seq::<Seq<char>>::empty());
        none
    };
    let target = match target {
        Some(dir) => dir,
        None => repo.repo().to_owned(),
    };
    Plan { archive, download, stale, target }
}

} // verus!
