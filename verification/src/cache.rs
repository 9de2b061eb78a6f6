//! The cache of downloaded archives: where an archive lies, whether a
//! listing of the cache holds it, and which entries a new download
//! supersedes.
//!
//! The cache is one directory. The archive of revision `rev` of the
//! repository `owner/name` is the file `owner_name-rev.tar.gz` in it.

use crate::repo::{is_owner_char, valid_owner, Repository, RepositoryRef};
use crate::text::{chars_of, views_of};
use vstd::prelude::*;
use vstd::string::StringExecFns;

verus! {

/// `name` below the directory `base`, with one `/` between the two unless
/// `base` is empty or ends in one.
pub open spec fn join_path(base: Seq<char>, name: Seq<char>) -> Seq<char> {
    if base.len() == 0 {
        name
    } else if base[base.len() - 1] == '/' {
        base + name
    } else {
        base + "/"@ + name
    }
}

/// The cache directory of the user whose home directory is `home`.
pub open spec fn cache_root(home: Seq<char>) -> Seq<char> {
    join_path(home, ".gitter"@)
}

/// What every cache entry of the repository `r` begins with: `owner_name-`.
pub open spec fn entry_prefix(r: RepositoryRef) -> Seq<char> {
    r.owner + "_"@ + r.name + "-"@
}

/// The file name of the archive of revision `rev` of `r`.
pub open spec fn archive_name(r: RepositoryRef, rev: Seq<char>) -> Seq<char> {
    entry_prefix(r) + rev + ".tar.gz"@
}

/// Whether the file `name` is a cache entry of the repository `r`, of
/// whatever revision.
pub open spec fn is_entry_of(name: Seq<char>, r: RepositoryRef) -> bool {
    entry_prefix(r).is_prefix_of(name)
}

/// Whether a listing of the cache holds the archive of revision `rev` of `r`.
pub open spec fn listing_holds(names: Seq<Seq<char>>, r: RepositoryRef, rev: Seq<char>) -> bool {
    names.contains(archive_name(r, rev))
}

/// The entries of `r` among `names`, in the order of `names`.
pub open spec fn entries_of(names: Seq<Seq<char>>, r: RepositoryRef) -> Seq<Seq<char>> {
    names.filter(|n: Seq<char>| is_entry_of(n, r))
}

/// What is left of `names` once the entries of `r` are deleted.
pub open spec fn entries_kept(names: Seq<Seq<char>>, r: RepositoryRef) -> Seq<Seq<char>> {
    names.filter(|n: Seq<char>| !is_entry_of(n, r))
}

/// The paths of the entries of `r` among `names`, in the order of `names`.
pub open spec fn stale_paths(cache: Seq<char>, names: Seq<Seq<char>>, r: RepositoryRef) -> Seq<
    Seq<char>,
> {
    entries_of(names, r).map_values(|n: Seq<char>| join_path(cache, n))
}

/// The listing of the cache after the entries of `r` have been deleted and
/// the archive of revision `rev` of `r` has been saved.
pub open spec fn after_eviction_and_save(
    names: Seq<Seq<char>>,
    r: RepositoryRef,
    rev: Seq<char>,
) -> Seq<Seq<char>> {
    entries_kept(names, r).push(archive_name(r, rev))
}

/// `name` below the directory `base`.
pub fn join(base: &str, name: &str) -> (path: String)
    ensures
        path@ == join_path(base@, name@),
{
    let b = chars_of(base);
    if b.len() == 0 {
        name.to_owned()
    } else if b[b.len() - 1] == '/' {
        let mut path = base.to_owned();
        path.append(name);
        path
    } else {
        let mut path = base.to_owned();
        path.append("/");
        path.append(name);
        path
    }
}

/// The cache directory below the home directory `home`.
pub fn cache_path_below(home: &str) -> (path: String)
    ensures
        path@ == cache_root(home@),
{
    join(home, ".gitter")
}

/// Calls `directories::BaseDirs::new` and hands out the home directory that
/// it found, as text. What it finds depends on the environment of the
/// process, so the contract claims nothing of the result.
#[verifier::external_body]
fn home_dir() -> (home: Option<String>) {
    directories::BaseDirs::new().map(|dirs| dirs.home_dir().to_string_lossy().into_owned())
}

/// The cache directory of the user who runs the program: `.gitter` below
/// the home directory. `None` where the system names no home directory.
pub fn get_cache_path() -> (path: Option<String>)
    ensures
        path matches Some(p) ==> exists|home: Seq<char>| p@ == cache_root(home),
{
    cache_path_for(home_dir())
}

/// The cache directory for the home directory that the system named:
/// `.gitter` below it, and `None` where it named none.
pub fn cache_path_for(home: Option<String>) -> (path: Option<String>)
    ensures
        match home {
            Some(dir) => path matches Some(p) && p@ == cache_root(dir@),
            None => path is None,
        },
{
    match home {
        Some(dir) => Some(cache_path_below(dir.as_str())),
        None => None,
    }
}

/// The text that every cache entry of `repo` begins with.
fn prefix_of(repo: &Repository) -> (prefix: String)
    ensures
        prefix@ == entry_prefix(repo@),
{
    let mut prefix = repo.user().to_owned();
    prefix.append("_");
    prefix.append(repo.repo());
    prefix.append("-");
    prefix
}

/// The file name of the archive of revision `hash` of `repo`.
fn file_name(repo: &Repository, hash: &str) -> (name: String)
    ensures
        name@ == archive_name(repo@, hash@),
{
    let mut name = prefix_of(repo);
    name.append(hash);
    name.append(".tar.gz");
    name
}

/// The path of the archive of revision `hash` of `repo` in the cache
/// directory `cache`.
pub fn get_archive_path(cache: &str, repo: &Repository, hash: &str) -> (path: String)
    ensures
        path@ == join_path(cache@, archive_name(repo@, hash@)),
{
    let name = file_name(repo, hash);
    join(cache, name.as_str())
}

/// Whether `entries`, the names of the files in the cache directory, hold
/// the archive of revision `sha` of `repo`. A cache directory that does not
/// exist has no entries.
pub fn check_archive_exists(entries: &Vec<String>, repo: &Repository, sha: &str) -> (found: bool)
    ensures
        found == listing_holds(views_of(entries@), repo@, sha@),
{
    let name = file_name(repo, sha);
    let ghost names = views_of(entries@);
    let mut i: usize = 0;
    while i < entries.len()
        invariant
            i <= entries.len(),
            name@ == archive_name(repo@, sha@),
            names == views_of(entries@),
            forall|k: int| 0 <= k < i ==> names[k] != name@,
        decreases entries.len() - i,
    {
        if entries[i] == name {
            assert(names[i as int] == name@);
            return true;
        }
        i += 1;
    }
    false
}

/// Whether `v` begins with `prefix`.
fn starts_with(v: &Vec<char>, prefix: &Vec<char>) -> (r: bool)
    ensures
        r == prefix@.is_prefix_of(v@),
{
    if prefix.len() > v.len() {
        return false;
    }
    let mut i: usize = 0;
    while i < prefix.len()
        invariant
            i <= prefix.len() <= v.len(),
            forall|k: int| 0 <= k < i ==> prefix@[k] == v@[k],
        decreases prefix.len() - i,
    {
        if prefix[i] != v[i] {
            assert(v@.subrange(0, prefix@.len() as int)[i as int] == v@[i as int]);
            return false;
        }
        i += 1;
    }
    assert(prefix@ =~= v@.subrange(0, prefix@.len() as int));
    true
}

/// The paths of the cache entries that a new download for `repo`
/// supersedes: every file in `entries`, the names of the files in the cache
/// directory `cache`, whose name begins with `owner_name-`.
pub fn remove_old_version(cache: &str, entries: &Vec<String>, repo: &Repository) -> (stale: Vec<
    String,
>)
    ensures
        views_of(stale@) == stale_paths(cache@, views_of(entries@), repo@),
{
    let prefix = chars_of(prefix_of(repo).as_str());
    let mut stale: Vec<String> = Vec::new();
    let ghost names = views_of(entries@);
    let ghost pred = |n: Seq<char>| is_entry_of(n, repo@);
    assert(entries_of(names, repo@) == names.filter(pred));
    let ghost to_path = |n: Seq<char>| join_path(cache@, n);
    let mut i: usize = 0;
    assert(names.take(0).filter(pred) =~= Seq::<Seq<char>>::empty()) by {
        reveal(Seq::filter);
    }
    assert(views_of(stale@) =~= names.take(0).filter(pred).map_values(to_path));
    while i < entries.len()
        invariant
            i <= entries.len(),
            prefix@ == entry_prefix(repo@),
            names == views_of(entries@),
            pred == |n: Seq<char>| is_entry_of(n, repo@),
            to_path == |n: Seq<char>| join_path(cache@, n),
            views_of(stale@) == names.take(i as int).filter(pred).map_values(to_path),
        decreases entries.len() - i,
    {
        let name = chars_of(entries[i].as_str());
        let ghost before = names.take(i as int);
        let ghost after = names.take(i + 1);
        proof {
            assert(after.drop_last() =~= before);
            assert(after.last() == entries@[i as int]@);
            reveal(Seq::filter);
        }
        if starts_with(&name, &prefix) {
            let path = join(cache, entries[i].as_str());
            let ghost old_stale = views_of(stale@);
            stale.push(path);
            assert(views_of(stale@) =~= old_stale.push(path@));
            assert(after.filter(pred) == before.filter(pred).push(after.last()));
            assert(views_of(stale@) =~= after.filter(pred).map_values(to_path));
        } else {
            assert(after.filter(pred) == before.filter(pred));
        }
        i += 1;
    }
    assert(names.take(i as int) == names);
    stale
}

/// What `join_path` puts in front of a name.
pub open spec fn dir_prefix(base: Seq<char>) -> Seq<char> {
    if base.len() == 0 || base[base.len() - 1] == '/' {
        base
    } else {
        base + "/"@
    }
}

proof fn lemma_join_is_concat(base: Seq<char>, name: Seq<char>)
    ensures
        join_path(base, name) == dir_prefix(base) + name,
{
    assert(join_path(base, name) =~= dir_prefix(base) + name);
}

proof fn lemma_middle_cancels(p: Seq<char>, x: Seq<char>, y: Seq<char>, s: Seq<char>)
    requires
        p + x + s == p + y + s,
    ensures
        x == y,
{
    assert((p + x + s).len() == p.len() + x.len() + s.len());
    assert((p + y + s).len() == p.len() + y.len() + s.len());
    assert forall|k: int| 0 <= k < x.len() implies x[k] == y[k] by {
        assert((p + x + s)[p.len() + k] == x[k]);
        assert((p + y + s)[p.len() + k] == y[k]);
    }
    assert(x =~= y);
}

/// Two revisions of one repository never share a path in the cache.
pub proof fn lemma_revisions_have_distinct_paths(
    cache: Seq<char>,
    r: RepositoryRef,
    rev1: Seq<char>,
    rev2: Seq<char>,
)
    requires
        rev1 != rev2,
    ensures
        join_path(cache, archive_name(r, rev1)) != join_path(cache, archive_name(r, rev2)),
{
    let p = dir_prefix(cache) + entry_prefix(r);
    let s = ".tar.gz"@;
    lemma_join_is_concat(cache, archive_name(r, rev1));
    lemma_join_is_concat(cache, archive_name(r, rev2));
    assert(join_path(cache, archive_name(r, rev1)) =~= p + rev1 + s);
    assert(join_path(cache, archive_name(r, rev2)) =~= p + rev2 + s);
    if p + rev1 + s == p + rev2 + s {
        lemma_middle_cancels(p, rev1, rev2, s);
    }
}

proof fn lemma_filter_none(s: Seq<Seq<char>>, pred: spec_fn(Seq<char>) -> bool)
    requires
        forall|i: int| 0 <= i < s.len() ==> !pred(#[trigger] s[i]),
    ensures
        s.filter(pred) == Seq::<Seq<char>>::empty(),
    decreases s.len(),
{
    reveal(Seq::filter);
    if s.len() > 0 {
        lemma_filter_none(s.drop_last(), pred);
    }
}

proof fn lemma_filter_all(s: Seq<Seq<char>>, pred: spec_fn(Seq<char>) -> bool)
    requires
        forall|i: int| 0 <= i < s.len() ==> pred(#[trigger] s[i]),
    ensures
        s.filter(pred) == s,
    decreases s.len(),
{
    reveal(Seq::filter);
    if s.len() > 0 {
        lemma_filter_all(s.drop_last(), pred);
        assert(s.drop_last().push(s.last()) =~= s);
    }
}

/// Every archive of a repository is one of its cache entries, so that a
/// later eviction finds it.
pub proof fn lemma_archive_is_entry(r: RepositoryRef, rev: Seq<char>)
    ensures
        is_entry_of(archive_name(r, rev), r),
{
    let name = archive_name(r, rev);
    assert(name.subrange(0, entry_prefix(r).len() as int) =~= entry_prefix(r));
}

/// Once the stale entries of a repository are deleted and the new archive is
/// saved, the cache holds that archive, it is the only entry of the
/// repository, and the files that are no entries of the repository are the
/// same as before, in the same order.
pub proof fn lemma_eviction_then_save(names: Seq<Seq<char>>, r: RepositoryRef, rev: Seq<char>)
    ensures
        listing_holds(after_eviction_and_save(names, r, rev), r, rev),
        entries_of(after_eviction_and_save(names, r, rev), r) == seq![archive_name(r, rev)],
        entries_kept(after_eviction_and_save(names, r, rev), r) == entries_kept(names, r),
{
    let is_entry = |n: Seq<char>| is_entry_of(n, r);
    let is_other = |n: Seq<char>| !is_entry_of(n, r);
    let kept = names.filter(is_other);
    let saved = archive_name(r, rev);
    let after = kept.push(saved);
    assert(after[after.len() - 1] == saved);
    lemma_archive_is_entry(r, rev);
    assert forall|i: int| 0 <= i < kept.len() implies !is_entry(#[trigger] kept[i]) by {
        names.lemma_filter_pred(is_other, i);
    }
    lemma_filter_none(kept, is_entry);
    lemma_filter_all(kept, is_other);
    assert(after.drop_last() =~= kept);
    assert(after.filter(is_entry) =~= seq![saved]) by {
        reveal(Seq::filter);
    }
    assert(after.filter(is_other) =~= kept) by {
        reveal(Seq::filter);
    }
}

/// Whether `s` holds no hyphen.
pub open spec fn hyphen_free(s: Seq<char>) -> bool {
    forall|i: int| 0 <= i < s.len() ==> s[i] != '-'
}

/// The eviction for one repository passes over the archives of another,
/// where their revisions hold no hyphen, unless the name of the other is the
/// name of the first, a hyphen and more.
pub proof fn lemma_other_repository_is_kept(a: RepositoryRef, b: RepositoryRef, rev: Seq<char>)
    requires
        valid_owner(a.owner),
        valid_owner(b.owner),
        a.owner != b.owner || a.name != b.name,
        hyphen_free(rev),
        !(a.name + "-"@).is_prefix_of(b.name),
    ensures
        !is_entry_of(archive_name(b, rev), a),
{
    reveal_strlit("_");
    reveal_strlit("-");
    reveal_strlit(".tar.gz");
    let pa = entry_prefix(a);
    let f = archive_name(b, rev);
    if pa.is_prefix_of(f) {
        let la = a.owner.len() as int;
        let lb = b.owner.len() as int;
        let na = a.name.len() as int;
        let nb = b.name.len() as int;
        assert forall|k: int| 0 <= k < pa.len() implies pa[k] == f[k] by {
            assert(pa[k] == f.subrange(0, pa.len() as int)[k]);
        }
        assert(pa[la] == '_');
        assert(f[lb] == '_');
        if la < lb {
            assert(f[la] == b.owner[la]);
            assert(is_owner_char(b.owner[la]));
        }
        if lb < la {
            assert(pa[lb] == a.owner[lb]);
            assert(is_owner_char(a.owner[lb]));
        }
        assert(la == lb);
        assert forall|k: int| 0 <= k < la implies a.owner[k] == b.owner[k] by {
            assert(pa[k] == a.owner[k]);
            assert(f[k] == b.owner[k]);
        }
        assert(a.owner =~= b.owner);
        let off = la + 1;
        assert(pa[off + na] == '-');
        assert(f[off + nb] == '-');
        assert forall|k: int| 0 <= k < na && k < nb implies a.name[k] == b.name[k] by {
            assert(pa[off + k] == a.name[k]);
            assert(f[off + k] == b.name[k]);
        }
        if na == nb {
            assert(a.name =~= b.name);
        } else if na < nb {
            assert(f[off + na] == b.name[na]);
            assert((a.name + "-"@) =~= b.name.subrange(0, na + 1));
        } else {
            let j = na - nb - 1;
            assert(f[off + na] == '-');
            if j < rev.len() {
                assert(f[off + na] == rev[j]);
            } else {
                assert(f[off + na] == ".tar.gz"@[j - rev.len()]);
            }
        }
    }
}

/// Where revisions hold no hyphen, as commit hashes do, the name of an
/// archive determines the repository and the revision: no two entries
/// collide on a name.
pub proof fn lemma_archive_name_determines_entry(
    a: RepositoryRef,
    rev_a: Seq<char>,
    b: RepositoryRef,
    rev_b: Seq<char>,
)
    requires
        valid_owner(a.owner),
        valid_owner(b.owner),
        hyphen_free(rev_a),
        hyphen_free(rev_b),
        archive_name(a, rev_a) == archive_name(b, rev_b),
    ensures
        a == b,
        rev_a == rev_b,
{
    reveal_strlit("_");
    reveal_strlit("-");
    reveal_strlit(".tar.gz");
    let f = archive_name(a, rev_a);
    let g = archive_name(b, rev_b);
    let la = a.owner.len() as int;
    let lb = b.owner.len() as int;
    let na = a.name.len() as int;
    let nb = b.name.len() as int;
    assert(f.len() == la + na + rev_a.len() + 9);
    assert(g.len() == lb + nb + rev_b.len() + 9);
    assert(f[la] == '_');
    assert(g[lb] == '_');
    if la < lb {
        assert(g[la] == b.owner[la]);
        assert(is_owner_char(b.owner[la]));
    }
    if lb < la {
        assert(f[lb] == a.owner[lb]);
        assert(is_owner_char(a.owner[lb]));
    }
    assert forall|k: int| 0 <= k < la implies a.owner[k] == b.owner[k] by {
        assert(f[k] == a.owner[k]);
        assert(g[k] == b.owner[k]);
    }
    assert(a.owner =~= b.owner);
    let off = la + 1;
    assert(f[off + na] == '-');
    assert(g[off + nb] == '-');
    if na < nb {
        assert(f[off + nb] == rev_a[nb - na - 1]);
    }
    if nb < na {
        assert(g[off + na] == rev_b[na - nb - 1]);
    }
    assert forall|k: int| 0 <= k < na implies a.name[k] == b.name[k] by {
        assert(f[off + k] == a.name[k]);
        assert(g[off + k] == b.name[k]);
    }
    assert(a.name =~= b.name);
    assert forall|k: int| 0 <= k < rev_a.len() implies rev_a[k] == rev_b[k] by {
        assert(f[off + na + 1 + k] == rev_a[k]);
        assert(g[off + nb + 1 + k] == rev_b[k]);
    }
    assert(rev_a =~= rev_b);
}

} // verus!
