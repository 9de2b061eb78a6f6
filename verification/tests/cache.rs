use gitter::cache::{
    cache_path_below, cache_path_for, check_archive_exists, get_archive_path, get_cache_path, join, remove_old_version,
};
use gitter::repo::Repository;

fn names(list: &[&str]) -> Vec<String> {
    list.iter().map(|s| s.to_string()).collect()
}

#[test]
fn cache_lies_below_home() {
    assert_eq!(cache_path_below("/home/user"), "/home/user/.gitter");
    assert_eq!(cache_path_below("/home/user/"), "/home/user/.gitter");
    assert_eq!(cache_path_below("/"), "/.gitter");
    assert_eq!(cache_path_below(""), ".gitter");
}

#[test]
fn cache_for_a_home_directory_or_none() {
    assert_eq!(cache_path_for(Some("/home/user".to_string())), Some("/home/user/.gitter".to_string()));
    assert_eq!(cache_path_for(Some("".to_string())), Some(".gitter".to_string()));
    assert_eq!(cache_path_for(None), None);
}

#[test]
fn cache_of_the_current_user() {
    if let Some(path) = get_cache_path() {
        assert!(path == ".gitter" || path.ends_with("/.gitter"), "{:?}", path);
    }
}

#[test]
fn join_puts_one_slash_between() {
    assert_eq!(join("a", "b"), "a/b");
    assert_eq!(join("a/", "b"), "a/b");
    assert_eq!(join("", "b"), "b");
    assert_eq!(join("a", ""), "a/");
}

#[test]
fn archive_path_is_keyed_by_owner_name_and_revision() {
    let repo = Repository::new("octocat/Hello-World").unwrap();
    assert_eq!(
        get_archive_path("/home/user/.gitter", &repo, "abc123"),
        "/home/user/.gitter/octocat_Hello-World-abc123.tar.gz"
    );
}

#[test]
fn archive_path_is_the_same_on_each_call() {
    let repo = Repository::new("octocat/Hello-World").unwrap();
    let first = get_archive_path("/c", &repo, "abc123");
    let second = get_archive_path("/c", &repo, "abc123");
    assert_eq!(first, second);
    assert_ne!(first, get_archive_path("/c", &repo, "abc124"));
    assert_ne!(first, get_archive_path("/c", &repo, "ABC123"));
    assert_ne!(first, get_archive_path("/c", &repo, ""));
}

#[test]
fn archive_exists_when_the_listing_holds_its_name() {
    let repo = Repository::new("octocat/Hello-World").unwrap();
    let listing = names(&["other_repo-1.tar.gz", "octocat_Hello-World-abc123.tar.gz"]);
    assert!(check_archive_exists(&listing, &repo, "abc123"));
    assert!(!check_archive_exists(&listing, &repo, "abc12"));
    assert!(!check_archive_exists(&listing, &repo, "def456"));
    assert!(!check_archive_exists(&names(&[]), &repo, "abc123"));
}

#[test]
fn eviction_selects_the_entries_of_the_repository() {
    let repo = Repository::new("foo/bar").unwrap();
    let listing = names(&[
        "foo_bar-111.tar.gz",
        "foo_bar2-111.tar.gz",
        "foo_ba-111.tar.gz",
        "xfoo_bar-111.tar.gz",
        "foo_bar-222.tar.gz",
        "foo_bar",
        "foo_bar-",
        "baz_bar-111.tar.gz",
        "",
    ]);
    assert_eq!(
        remove_old_version("/c", &listing, &repo),
        names(&["/c/foo_bar-111.tar.gz", "/c/foo_bar-222.tar.gz", "/c/foo_bar-"])
    );
    assert_eq!(remove_old_version("/c", &names(&[]), &repo), names(&[]));
}

#[test]
fn eviction_then_save_leaves_one_entry() {
    let repo = Repository::new("foo/bar").unwrap();
    let other = Repository::new("foo/bar2").unwrap();
    let mut listing = names(&["foo_bar-111.tar.gz", "foo_bar2-111.tar.gz", "foo_bar-222.tar.gz"]);
    let stale = remove_old_version("", &listing, &repo);
    listing.retain(|n| !stale.contains(n));
    listing.push(get_archive_path("", &repo, "333"));
    assert_eq!(listing, names(&["foo_bar2-111.tar.gz", "foo_bar-333.tar.gz"]));
    assert!(check_archive_exists(&listing, &repo, "333"));
    assert!(check_archive_exists(&listing, &other, "111"));
    assert_eq!(remove_old_version("", &listing, &repo), names(&["foo_bar-333.tar.gz"]));
}

#[test]
fn eviction_takes_a_name_that_goes_on_after_a_hyphen() {
    let repo = Repository::new("foo/bar").unwrap();
    let longer = Repository::new("foo/bar-baz").unwrap();
    let listing = vec![get_archive_path("", &longer, "111")];
    assert_eq!(remove_old_version("", &listing, &repo), names(&["foo_bar-baz-111.tar.gz"]));
    let listing = vec![get_archive_path("", &repo, "111")];
    assert_eq!(remove_old_version("", &listing, &longer), names(&[]));
}

#[test]
fn archive_names_of_different_entries_differ() {
    let mut seen: Vec<String> = Vec::new();
    for id in ["a/b", "a/b-c", "a-b/c", "ab/c", "a/b_c", "a/b.c"] {
        let repo = Repository::new(id).unwrap();
        for rev in ["1", "c", "c1", "abc123"] {
            let path = get_archive_path("/c", &repo, rev);
            assert!(!seen.contains(&path), "{:?}", path);
            seen.push(path);
        }
    }
    assert_eq!(seen.len(), 24);
}
