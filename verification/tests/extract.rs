use flate2::read::GzDecoder;
use flate2::write::GzEncoder;
use flate2::Compression;
use gitter::error::GitterError;
use gitter::extract::{entry_target, split_components};
use std::io::Write;
use tar::{Archive, Builder, Header};

#[test]
fn wrapper_directory_is_stripped() {
    assert_eq!(entry_target("X/README.md"), Ok("README.md".to_string()));
    assert_eq!(entry_target("repo-abc123/src/main.rs"), Ok("src/main.rs".to_string()));
}

#[test]
fn wrapper_itself_goes_to_the_target_directory() {
    assert_eq!(entry_target("X"), Ok("".to_string()));
    assert_eq!(entry_target("X/"), Ok("".to_string()));
    assert_eq!(entry_target("pax_global_header"), Ok("".to_string()));
}

#[test]
fn empty_pieces_and_dots_are_passed_over() {
    assert_eq!(entry_target("X//a/./b/"), Ok("a/b".to_string()));
    assert_eq!(entry_target("./X/a"), Ok("a".to_string()));
    assert_eq!(entry_target("/X/a"), Ok("a".to_string()));
    assert_eq!(entry_target("X/.../a"), Ok(".../a".to_string()));
    assert_eq!(entry_target("X/.a/..b"), Ok(".a/..b".to_string()));
}

#[test]
fn parent_directories_are_resolved() {
    assert_eq!(entry_target("X/a/../b"), Ok("b".to_string()));
    assert_eq!(entry_target("X/a/b/../../c"), Ok("c".to_string()));
    assert_eq!(entry_target("X/a/.."), Ok("".to_string()));
    assert_eq!(entry_target("../a"), Ok("a".to_string()));
}

#[test]
fn traversal_is_refused() {
    assert_eq!(entry_target("X/../etc/passwd"), Err(GitterError::ExtractionError));
    assert_eq!(entry_target("X/a/../../etc/passwd"), Err(GitterError::ExtractionError));
    assert_eq!(entry_target("X/.."), Err(GitterError::ExtractionError));
    assert_eq!(entry_target("X/../X/README.md"), Err(GitterError::ExtractionError));
    assert_eq!(entry_target("X/a/../../b/c"), Err(GitterError::ExtractionError));
}

#[test]
fn entry_without_a_component_is_refused() {
    assert_eq!(entry_target(""), Err(GitterError::ExtractionError));
    assert_eq!(entry_target("/"), Err(GitterError::ExtractionError));
    assert_eq!(entry_target("./."), Err(GitterError::ExtractionError));
}

#[test]
fn components_of_a_path() {
    assert_eq!(split_components("a/b/c"), vec!["a", "b", "c"]);
    assert_eq!(split_components("/a//b/./c/"), vec!["a", "b", "c"]);
    assert_eq!(split_components("a/../b"), vec!["a", "..", "b"]);
    assert_eq!(split_components(""), Vec::<String>::new());
    assert_eq!(split_components("."), Vec::<String>::new());
    assert_eq!(split_components("\u{e4}/\u{3b2}"), vec!["\u{e4}", "\u{3b2}"]);
}

#[test]
fn entries_of_an_archive_lose_the_wrapper() {
    let mut builder = Builder::new(GzEncoder::new(Vec::new(), Compression::default()));
    for (path, data) in [("X/README.md", &b"hello"[..]), ("X/src/lib.rs", &b"fn f() {}"[..])] {
        let mut header = Header::new_gnu();
        header.set_size(data.len() as u64);
        header.set_mode(0o644);
        header.set_cksum();
        builder.append_data(&mut header, path, data).unwrap();
    }
    let mut encoder = builder.into_inner().unwrap();
    encoder.flush().unwrap();
    let bytes = encoder.finish().unwrap();

    let mut archive = Archive::new(GzDecoder::new(&bytes[..]));
    let mut targets = Vec::new();
    for entry in archive.entries().unwrap() {
        let entry = entry.unwrap();
        let path = entry.path().unwrap();
        targets.push(entry_target(path.to_str().unwrap()).unwrap());
    }
    assert_eq!(targets, vec!["README.md", "src/lib.rs"]);
}
