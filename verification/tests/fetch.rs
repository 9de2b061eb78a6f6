use gitter::error::GitterError;
use gitter::fetch::{BranchExchange, BranchResponse, Exchange, FetchStep, HttpResponse, RevisionStep};
use gitter::repo::Repository;

fn response(status: u16, location: Option<&str>, body: &[u8]) -> Exchange {
    Exchange::Response(HttpResponse {
        status,
        location: location.map(|l| l.to_string()),
        body: body.to_vec(),
    })
}

fn branch(status: u16, sha: Option<&str>) -> BranchExchange {
    BranchExchange::Response(BranchResponse { status, sha: sha.map(|s| s.to_string()) })
}

fn octocat() -> Repository {
    Repository::new("octocat/Hello-World").unwrap()
}

#[test]
fn download_starts_at_the_tarball_address() {
    let step = octocat().fetch_bytes(&vec![]);
    assert_eq!(
        step,
        FetchStep::Get("https://api.github.com/repos/octocat/Hello-World/tarball/master".to_string())
    );
}

#[test]
fn download_returns_the_body_on_200() {
    let step = octocat().fetch_bytes(&vec![response(200, None, b"archive")]);
    assert_eq!(step, FetchStep::Done(b"archive".to_vec()));
}

#[test]
fn download_follows_one_redirect() {
    let first = response(302, Some("https://codeload.example/archive"), b"moved");
    let repo = octocat();
    let step = repo.fetch_bytes(&vec![first.clone()]);
    assert_eq!(step, FetchStep::Get("https://codeload.example/archive".to_string()));
    let step = repo.fetch_bytes(&vec![first, response(200, None, b"second body")]);
    assert_eq!(step, FetchStep::Done(b"second body".to_vec()));
}

#[test]
fn download_gives_up_after_a_second_redirect() {
    let history = vec![
        response(302, Some("https://a.example/"), b""),
        response(302, Some("https://b.example/"), b""),
    ];
    assert_eq!(octocat().fetch_bytes(&history), FetchStep::Fail(GitterError::TooManyRedirects));
}

#[test]
fn download_after_redirect_classifies_the_second_answer() {
    let first = response(301, Some("https://a.example/"), b"");
    let repo = octocat();
    assert_eq!(
        repo.fetch_bytes(&vec![first.clone(), response(404, None, b"")]),
        FetchStep::Fail(GitterError::NotFound)
    );
    assert_eq!(
        repo.fetch_bytes(&vec![first.clone(), response(500, None, b"")]),
        FetchStep::Fail(GitterError::TooManyRedirects)
    );
    assert_eq!(
        repo.fetch_bytes(&vec![first.clone(), Exchange::Failed]),
        FetchStep::Fail(GitterError::NetworkError)
    );
    assert_eq!(
        repo.fetch_bytes(&vec![first, response(200, None, b"x"), response(200, None, b"y")]),
        FetchStep::Done(b"x".to_vec())
    );
}

#[test]
fn download_reports_404_as_not_found() {
    assert_eq!(
        octocat().fetch_bytes(&vec![response(404, None, b"")]),
        FetchStep::Fail(GitterError::NotFound)
    );
}

#[test]
fn download_reports_other_statuses() {
    let repo = octocat();
    assert_eq!(
        repo.fetch_bytes(&vec![response(500, None, b"")]),
        FetchStep::Fail(GitterError::UnknownStatusCode(500))
    );
    assert_eq!(
        repo.fetch_bytes(&vec![response(302, None, b"")]),
        FetchStep::Fail(GitterError::UnknownStatusCode(302))
    );
    assert_eq!(
        repo.fetch_bytes(&vec![response(201, Some("https://a.example/"), b"")]),
        FetchStep::Fail(GitterError::UnknownStatusCode(201))
    );
    assert_eq!(
        repo.fetch_bytes(&vec![response(400, Some("https://a.example/"), b"")]),
        FetchStep::Fail(GitterError::UnknownStatusCode(400))
    );
    assert_eq!(
        repo.fetch_bytes(&vec![response(399, Some("https://a.example/"), b"")]),
        FetchStep::Get("https://a.example/".to_string())
    );
    assert_eq!(
        repo.fetch_bytes(&vec![response(300, Some("https://a.example/"), b"")]),
        FetchStep::Get("https://a.example/".to_string())
    );
}

#[test]
fn download_does_not_retry() {
    assert_eq!(octocat().fetch_bytes(&vec![Exchange::Failed]), FetchStep::Fail(GitterError::NetworkError));
    assert_eq!(
        octocat().fetch_bytes(&vec![Exchange::Failed, response(200, None, b"late")]),
        FetchStep::Fail(GitterError::NetworkError)
    );
}

#[test]
fn revision_is_asked_at_the_branch_address() {
    assert_eq!(
        octocat().fetch_latest_sha(&vec![]),
        RevisionStep::Get("https://api.github.com/repos/octocat/Hello-World/branches/master".to_string())
    );
}

#[test]
fn revision_is_the_commit_hash() {
    assert_eq!(
        octocat().fetch_latest_sha(&vec![branch(200, Some("abc123"))]),
        RevisionStep::Done("abc123".to_string())
    );
    assert_eq!(
        octocat().fetch_latest_sha(&vec![branch(200, Some("ABC123"))]),
        RevisionStep::Done("ABC123".to_string())
    );
}

#[test]
fn revision_failures() {
    let repo = octocat();
    assert_eq!(repo.fetch_latest_sha(&vec![branch(404, None)]), RevisionStep::Fail(GitterError::NotFound));
    assert_eq!(
        repo.fetch_latest_sha(&vec![branch(404, Some("abc123"))]),
        RevisionStep::Fail(GitterError::NotFound)
    );
    assert_eq!(repo.fetch_latest_sha(&vec![branch(200, None)]), RevisionStep::Fail(GitterError::IOError));
    assert_eq!(repo.fetch_latest_sha(&vec![branch(500, None)]), RevisionStep::Fail(GitterError::IOError));
    assert_eq!(
        repo.fetch_latest_sha(&vec![BranchExchange::Failed]),
        RevisionStep::Fail(GitterError::NetworkError)
    );
    assert_eq!(
        repo.fetch_latest_sha(&vec![BranchExchange::Failed, branch(200, Some("abc123"))]),
        RevisionStep::Fail(GitterError::NetworkError)
    );
}
