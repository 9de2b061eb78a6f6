//! The two conversations with the forge: asking for the latest revision and
//! downloading the archive. Each is a function from the exchanges made so
//! far to the next step; the caller sends the requests.

use crate::error::GitterError;
use crate::repo::{branch_uri, tarball_uri, Repository};
use vstd::prelude::*;

verus! {

/// The media type that each request names in its `accept` header.
pub const ACCEPT: &'static str = "application/vnd.github.v3+json";

/// What the forge answered to one GET request.
#[derive(Clone, Debug, PartialEq, Eq)]
pub struct HttpResponse {
    /// The status code.
    pub status: u16,
    /// The `location` header, where the answer has one.
    pub location: Option<String>,
    /// The body.
    pub body: Vec<u8>,
}

/// How one request for the archive ended.
#[derive(Clone, Debug, PartialEq, Eq)]
pub enum Exchange {
    /// The forge answered.
    Response(HttpResponse),
    /// No answer came: the transport failed.
    Failed,
}

/// What a download does next.
#[derive(Clone, Debug, PartialEq, Eq)]
pub enum FetchStep {
    /// Send a GET request to this address and report how it ended.
    Get(String),
    /// The download is complete: these are the bytes of the archive.
    Done(Vec<u8>),
    /// The download failed.
    Fail(GitterError),
}

/// A `FetchStep` as plain values.
pub enum FetchPlan {
    Get(Seq<char>),
    Done(Seq<u8>),
    Fail(GitterError),
}

impl View for FetchStep {
    type V = FetchPlan;

    open spec fn view(&self) -> FetchPlan {
        match *self {
            FetchStep::Get(uri) => FetchPlan::Get(uri@),
            FetchStep::Done(bytes) => FetchPlan::Done(bytes@),
            FetchStep::Fail(e) => FetchPlan::Fail(e),
        }
    }
}

/// A status of the class 3xx.
pub open spec fn is_redirect(status: u16) -> bool {
    300 <= status < 400
}

/// What follows from the answer to the request that a redirect led to: the
/// body on 200, and no further hop.
pub open spec fn after_redirect(second: Exchange) -> FetchPlan {
    match second {
        Exchange::Failed => FetchPlan::Fail(GitterError::NetworkError),
        Exchange::Response(res) => if res.status == 200 {
            FetchPlan::Done(res.body@)
        } else if res.status == 404 {
            FetchPlan::Fail(GitterError::NotFound)
        } else {
            FetchPlan::Fail(GitterError::TooManyRedirects)
        },
    }
}

/// The next step of a download from `uri` after the exchanges in `history`.
///
/// The first request goes to `uri`. On 200 its body is the archive. A 3xx
/// answer with a `location` header is followed once. 404 is `NotFound`, any
/// other status `UnknownStatusCode`. A request that got no answer is a
/// `NetworkError`, and is not sent again.
pub open spec fn next_fetch(uri: Seq<char>, history: Seq<Exchange>) -> FetchPlan {
    if history.len() == 0 {
        FetchPlan::Get(uri)
    } else {
        match history[0] {
            Exchange::Failed => FetchPlan::Fail(GitterError::NetworkError),
            Exchange::Response(first) => if first.status == 200 {
                FetchPlan::Done(first.body@)
            } else if is_redirect(first.status) && first.location is Some {
                if history.len() == 1 {
                    FetchPlan::Get(first.location->0@)
                } else {
                    after_redirect(history[1])
                }
            } else if first.status == 404 {
                FetchPlan::Fail(GitterError::NotFound)
            } else {
                FetchPlan::Fail(GitterError::UnknownStatusCode(first.status))
            },
        }
    }
}

/// What the forge answered when asked for the default branch.
#[derive(Clone, Debug, PartialEq, Eq)]
pub struct BranchResponse {
    /// The status code.
    pub status: u16,
    /// The commit hash that the body names, where the body is the record of
    /// a branch; `None` where it could not be decoded as one.
    pub sha: Option<String>,
}

/// How one request for the record of the default branch ended.
#[derive(Clone, Debug, PartialEq, Eq)]
pub enum BranchExchange {
    /// The forge answered.
    Response(BranchResponse),
    /// No answer came: the transport failed.
    Failed,
}

/// What the search for the latest revision does next.
#[derive(Clone, Debug, PartialEq, Eq)]
pub enum RevisionStep {
    /// Send a GET request to this address and report how it ended.
    Get(String),
    /// The latest revision of the default branch.
    Done(String),
    /// The revision could not be determined.
    Fail(GitterError),
}

/// A `RevisionStep` as plain values.
pub enum RevisionPlan {
    Get(Seq<char>),
    Done(Seq<char>),
    Fail(GitterError),
}

impl View for RevisionStep {
    type V = RevisionPlan;

    open spec fn view(&self) -> RevisionPlan {
        match *self {
            RevisionStep::Get(uri) => RevisionPlan::Get(uri@),
            RevisionStep::Done(sha) => RevisionPlan::Done(sha@),
            RevisionStep::Fail(e) => RevisionPlan::Fail(e),
        }
    }
}

/// The next step of asking `uri` for the latest revision after the
/// exchanges in `history`.
///
/// One request goes to `uri`. 404 is `NotFound`; otherwise the commit hash
/// of the decoded body is the revision, and a body without one is an
/// `IOError`. A request that got no answer is a `NetworkError`, and is not
/// sent again.
pub open spec fn next_revision(uri: Seq<char>, history: Seq<BranchExchange>) -> RevisionPlan {
    if history.len() == 0 {
        RevisionPlan::Get(uri)
    } else {
        match history[0] {
            BranchExchange::Failed => RevisionPlan::Fail(GitterError::NetworkError),
            BranchExchange::Response(res) => if res.status == 404 {
                RevisionPlan::Fail(GitterError::NotFound)
            } else {
                match res.sha {
                    Some(sha) => RevisionPlan::Done(sha@),
                    None => RevisionPlan::Fail(GitterError::IOError),
                }
            },
        }
    }
}

/// A copy of `bytes`.
fn copy_of(bytes: &Vec<u8>) -> (r: Vec<u8>)
    ensures
        r@ == bytes@,
{
    let r = bytes.clone();
    assert(r@ =~= bytes@);
    r
}

/// The step that follows the second exchange.
fn step_after_redirect(second: &Exchange) -> (step: FetchStep)
    ensures
        step@ == after_redirect(*second),
{
    match second {
        Exchange::Failed => FetchStep::Fail(GitterError::NetworkError),
        Exchange::Response(res) => {
            if res.status == 200 {
                FetchStep::Done(copy_of(&res.body))
            } else if res.status == 404 {
                FetchStep::Fail(GitterError::NotFound)
            } else {
                FetchStep::Fail(GitterError::TooManyRedirects)
            }
        },
    }
}

impl Repository {
    /// The next step of finding the latest revision of the default branch,
    /// given how the requests made so far have ended, oldest first.
    pub fn fetch_latest_sha(&self, history: &Vec<BranchExchange>) -> (step: RevisionStep)
        ensures
            step@ == next_revision(branch_uri(self@), history@),
    {
        if history.len() == 0 {
            return RevisionStep::Get(self.github_uri());
        }
        match &history[0] {
            BranchExchange::Failed => RevisionStep::Fail(GitterError::NetworkError),
            BranchExchange::Response(res) => {
                if res.status == 404 {
                    RevisionStep::Fail(GitterError::NotFound)
                } else {
                    match &res.sha {
                        Some(sha) => RevisionStep::Done(sha.clone()),
                        None => RevisionStep::Fail(GitterError::IOError),
                    }
                }
            },
        }
    }

    /// The next step of downloading the archive of the default branch, given
    /// how the requests made so far have ended, oldest first.
    pub fn fetch_bytes(&self, history: &Vec<Exchange>) -> (step: FetchStep)
        ensures
            step@ == next_fetch(tarball_uri(self@), history@),
    {
        if history.len() == 0 {
            return FetchStep::Get(self.latest_master_tarball_uri());
        }
        match &history[0] {
            Exchange::Failed => FetchStep::Fail(GitterError::NetworkError),
            Exchange::Response(first) => {
                if first.status == 200 {
                    FetchStep::Done(copy_of(&first.body))
                } else if first.status >= 300 && first.status < 400 && first.location.is_some() {
                    if history.len() == 1 {
                        match &first.location {
                            Some(location) => FetchStep::Get(location.clone()),
                            None => FetchStep::Fail(GitterError::UnknownStatusCode(first.status)),
                        }
                    } else {
                        step_after_redirect(&history[1])
                    }
                } else if first.status == 404 {
                    FetchStep::Fail(GitterError::NotFound)
                } else {
                    FetchStep::Fail(GitterError::UnknownStatusCode(first.status))
                }
            },
        }
    }
}

/// The revision is asked for once: after the first exchange no step sends
/// another request.
pub proof fn lemma_revision_asked_once(uri: Seq<char>, history: Seq<BranchExchange>)
    ensures
        history.len() >= 1 ==> !(next_revision(uri, history) is Get),
{
}

/// A download follows at most one redirect: once two requests have been
/// made, no step asks for a third.
pub proof fn lemma_one_hop(uri: Seq<char>, history: Seq<Exchange>)
    ensures
        history.len() >= 2 ==> !(next_fetch(uri, history) is Get),
{
}

} // verus!
