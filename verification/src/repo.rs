//! Repository identifiers of the form `owner/repo`, and the addresses that
//! the forge serves for them.

use crate::error::GitterError;
use crate::text::{ascii_alnum, chars_of, is_ascii_alnum, is_word_char, word_char};
use vstd::prelude::*;
use vstd::string::StringExecFns;

verus! {

/// The two parts of a repository identifier, as sequences of characters.
pub struct RepositoryRef {
    pub owner: Seq<char>,
    pub name: Seq<char>,
}

/// A character that may stand in an owner: a letter, a digit or a hyphen.
pub open spec fn is_owner_char(c: char) -> bool {
    is_ascii_alnum(c) || c == '-'
}

/// A character that may stand in a repository name: a word character, a
/// period or a hyphen.
pub open spec fn is_name_char(c: char) -> bool {
    is_word_char(c) || c == '.' || c == '-'
}

/// `[A-Za-z0-9]([A-Za-z0-9-]*[A-Za-z0-9])?`: letters, digits and hyphens,
/// with no hyphen at either end.
pub open spec fn valid_owner(s: Seq<char>) -> bool {
    &&& s.len() >= 1
    &&& is_ascii_alnum(s[0])
    &&& is_ascii_alnum(s[s.len() - 1])
    &&& forall|i: int| 0 <= i < s.len() ==> is_owner_char(#[trigger] s[i])
}

/// `[\w.-]+`: one or more word characters, periods and hyphens.
pub open spec fn valid_name(s: Seq<char>) -> bool {
    &&& s.len() >= 1
    &&& forall|i: int| 0 <= i < s.len() ==> is_name_char(#[trigger] s[i])
}

/// Whether `s` is an owner, a slash at index `slash`, and a name.
pub open spec fn splits_at(s: Seq<char>, slash: int) -> bool {
    &&& 0 <= slash < s.len()
    &&& s[slash] == '/'
    &&& valid_owner(s.take(slash))
    &&& valid_name(s.skip(slash + 1))
}

/// Whether `s` is a repository identifier: `owner/repo`, and nothing else.
pub open spec fn is_identifier(s: Seq<char>) -> bool {
    exists|slash: int| splits_at(s, slash)
}

/// The address of the forge's record of the default branch of `r`.
pub open spec fn branch_uri(r: RepositoryRef) -> Seq<char> {
    "https://api.github.com/repos/"@ + r.owner + "/"@ + r.name + "/branches/master"@
}

/// The address from which the forge serves the default branch of `r` as a
/// gzip-compressed tar archive.
pub open spec fn tarball_uri(r: RepositoryRef) -> Seq<char> {
    "https://api.github.com/repos/"@ + r.owner + "/"@ + r.name + "/tarball/master"@
}

/// The identifier that names `r`.
pub open spec fn identifier_of(r: RepositoryRef) -> Seq<char> {
    r.owner + "/"@ + r.name
}

/// A repository on the forge. Both parts obey the identifier grammar.
#[derive(Debug)]
pub struct Repository {
    user: String,
    repo: String,
}

impl View for Repository {
    type V = RepositoryRef;

    closed spec fn view(&self) -> RepositoryRef {
        RepositoryRef { owner: self.user@, name: self.repo@ }
    }
}

/// Whether `v[from..to]` is a valid owner.
fn owner_in(v: &Vec<char>, from: usize, to: usize) -> (r: bool)
    requires
        from <= to <= v.len(),
    ensures
        r == valid_owner(v@.subrange(from as int, to as int)),
{
    let ghost s = v@.subrange(from as int, to as int);
    if from == to {
        return false;
    }
    if !ascii_alnum(v[from]) || !ascii_alnum(v[to - 1]) {
        assert(s[0] == v@[from as int]);
        assert(s[s.len() - 1] == v@[to - 1]);
        return false;
    }
    let mut i: usize = from;
    while i < to
        invariant
            from <= i <= to <= v.len(),
            s == v@.subrange(from as int, to as int),
            forall|k: int| 0 <= k < i - from ==> is_owner_char(#[trigger] s[k]),
        decreases to - i,
    {
        let c = v[i];
        if !ascii_alnum(c) && c != '-' {
            assert(s[i - from] == c);
            return false;
        }
        assert(s[i - from] == c);
        i += 1;
    }
    true
}

/// Whether `v[from..to]` is a valid repository name.
fn name_in(v: &Vec<char>, from: usize, to: usize) -> (r: bool)
    requires
        from <= to <= v.len(),
    ensures
        r == valid_name(v@.subrange(from as int, to as int)),
{
    let ghost s = v@.subrange(from as int, to as int);
    if from == to {
        return false;
    }
    let mut i: usize = from;
    while i < to
        invariant
            from <= i <= to <= v.len(),
            s == v@.subrange(from as int, to as int),
            forall|k: int| 0 <= k < i - from ==> is_name_char(#[trigger] s[k]),
        decreases to - i,
    {
        let c = v[i];
        if !word_char(c) && c != '.' && c != '-' {
            assert(s[i - from] == c);
            return false;
        }
        assert(s[i - from] == c);
        i += 1;
    }
    true
}

/// An owner holds no slash, so an identifier splits at its first slash and
/// nowhere else.
proof fn lemma_split_is_first_slash(s: Seq<char>, slash: int, first: int)
    requires
        splits_at(s, slash),
        0 <= first < s.len(),
        s[first] == '/',
        forall|k: int| 0 <= k < first ==> s[k] != '/',
    ensures
        slash == first,
{
    if first < slash {
        assert(s.take(slash)[first] == '/');
        assert(is_owner_char(s.take(slash)[first]));
    }
}

impl Repository {
    #[verifier::type_invariant]
    spec fn well_formed(&self) -> bool {
        valid_owner(self.user@) && valid_name(self.repo@)
    }

    /// Reads an identifier of the form `owner/repo`.
    pub fn new(repository: &str) -> (r: Result<Repository, GitterError>)
        ensures
            r is Ok <==> is_identifier(repository@),
            r matches Ok(repo) ==> {
                &&& repository@ == identifier_of(repo@)
                &&& valid_owner(repo@.owner)
                &&& valid_name(repo@.name)
            },
            r matches Err(e) ==> e == GitterError::InvalidIdentifier,
    {
        let chars = chars_of(repository);
        let n = chars.len();
        let ghost s = repository@;
        let mut slash: usize = 0;
        while slash < n && chars[slash] != '/'
            invariant
                slash <= n == chars.len(),
                chars@ == s,
                forall|k: int| 0 <= k < slash ==> s[k] != '/',
            decreases n - slash,
        {
            slash += 1;
        }
        if slash == n {
            assert(!is_identifier(s));
            return Err(GitterError::InvalidIdentifier);
        }
        assert(s.take(slash as int) == s.subrange(0, slash as int));
        assert(s.skip(slash + 1) == s.subrange(slash + 1, n as int));
        if !owner_in(&chars, 0, slash) || !name_in(&chars, slash + 1, n) {
            assert forall|k: int| !splits_at(s, k) by {
                if splits_at(s, k) {
                    lemma_split_is_first_slash(s, k, slash as int);
                }
            }
            return Err(GitterError::InvalidIdentifier);
        }
        assert(splits_at(s, slash as int));
        let user = repository.substring_char(0, slash).to_owned();
        let repo = repository.substring_char(slash + 1, n).to_owned();
        proof {
            reveal_strlit("/");
            assert(s == user@ + "/"@ + repo@);
        }
        Ok(Repository { user, repo })
    }

    /// The address of the forge's record of the default branch.
    pub fn github_uri(&self) -> (uri: String)
        ensures
            uri@ == branch_uri(self@),
    {
        let mut uri = "https://api.github.com/repos/".to_owned();
        uri.append(self.user.as_str());
        uri.append("/");
        uri.append(self.repo.as_str());
        uri.append("/branches/master");
        uri
    }

    /// The address from which the forge serves the default branch as an
    /// archive.
    pub fn latest_master_tarball_uri(&self) -> (uri: String)
        ensures
            uri@ == tarball_uri(self@),
    {
        let mut uri = "https://api.github.com/repos/".to_owned();
        uri.append(self.user.as_str());
        uri.append("/");
        uri.append(self.repo.as_str());
        uri.append("/tarball/master");
        uri
    }

    /// The identifier as it was read: `owner/repo`.
    pub fn to_string(&self) -> (s: String)
        ensures
            s@ == identifier_of(self@),
    {
        let mut s = self.user.clone();
        s.append("/");
        s.append(self.repo.as_str());
        s
    }

    /// The owner of the repository.
    pub fn user(&self) -> (r: &str)
        ensures
            r@ == self@.owner,
            valid_owner(r@),
    {
        proof {
            use_type_invariant(self);
        }
        self.user.as_str()
    }

    /// The name of the repository.
    pub fn repo(&self) -> (r: &str)
        ensures
            r@ == self@.name,
            valid_name(r@),
    {
        proof {
            use_type_invariant(self);
        }
        self.repo.as_str()
    }
}

/// An identifier holds exactly one slash: a second one, or a further path
/// segment, makes a string no identifier.
pub proof fn lemma_identifier_has_one_slash(s: Seq<char>)
    ensures
        is_identifier(s) ==> exists|slash: int|
            0 <= slash < s.len() && s[slash] == '/' && forall|i: int|
                0 <= i < s.len() && s[i] == '/' ==> i == slash,
{
    if is_identifier(s) {
        let slash = choose|slash: int| splits_at(s, slash);
        assert forall|i: int| 0 <= i < s.len() && s[i] == '/' implies i == slash by {
            if i < slash {
                assert(is_owner_char(s.take(slash)[i]));
            }
            if i > slash {
                assert(is_name_char(s.skip(slash + 1)[i - slash - 1]));
            }
        }
    }
}

/// The owner and the name of an identifier are determined by it: two
/// repositories with the same identifier are the same.
pub proof fn lemma_identifier_determines_parts(a: RepositoryRef, b: RepositoryRef)
    requires
        valid_owner(a.owner),
        valid_owner(b.owner),
        identifier_of(a) == identifier_of(b),
    ensures
        a == b,
{
    reveal_strlit("/");
    let s = identifier_of(a);
    let la = a.owner.len() as int;
    let lb = b.owner.len() as int;
    assert(s[la] == '/');
    assert(identifier_of(b)[lb] == '/');
    if la < lb {
        assert(identifier_of(b)[la] == b.owner[la]);
        assert(is_owner_char(b.owner[la]));
    }
    if lb < la {
        assert(s[lb] == a.owner[lb]);
        assert(is_owner_char(a.owner[lb]));
    }
    assert(a.owner =~= s.take(la));
    assert(b.owner =~= s.take(lb));
    assert(a.name =~= s.skip(la + 1));
    assert(b.name =~= s.skip(lb + 1));
}

/// Every owner and name that obey the grammar make an identifier, so that
/// what `to_string` returns is read back as the same repository.
pub proof fn lemma_identifier_of_valid_parts(r: RepositoryRef)
    ensures
        valid_owner(r.owner) && valid_name(r.name) ==> is_identifier(identifier_of(r)),
{
    if valid_owner(r.owner) && valid_name(r.name) {
        reveal_strlit("/");
        let s = identifier_of(r);
        let slash = r.owner.len() as int;
        assert(s.take(slash) =~= r.owner);
        assert(s.skip(slash + 1) =~= r.name);
        assert(splits_at(s, slash));
    }
}

} // verus!
