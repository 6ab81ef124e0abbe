//! Linking repositories and listing recorded commits.
use vstd::prelude::*;
use crate::text::{byte_len, chars_of, fits_bytes, is_ascii_alnum};

verus! {

/// The body of `POST /api/repos`.
#[derive(Debug, Clone)]
pub struct CreateRepo {
    pub owner: String,
    pub repo: String,
    pub default_branch: Option<String>,
}

pub open spec fn name_char(c: char) -> bool {
    is_ascii_alnum(c) || c == '-' || c == '_' || c == '.'
}

/// A GitHub owner or repository name: 1 to 100 bytes of ASCII letters,
/// digits, `-`, `_` and `.`.
pub open spec fn valid_name(s: Seq<char>) -> bool {
    &&& s.len() > 0
    &&& byte_len(s) <= 100
    &&& forall|i: int| 0 <= i < s.len() ==> name_char(#[trigger] s[i])
}

pub fn is_valid_name(s: &str) -> (res: bool)
    ensures
        res == valid_name(s@),
{
    let v = chars_of(s);
    if v.len() == 0 || !fits_bytes(&v, 100) {
        return false;
    }
    let mut i: usize = 0;
    while i < v.len()
        invariant
            i <= v.len(),
            v@ == s@,
            v.len() > 0,
            byte_len(s@) <= 100,
            forall|k: int| 0 <= k < i ==> name_char(#[trigger] v@[k]),
        decreases v.len() - i,
    {
        let c = v[i];
        let ok = ('a' <= c && c <= 'z') || ('A' <= c && c <= 'Z') || ('0' <= c && c <= '9') || c
            == '-' || c == '_' || c == '.';
        if !ok {
            assert(!name_char(s@[i as int]));
            return false;
        }
        i = i + 1;
    }
    true
}

/// Whether a link request names a repository that may be followed; one
/// that does not is answered `400 invalid owner/repo`.
pub fn valid_repo_request(req: &CreateRepo) -> (res: bool)
    ensures
        res == (valid_name(req.owner@) && valid_name(req.repo@)),
{
    is_valid_name(req.owner.as_str()) && is_valid_name(req.repo.as_str())
}

/// Whether the repository's default branch is to be asked of GitHub: only
/// when the request names none.
pub fn needs_default_branch(req: &CreateRepo) -> (res: bool)
    ensures
        res == req.default_branch is None,
{
    req.default_branch.is_none()
}

/// The branch stored for a newly linked repository: the one given, else
/// `main`.
pub fn stored_branch(req: &CreateRepo) -> (res: String)
    ensures
        res@ == match req.default_branch {
            Some(b) => b@,
            None => "main"@,
        },
{
    match &req.default_branch {
        Some(b) => b.clone(),
        None => String::from_str("main"),
    }
}

/// The query of `GET /api/commits`.
#[derive(Debug, Clone, Copy)]
pub struct CommitsQuery {
    pub limit: Option<i64>,
}

/// How many commits a listing returns: 100 unless asked, and always
/// between 1 and 500.
pub open spec fn listing_limit(asked: Option<i64>) -> i64 {
    let n = match asked {
        Some(n) => n,
        None => 100,
    };
    if n < 1 {
        1
    } else if n > 500 {
        500
    } else {
        n
    }
}

pub fn commits_limit(asked: Option<i64>) -> (res: i64)
    ensures
        res == listing_limit(asked),
        1 <= res <= 500,
{
    let n = match asked {
        Some(n) => n,
        None => 100,
    };
    if n < 1 {
        1
    } else if n > 500 {
        500
    } else {
        n
    }
}


/// The names GitHub owners and repositories may have, spelled out: a name
/// is valid exactly when it is 1 to 100 bytes long and every character is
/// an ASCII letter of either case, a digit, `-`, `_` or `.`.
pub proof fn lemma_valid_name_chars(s: Seq<char>)
    ensures
        valid_name(s) <==> {
            &&& s.len() > 0
            &&& byte_len(s) <= 100
            &&& forall|i: int|
                0 <= i < s.len() ==> {
                    let c = #[trigger] s[i];
                    ('a' <= c && c <= 'z') || ('A' <= c && c <= 'Z') || ('0' <= c && c <= '9')
                        || c == '-' || c == '_' || c == '.'
                }
        },
{
}

/// A text of 1 to 100 such characters is a valid name: the byte limit is a
/// character limit here, and uppercase letters are allowed.
pub proof fn lemma_short_ascii_names_valid(s: Seq<char>)
    requires
        0 < s.len() <= 100,
        forall|i: int|
            0 <= i < s.len() ==> {
                let c = #[trigger] s[i];
                ('a' <= c && c <= 'z') || ('A' <= c && c <= 'Z') || ('0' <= c && c <= '9') || c
                    == '-' || c == '_' || c == '.'
            },
    ensures
        valid_name(s),
{
    assert forall|i: int| 0 <= i < s.len() implies (#[trigger] s[i] as u32) < 128 by {
        let c = s[i];
        assert(('a' <= c && c <= 'z') || ('A' <= c && c <= 'Z') || ('0' <= c && c <= '9') || c
            == '-' || c == '_' || c == '.');
    }
    crate::text::lemma_ascii_byte_len(s);
    lemma_valid_name_chars(s);
}

} // verus!
