//! The GitHub REST calls the watcher makes: where they go, what they send,
//! how a failure is reported and how a commit's details are recorded.
use vstd::prelude::*;
use crate::protocol::{bearer_prefix, opt_view};
use crate::dashboard::config::string_views;
use crate::text::{chars_of, concat, dec_nat, string_of};

verus! {

/// The `User-Agent` the watcher identifies itself with.
pub open spec fn user_agent() -> Seq<char> {
    "octa-watcher-agent"@
}

/// The reason phrase `http::StatusCode` gives a status code, or
/// `<unknown status code>` for a code without one.
pub uninterp spec fn status_reason(code: u16) -> Seq<char>;

/// Calls `http::StatusCode::from_u16(code)` and writes the status with its
/// `Display`, which the crate's source writes as the code, a space and the
/// reason phrase (`404 Not Found`).  The reason phrase is named, not stated.
#[verifier::external_body]
pub(crate) fn status_text(code: u16) -> (res: String)
    requires
        100 <= code <= 999,
    ensures
        res@ == dec_nat(code as nat) + seq![' '] + status_reason(code),
{
    match http::StatusCode::from_u16(code) {
        Ok(status) => status.to_string(),
        Err(_) => String::new(),
    }
}

/// What a failed GitHub call most likely means, by its status.
pub open spec fn failure_reason(code: u16) -> Seq<char> {
    if code == 401 {
        "token invalid or revoked"@
    } else if code == 403 {
        "rate limited or forbidden"@
    } else if code == 404 {
        "repo not found or no access"@
    } else {
        "unexpected error"@
    }
}

fn reason_of(code: u16) -> (res: &'static str)
    ensures
        res@ == failure_reason(code),
{
    if code == 401 {
        "token invalid or revoked"
    } else if code == 403 {
        "rate limited or forbidden"
    } else if code == 404 {
        "repo not found or no access"
    } else {
        "unexpected error"
    }
}

/// The error text of a failed call: `GitHub <status>: <reason>`, where
/// `status` is the status as written by the HTTP library.
pub fn failure_message(status: &str, code: u16) -> (res: String)
    ensures
        res@ == "GitHub "@ + status@ + ": "@ + failure_reason(code),
{
    let a = concat(&chars_of("GitHub "), &chars_of(status));
    let b = concat(&a, &chars_of(": "));
    string_of(&concat(&b, &chars_of(reason_of(code))))
}

/// The error text of a call that failed with status `code`.
pub fn github_failure(code: u16) -> (res: String)
    requires
        100 <= code <= 999,
    ensures
        res@ == "GitHub "@ + (dec_nat(code as nat) + seq![' '] + status_reason(code)) + ": "@
            + failure_reason(code),
{
    let status = status_text(code);
    failure_message(status.as_str(), code)
}

/// The headers of every GitHub call: the token as a bearer token, the
/// watcher's user agent, and the GitHub JSON media type.
pub fn github_headers(token: &str) -> (res: Vec<(String, String)>)
    ensures
        res.len() == 3,
        res@[0].0@ == "Authorization"@ && res@[0].1@ == bearer_prefix() + token@,
        res@[1].0@ == "User-Agent"@ && res@[1].1@ == user_agent(),
        res@[2].0@ == "Accept"@ && res@[2].1@ == "application/vnd.github+json"@,
{
    let p = vec!['B', 'e', 'a', 'r', 'e', 'r', ' '];
    assert(p@ == bearer_prefix());
    vec![
        (String::from_str("Authorization"), string_of(&concat(&p, &chars_of(token)))),
        (String::from_str("User-Agent"), String::from_str("octa-watcher-agent")),
        (String::from_str("Accept"), String::from_str("application/vnd.github+json")),
    ]
}

/// Where a repository's details are read (its default branch among them).
pub fn repo_api_url(owner: &str, repo: &str) -> (res: String)
    ensures
        res@ == "https://api.github.com/repos/"@ + owner@ + "/"@ + repo@,
{
    let a = concat(&chars_of("https://api.github.com/repos/"), &chars_of(owner));
    let b = concat(&a, &chars_of("/"));
    string_of(&concat(&b, &chars_of(repo)))
}

/// Where the commits of `branch` since a time are listed, a hundred at most.
pub fn commits_api_url(owner: &str, repo: &str, branch: &str, since: &str) -> (res: String)
    ensures
        res@ == "https://api.github.com/repos/"@ + owner@ + "/"@ + repo@ + "/commits?sha="@
            + branch@ + "&since="@ + since@ + "&per_page=100"@,
{
    let base = repo_api_url(owner, repo);
    let a = concat(&chars_of(base.as_str()), &chars_of("/commits?sha="));
    let b = concat(&a, &chars_of(branch));
    let c = concat(&b, &chars_of("&since="));
    let d = concat(&c, &chars_of(since));
    string_of(&concat(&d, &chars_of("&per_page=100")))
}

/// Where one commit's details are read.
pub fn commit_api_url(owner: &str, repo: &str, sha: &str) -> (res: String)
    ensures
        res@ == "https://api.github.com/repos/"@ + owner@ + "/"@ + repo@ + "/commits/"@ + sha@,
{
    let base = repo_api_url(owner, repo);
    let a = concat(&chars_of(base.as_str()), &chars_of("/commits/"));
    string_of(&concat(&a, &chars_of(sha)))
}

/// The branch a linked repository is watched on: the one GitHub reports,
/// else `main`.
pub fn branch_or_main(reported: Option<String>) -> (res: String)
    ensures
        res@ == match reported {
            Some(b) => b@,
            None => "main"@,
        },
{
    match reported {
        Some(b) => b,
        None => String::from_str("main"),
    }
}

/// The texts that are present, in order.
pub open spec fn present(items: Seq<Option<String>>) -> Seq<Seq<char>>
    decreases items.len(),
{
    if items.len() == 0 {
        Seq::empty()
    } else {
        present(items.drop_last()) + match items.last() {
            Some(s) => seq![s@],
            None => Seq::empty(),
        }
    }
}

/// The SHAs of a commit listing: every entry that has one, in order.
pub fn present_shas(items: Vec<Option<String>>) -> (res: Vec<String>)
    ensures
        string_views(res@) == present(items@),
{
    let mut res: Vec<String> = Vec::new();
    for i in 0..items.len()
        invariant
            string_views(res@) == present(items@.take(i as int)),
    {
        assert(items@.take(i + 1).drop_last() == items@.take(i as int));
        let ghost before = res@;
        match &items[i] {
            Some(s) => {
                res.push(s.clone());
                assert(string_views(res@) =~= string_views(before).push(s@));
            },
            None => {},
        }
    }
    assert(items@.take(items.len() as int) == items@);
    res
}

/// What `chrono` makes of a timestamp text read as `DateTime<Utc>`: the
/// seconds since the Unix epoch and the nanoseconds past them, or nothing
/// when the text is not a timestamp.
pub uninterp spec fn utc_instant(s: Seq<char>) -> Option<(i64, u32)>;

/// Calls `str::parse::<chrono::DateTime<chrono::Utc>>` and takes the
/// instant as seconds and nanoseconds.  The result is named, not stated.
#[verifier::external_body]
fn parse_utc(s: &str) -> (res: Option<(i64, u32)>)
    ensures
        res == utc_instant(s@),
{
    s.parse::<chrono::DateTime<chrono::Utc>>().ok().map(|d| (d.timestamp(), d.timestamp_subsec_nanos()))
}

/// The fields of a commit's details that are recorded, as GitHub reports
/// them.
#[derive(Debug, Clone)]
pub struct CommitFields {
    pub author: Option<String>,
    pub author_email: Option<String>,
    pub message: Option<String>,
    pub html_url: Option<String>,
    pub date: Option<String>,
    pub additions: Option<i64>,
    pub deletions: Option<i64>,
}

/// A commit ready to be recorded.
#[derive(Debug, Clone)]
pub struct NewCommit {
    pub repo_id: u128,
    pub sha: String,
    pub author: Option<String>,
    pub author_email: Option<String>,
    pub message: Option<String>,
    pub url: Option<String>,
    /// Seconds since the Unix epoch and nanoseconds past them.
    pub committed_at: Option<(i64, u32)>,
    pub additions: Option<i32>,
    pub deletions: Option<i32>,
}

pub open spec fn narrowed(n: Option<i64>) -> Option<i32> {
    match n {
        Some(x) => Some(x as i32),
        None => None,
    }
}

/// The record of a commit: the reported texts as they are, the date when it
/// reads as a timestamp, and the line counts cut to 32 bits as a cast does.
pub fn new_commit(repo_id: u128, sha: &str, fields: CommitFields) -> (res: NewCommit)
    ensures
        res.repo_id == repo_id,
        res.sha@ == sha@,
        opt_view(res.author) == opt_view(fields.author),
        opt_view(res.author_email) == opt_view(fields.author_email),
        opt_view(res.message) == opt_view(fields.message),
        opt_view(res.url) == opt_view(fields.html_url),
        res.committed_at == match fields.date {
            Some(d) => utc_instant(d@),
            None => None,
        },
        res.additions == narrowed(fields.additions),
        res.deletions == narrowed(fields.deletions),
{
    let committed_at = match &fields.date {
        Some(d) => parse_utc(d.as_str()),
        None => None,
    };
    let additions = match fields.additions {
        Some(n) => Some(n as i32),
        None => None,
    };
    let deletions = match fields.deletions {
        Some(n) => Some(n as i32),
        None => None,
    };
    NewCommit {
        repo_id,
        sha: String::from_str(sha),
        author: fields.author,
        author_email: fields.author_email,
        message: fields.message,
        url: fields.html_url,
        committed_at,
        additions,
        deletions,
    }
}

} // verus!
