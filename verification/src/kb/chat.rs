//! Chat sessions over a knowledgebase, the messages sent to them, and
//! retrieval requests.
use vstd::prelude::*;
use crate::error::{bad_request, not_found, AppError};
use crate::text::{byte_len, chars_of, fits_bytes, trim_ws, trim_ws_chars};

verus! {

/// The longest message, and query, accepted, in bytes.
pub const MAX_MESSAGE_LENGTH: usize = 32000;

/// The title a session gets when none is given, and keeps until its first
/// message names it.
pub open spec fn default_title() -> Seq<char> {
    "New Chat"@
}

/// The body of `POST /api/kb/{kb_id}/sessions`.
#[derive(Debug, Clone)]
pub struct CreateSession {
    pub title: Option<String>,
}

/// The body of `POST /api/kb/{kb_id}/sessions/{sid}/messages`.
#[derive(Debug, Clone)]
pub struct SendMessage {
    pub content: String,
}

/// The body of `POST /api/kb/{kb_id}/retrieve`.
#[derive(Debug, Clone)]
pub struct RetrieveRequest {
    pub query: String,
    pub max_pages: Option<usize>,
}

/// A session is reached only through the knowledgebase it belongs to; any
/// other knowledgebase answers `404 session not found`.
pub fn verify_session_kb(session_kb_id: u128, kb_id: u128) -> (res: Result<(), AppError>)
    ensures
        session_kb_id == kb_id ==> res is Ok,
        session_kb_id != kb_id ==> (res matches Err(e) && e.is_not_found("session not found"@)),
{
    if session_kb_id != kb_id {
        return Err(not_found("session not found"));
    }
    Ok(())
}

/// The title of a new session: at most 200 bytes, `New Chat` when none is
/// given.
pub fn session_title(req: &CreateSession) -> (res: Result<String, AppError>)
    ensures
        match req.title {
            Some(t) => if byte_len(t@) <= 200 {
                res matches Ok(s) && s@ == t@
            } else {
                res matches Err(e) && e.is_bad_request("title must be at most 200 characters"@)
            },
            None => res matches Ok(s) && s@ == default_title(),
        },
{
    match &req.title {
        Some(t) => {
            if !fits_bytes(&chars_of(t.as_str()), 200) {
                return Err(bad_request("title must be at most 200 characters"));
            }
            Ok(t.clone())
        },
        None => Ok(String::from_str("New Chat")),
    }
}

/// A message, or a query, is accepted when it is not only whitespace and
/// takes at most 32000 bytes.
pub open spec fn message_ok(content: Seq<char>) -> bool {
    trim_ws(content).len() > 0 && byte_len(content) <= MAX_MESSAGE_LENGTH
}

fn text_fits(content: &str) -> (res: bool)
    ensures
        res == message_ok(content@),
{
    let v = chars_of(content);
    trim_ws_chars(&v).len() > 0 && fits_bytes(&v, MAX_MESSAGE_LENGTH)
}

/// Checks a message before it is stored and queued for an answer.
pub fn validate_message(req: &SendMessage) -> (res: Result<(), AppError>)
    ensures
        message_ok(req.content@) ==> res is Ok,
        !message_ok(req.content@) ==> (res matches Err(e) && e.is_bad_request(
            "message must be 1-32000 characters"@,
        )),
{
    if !text_fits(req.content.as_str()) {
        return Err(bad_request("message must be 1-32000 characters"));
    }
    Ok(())
}

/// Whether a session still has its default title, so that its first
/// message names it.
pub fn needs_title(title: &str) -> (res: bool)
    ensures
        res == (title@ == default_title()),
{
    let v = chars_of(title);
    let d = vec!['N', 'e', 'w', ' ', 'C', 'h', 'a', 't'];
    proof {
        reveal_strlit("New Chat");
    }
    assert(d@ == default_title());
    crate::text::same(&v, &d)
}

/// The number of pages a retrieval returns: 10 unless asked, at most 100.
pub open spec fn page_limit(max_pages: Option<usize>) -> usize {
    let asked = match max_pages {
        Some(n) => n,
        None => 10,
    };
    if asked < 100 {
        asked
    } else {
        100
    }
}

/// Checks a retrieval request and gives the number of pages to retrieve.
pub fn retrieval_pages(req: &RetrieveRequest) -> (res: Result<usize, AppError>)
    ensures
        message_ok(req.query@) ==> res == Ok::<usize, AppError>(page_limit(req.max_pages)),
        !message_ok(req.query@) ==> (res matches Err(e) && e.is_bad_request(
            "query must be 1-32000 characters"@,
        )),
{
    if !text_fits(req.query.as_str()) {
        return Err(bad_request("query must be 1-32000 characters"));
    }
    let asked = match req.max_pages {
        Some(n) => n,
        None => 10,
    };
    Ok(if asked < 100 { asked } else { 100 })
}

} // verus!
