//! Who is calling and which knowledgebase a request is about.  The dashboard
//! forwards the caller's identity in `x-user-id` / `x-user-email` headers;
//! the knowledgebase is named by the path segment after `kb`.
use vstd::prelude::*;
use crate::error::{bad_request, AppError};
use crate::ids::{parse_uuid, uuid_parse, uuid_text};
use crate::protocol::opt_view;
use crate::text::{chars_of, same, split_ch, split_char, string_of, views};

verus! {

/// The identity forwarded by the dashboard; either part may be missing (a
/// direct call in development), which callers treat as anonymous.
#[derive(Debug, Clone)]
pub struct Identity {
    pub user_id: Option<u128>,
    pub email: Option<String>,
}

/// The user id of an `x-user-id` header: absent, or not a UUID, gives none.
pub open spec fn header_user_id(header: Option<Seq<char>>) -> Option<u128> {
    match header {
        Some(h) => uuid_parse(h),
        None => None,
    }
}

/// The identity of a request with the given `x-user-id` and `x-user-email`
/// header values (`None` when a header is absent or not text).
pub fn identity_from_headers(user_id: &Option<String>, email: &Option<String>) -> (res: Identity)
    ensures
        res.user_id == header_user_id(opt_view(*user_id)),
        forall|u: u128| opt_view(*user_id) == Some(#[trigger] uuid_text(u)) ==> res.user_id == Some(u),
        opt_view(res.email) == opt_view(*email),
{
    let id = match user_id {
        Some(h) => parse_uuid(h.as_str()),
        None => None,
    };
    Identity { user_id: id, email: email.clone() }
}

pub open spec fn kb_marker() -> Seq<char> {
    seq!['k', 'b']
}

/// The index of the first `kb` segment, at `i` or later, that has a segment
/// after it.
pub open spec fn kb_index_from(segs: Seq<Seq<char>>, i: int) -> Option<int>
    decreases segs.len() - i,
{
    if i < 0 || i + 1 >= segs.len() {
        None
    } else if segs[i] == kb_marker() {
        Some(i)
    } else {
        kb_index_from(segs, i + 1)
    }
}

/// The segment of `/api/kb/{kb_id}/...` that names the knowledgebase: the
/// one after the first `kb` segment that has a successor.
pub open spec fn kb_id_text(path: Seq<char>) -> Option<Seq<char>> {
    let segs = split_ch(path, '/');
    match kb_index_from(segs, 0) {
        Some(i) => Some(segs[i + 1]),
        None => None,
    }
}

/// The path segment naming the knowledgebase, if the path has one.
pub fn kb_id_segment(path: &str) -> (res: Option<String>)
    ensures
        opt_view(res) == kb_id_text(path@),
{
    let segs = split_char(&chars_of(path), '/');
    let ghost sv = views(segs@);
    let marker = vec!['k', 'b'];
    assert(marker@ == kb_marker());
    let mut i: usize = 0;
    while i < segs.len() && segs.len() - i > 1
        invariant
            i <= segs.len(),
            sv == views(segs@),
            sv == split_ch(path@, '/'),
            marker@ == kb_marker(),
            kb_index_from(sv, 0) == kb_index_from(sv, i as int),
        decreases segs.len() - i,
    {
        if same(&segs[i], &marker) {
            return Some(string_of(&segs[i + 1]));
        }
        i = i + 1;
    }
    None
}

/// The knowledgebase a request path names: none when the path has no
/// `kb/<id>` part, its UUID when the segment parses, and `400 invalid kb_id`
/// when it does not.
pub fn extract_kb_id(path: &str) -> (res: Result<Option<u128>, AppError>)
    ensures
        match kb_id_text(path@) {
            None => res == Ok::<Option<u128>, AppError>(None),
            Some(seg) => match uuid_parse(seg) {
                Some(u) => res == Ok::<Option<u128>, AppError>(Some(u)),
                None => res matches Err(e) && e.is_bad_request("invalid kb_id"@),
            },
        },
        forall|u: u128|
            kb_id_text(path@) == Some(#[trigger] uuid_text(u)) ==> res == Ok::<Option<u128>, AppError>(
                Some(u),
            ),
{
    match kb_id_segment(path) {
        None => Ok(None),
        Some(seg) => match parse_uuid(seg.as_str()) {
            Some(u) => Ok(Some(u)),
            None => Err(bad_request("invalid kb_id")),
        },
    }
}

/// The knowledgebase a request under `/api/kb/{kb_id}` is about; a path
/// without one is refused with `400 kb_id not found in path`.
pub fn require_kb_id(path: &str) -> (res: Result<u128, AppError>)
    ensures
        match kb_id_text(path@) {
            None => res matches Err(e) && e.is_bad_request("kb_id not found in path"@),
            Some(seg) => match uuid_parse(seg) {
                Some(u) => res == Ok::<u128, AppError>(u),
                None => res matches Err(e) && e.is_bad_request("invalid kb_id"@),
            },
        },
{
    match extract_kb_id(path) {
        Ok(Some(u)) => Ok(u),
        Ok(None) => Err(bad_request("kb_id not found in path")),
        Err(e) => Err(e),
    }
}

} // verus!
