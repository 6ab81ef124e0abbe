//! Agent sources: the URLs the dashboard discovers agents at.
use vstd::prelude::*;
use crate::error::{AppError, bad_request};
use crate::text::{chars_of, string_of, trim_end_ch, trim_end_char, trim_ws, trim_ws_chars};

verus! {

#[derive(Debug, Clone)]
pub struct AddSourceRequest {
    pub url: String,
    pub label: Option<String>,
}

/// A source is stored with its URL trimmed of whitespace and then of
/// trailing slashes, and its label (empty when none); an empty URL is
/// refused.
pub fn normalize_source(req: &AddSourceRequest) -> (res: Result<(String, String), AppError>)
    ensures
        trim_end_ch(trim_ws(req.url@), '/').len() == 0 ==> (res matches Err(e) && e.is_bad_request(
            "URL is required"@,
        )),
        trim_end_ch(trim_ws(req.url@), '/').len() > 0 ==> (res matches Ok(p) && p.0@ == trim_end_ch(
            trim_ws(req.url@),
            '/',
        ) && p.1@ == match req.label {
            Some(l) => l@,
            None => Seq::<char>::empty(),
        }),
{
    let url = trim_end_char(&trim_ws_chars(&chars_of(req.url.as_str())), '/');
    if url.len() == 0 {
        return Err(bad_request("URL is required"));
    }
    let label = match &req.label {
        Some(l) => l.clone(),
        None => String::new(),
    };
    Ok((string_of(&url), label))
}

} // verus!
