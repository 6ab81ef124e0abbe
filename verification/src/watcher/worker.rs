//! The watcher's background work: how far back it looks for commits, and
//! the summary it asks a language model for.
use vstd::prelude::*;
use crate::text::{chars_of, concat, dec_nat, string_of, trim_ws, trim_ws_chars};
use crate::watcher::github::status_reason;

verus! {

/// How far back each watch tick looks for commits, in hours.
pub const LOOKBACK_HOURS: i64 = 24;

/// Seconds between watch ticks.
pub const WATCH_INTERVAL_SECS: u64 = 300;

/// Seconds between summary ticks.
pub const SUMMARY_INTERVAL_SECS: u64 = 30;

/// The most commits summarised in one tick.
pub const SUMMARY_BATCH: i64 = 10;

/// The start of the window a watch tick looks at, `now` being seconds since
/// the Unix epoch.
pub fn lookback_start(now: i64) -> (res: i64)
    requires
        now >= i64::MIN + LOOKBACK_HOURS * 3600,
    ensures
        res == now - LOOKBACK_HOURS * 3600,
{
    now - LOOKBACK_HOURS * 3600
}

/// The commit message summarised: the recorded one, or empty.
pub fn message_text(message: &Option<String>) -> (res: String)
    ensures
        res@ == match *message {
            Some(m) => m@,
            None => Seq::empty(),
        },
{
    match message {
        Some(m) => m.clone(),
        None => String::new(),
    }
}

/// The changed files as shown to the model: their JSON, pretty-printed, or
/// `No file data` when the commit has none.
pub fn files_description(files_json: Option<String>) -> (res: String)
    ensures
        res@ == match files_json {
            Some(f) => f@,
            None => "No file data"@,
        },
{
    match files_json {
        Some(f) => f,
        None => String::from_str("No file data"),
    }
}

pub open spec fn prompt_head() -> Seq<char> {
    "Summarize this git commit in 2-3 sentences for a project status report. Focus on what changed and why it matters.\n\nCommit message: "@
}

pub open spec fn prompt_text(message: Seq<char>, files: Seq<char>) -> Seq<char> {
    prompt_head() + message + "\n\nFiles changed:\n"@ + files
}

/// What is sent to the model for one commit.
#[derive(Debug, Clone)]
pub struct SummaryRequest {
    pub model: String,
    pub prompt: String,
    pub max_tokens: u32,
}

/// The request for a commit's summary: a short answer from `gpt-4o-mini`.
pub fn summary_request(message: &str, files: &str) -> (res: SummaryRequest)
    ensures
        res.model@ == "gpt-4o-mini"@,
        res.prompt@ == prompt_text(message@, files@),
        res.max_tokens == 200,
{
    let head = chars_of(
        "Summarize this git commit in 2-3 sentences for a project status report. Focus on what changed and why it matters.\n\nCommit message: ",
    );
    let a = concat(&head, &chars_of(message));
    let b = concat(&a, &chars_of("\n\nFiles changed:\n"));
    let prompt = string_of(&concat(&b, &chars_of(files)));
    SummaryRequest {
        model: String::from_str("gpt-4o-mini"),
        prompt,
        max_tokens: 200,
    }
}

/// The summary in a reply: its text trimmed, or an error when the reply
/// carries none.
pub fn summary_from_reply(content: Option<String>) -> (res: Result<String, String>)
    ensures
        match content {
            Some(c) => res matches Ok(s) && s@ == trim_ws(c@),
            None => res matches Err(e) && e@ == "OpenAI returned no content"@,
        },
{
    match content {
        Some(c) => Ok(string_of(&trim_ws_chars(&chars_of(c.as_str())))),
        None => Err(String::from_str("OpenAI returned no content")),
    }
}

/// The error of a summary request answered with status `code`.
pub fn openai_failure(code: u16) -> (res: String)
    requires
        100 <= code <= 999,
    ensures
        res@ == "OpenAI "@ + dec_nat(code as nat) + seq![' '] + status_reason(code),
{
    let status = crate::watcher::github::status_text(code);
    string_of(&concat(&chars_of("OpenAI "), &chars_of(status.as_str())))
}

/// What is recorded once a summary was attempted: the text and `done`, or
/// no text and `error` (the commit is then not retried).
pub fn summary_outcome(result: Result<String, String>) -> (res: (Option<String>, String))
    ensures
        match result {
            Ok(t) => (res.0 matches Some(s) && s@ == t@) && res.1@ == "done"@,
            Err(_) => res.0 is None && res.1@ == "error"@,
        },
{
    match result {
        Ok(t) => (Some(t), String::from_str("done")),
        Err(_) => (None, String::from_str("error")),
    }
}

} // verus!
