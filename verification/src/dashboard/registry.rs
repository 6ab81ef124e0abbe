//! Agent discovery: where an agent's manifest and health live, and the
//! sidebar entry an agent with a UI gets.
use vstd::prelude::*;
use crate::case::{char_upper, upper_of};
use crate::protocol::{bearer_prefix, AgentManifest};
use crate::text::{ascii_upper, chars_of, concat, is_ascii_char, slice_chars, string_of};

verus! {

/// Seconds between rounds of discovery and health checks.
pub const HEALTH_CHECK_SECS: u64 = 30;

/// Seconds a health check may take before the agent counts as unhealthy.
pub const HEALTH_TIMEOUT_SECS: u64 = 5;

/// The first character mapped to its uppercase, the rest unchanged.
pub open spec fn capitalized(s: Seq<char>) -> Seq<char> {
    if s.len() == 0 {
        s
    } else {
        upper_of(s[0]) + s.skip(1)
    }
}

pub fn capitalize_first(s: &str) -> (res: String)
    ensures
        res@ == capitalized(s@),
        s@.len() > 0 && is_ascii_char(s@[0]) ==> res@ == seq![ascii_upper(s@[0])] + s@.skip(1),
{
    let v = chars_of(s);
    if v.len() == 0 {
        return String::new();
    }
    let first = char_upper(v[0]);
    let rest = slice_chars(&v, 1, v.len());
    assert(rest@ == v@.skip(1));
    string_of(&concat(&first, &rest))
}

/// Where an agent publishes its manifest.
pub fn manifest_url(url: &str) -> (res: String)
    ensures
        res@ == url@ + "/.well-known/agent.json"@,
{
    string_of(&concat(&chars_of(url), &chars_of("/.well-known/agent.json")))
}

/// Where an agent answers health checks.
pub fn health_url(url: &str) -> (res: String)
    ensures
        res@ == url@ + "/health"@,
{
    string_of(&concat(&chars_of(url), &chars_of("/health")))
}

/// The `Authorization` value sent to agents: none without a secret, else
/// `Bearer <secret>`.
pub fn agent_authorization(secret: &str) -> (res: Option<String>)
    ensures
        secret@.len() == 0 ==> res is None,
        secret@.len() > 0 ==> (res matches Some(v) && v@ == bearer_prefix() + secret@),
{
    if secret.is_empty() {
        None
    } else {
        let p = vec!['B', 'e', 'a', 'r', 'e', 'r', ' '];
        assert(p@ == bearer_prefix());
        Some(string_of(&concat(&p, &chars_of(secret))))
    }
}

/// The status recorded for an agent after a health check.
pub fn health_status(success: bool) -> (res: String)
    ensures
        success ==> res@ == "healthy"@,
        !success ==> res@ == "unhealthy"@,
{
    if success {
        String::from_str("healthy")
    } else {
        String::from_str("unhealthy")
    }
}

/// The microservice record kept for an agent that has a UI.
#[derive(Debug, Clone)]
pub struct MicroserviceEntry {
    pub id: String,
    pub name: String,
    pub description: String,
    pub icon: String,
    pub slug: String,
    pub nav_path: String,
    pub source_url: String,
}

pub open spec fn entry_icon(icon: Option<String>) -> Seq<char> {
    match icon {
        Some(i) => capitalized(i@),
        None => "Box"@,
    }
}

/// An agent with a UI gets a sidebar entry under `/app/<id>`, with its icon
/// name capitalized (`Box` when it names none); an agent without a UI gets
/// none.
pub fn microservice_entry(manifest: &AgentManifest, url: &str) -> (res: Option<MicroserviceEntry>)
    ensures
        manifest.ui is None ==> res is None,
        manifest.ui is Some ==> (res matches Some(e) && e.id@ == manifest.id@ && e.name@
            == manifest.name@ && e.description@ == manifest.description@ && e.icon@ == entry_icon(
            manifest.icon,
        ) && e.slug@ == manifest.id@ && e.nav_path@ == "/app/"@ + manifest.id@ && e.source_url@
            == url@),
{
    if manifest.ui.is_none() {
        return None;
    }
    let icon = match &manifest.icon {
        Some(i) => capitalize_first(i.as_str()),
        None => String::from_str("Box"),
    };
    let nav = string_of(&concat(&chars_of("/app/"), &chars_of(manifest.id.as_str())));
    Some(
        MicroserviceEntry {
            id: manifest.id.clone(),
            name: manifest.name.clone(),
            description: manifest.description.clone(),
            icon,
            slug: manifest.id.clone(),
            nav_path: nav,
            source_url: String::from_str(url),
        },
    )
}

} // verus!
