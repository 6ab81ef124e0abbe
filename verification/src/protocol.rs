//! The agent protocol shared by the dashboard and its microservices: the
//! manifest an agent publishes, its health answer, and the shared-secret
//! check on agent endpoints.
use vstd::prelude::*;
use crate::digest::{bytes_equal, digest_of_str, text_digest};
use crate::text::{
    chars_of, concat, slice_chars, starts_with, starts_with_chars, string_of, trim_end_ch,
    trim_end_char,
};

verus! {

/// The manifest returned by `GET /.well-known/agent.json`.
#[derive(Debug, Clone)]
pub struct AgentManifest {
    pub id: String,
    pub name: String,
    pub version: String,
    pub description: String,
    pub icon: Option<String>,
    pub ui: Option<AgentUiConfig>,
    pub api: Option<AgentApiConfig>,
    pub health_endpoint: String,
    pub capabilities: Vec<String>,
    /// Secret keys this agent needs from the platform; the dashboard warns
    /// admins about those that are not configured.
    pub required_secrets: Vec<String>,
}

/// Where an agent's UI lives.
#[derive(Debug, Clone)]
pub struct AgentUiConfig {
    pub entry_path: String,
    pub width: Option<u32>,
    pub height: Option<u32>,
    /// JS bundle file name relative to `entry_path`.
    pub bundle_js: Option<String>,
    /// CSS bundle file name relative to `entry_path`.
    pub bundle_css: Option<String>,
}

/// Where an agent's API lives.
#[derive(Debug, Clone)]
pub struct AgentApiConfig {
    pub base_path: String,
}

/// The answer of `GET /health`.
#[derive(Debug, Clone)]
pub struct HealthResponse {
    pub status: String,
    pub uptime_seconds: u64,
}

/// The agent secret that requests must present.
#[derive(Debug, Clone)]
pub struct AgentSecret(pub String);

/// A healthy answer after `uptime_seconds` of running.
pub fn healthy(uptime_seconds: u64) -> (res: HealthResponse)
    ensures
        res.status@ == "healthy"@,
        res.uptime_seconds == uptime_seconds,
{
    HealthResponse { status: String::from_str("healthy"), uptime_seconds }
}

pub open spec fn bearer_prefix() -> Seq<char> {
    seq!['B', 'e', 'a', 'r', 'e', 'r', ' ']
}

/// The token of an `Authorization: Bearer <token>` header, or the empty
/// text when there is no such header.
pub open spec fn bearer_token_of(header: Option<Seq<char>>) -> Seq<char> {
    match header {
        Some(h) => if starts_with(h, bearer_prefix()) {
            h.skip(7)
        } else {
            Seq::empty()
        },
        None => Seq::empty(),
    }
}

pub open spec fn opt_view(o: Option<String>) -> Option<Seq<char>> {
    match o {
        Some(s) => Some(s@),
        None => None,
    }
}

/// The bearer token of an `Authorization` header (absent, or not readable
/// as text, is `None`); anything else gives the empty token.
pub fn bearer_token(header: &Option<String>) -> (res: String)
    ensures
        res@ == bearer_token_of(opt_view(*header)),
{
    match header {
        Some(h) => {
            let v = chars_of(h.as_str());
            let p = vec!['B', 'e', 'a', 'r', 'e', 'r', ' '];
            assert(p@ == bearer_prefix());
            if starts_with_chars(&v, &p) {
                let t = slice_chars(&v, 7, v.len());
                assert(t@ == v@.skip(7));
                string_of(&t)
            } else {
                String::new()
            }
        },
        None => String::new(),
    }
}

/// What the shared-secret check does with a request.
#[derive(Debug, Clone, Copy, PartialEq, Eq, Structural)]
pub enum SecretGate {
    /// No secret is configured: every request passes (development mode).
    Open,
    /// The request presented the configured secret.
    Granted,
    /// The request did not present the configured secret: 401.
    Unauthorized,
}

/// Whether the presented token matches the expected secret; tokens are
/// compared by their SHA-256 digests, so that the comparison takes the same
/// time wherever they differ.
pub open spec fn secret_matches(expected: Seq<char>, token: Seq<char>) -> bool {
    text_digest(token) == text_digest(expected)
}

pub open spec fn gate_decision(expected: Seq<char>, header: Option<Seq<char>>) -> SecretGate {
    if expected.len() == 0 {
        SecretGate::Open
    } else if secret_matches(expected, bearer_token_of(header)) {
        SecretGate::Granted
    } else {
        SecretGate::Unauthorized
    }
}

/// Whether `token` presents `expected`: their SHA-256 digests are compared.
pub fn token_matches(expected: &str, token: &str) -> (res: bool)
    ensures
        res == secret_matches(expected@, token@),
{
    let a = digest_of_str(token);
    let b = digest_of_str(expected);
    bytes_equal(&a, &b)
}

/// The decision of the middleware that guards agent endpoints: with no
/// secret configured every request passes; otherwise the request must send
/// `Authorization: Bearer <secret>`.
pub fn require_agent_secret(expected: &AgentSecret, authorization: &Option<String>) -> (res: SecretGate)
    ensures
        res == gate_decision(expected.0@, opt_view(*authorization)),
{
    if expected.0.as_str().is_empty() {
        return SecretGate::Open;
    }
    let token = bearer_token(authorization);
    if token_matches(expected.0.as_str(), token.as_str()) {
        SecretGate::Granted
    } else {
        SecretGate::Unauthorized
    }
}

/// A request that sends `Authorization: Bearer <secret>` for the configured
/// secret is let through.
pub proof fn lemma_presented_secret_granted(secret: Seq<char>)
    requires
        secret.len() > 0,
    ensures
        gate_decision(secret, Some(bearer_prefix() + secret)) == SecretGate::Granted,
{
    let h = bearer_prefix() + secret;
    assert(h.take(7) =~= bearer_prefix());
    assert(h.skip(7) =~= secret);
}

/// With no secret configured, every request is let through, whatever it
/// sends.
pub proof fn lemma_no_secret_open(header: Option<Seq<char>>)
    ensures
        gate_decision(Seq::empty(), header) == SecretGate::Open,
{
}

/// The `Authorization` header an agent sends with its platform-secret
/// request carries exactly its secret, so a dashboard configured with the
/// same secret recognises it.
pub proof fn lemma_agent_request_matches(secret: Seq<char>)
    requires
        secret.len() > 0,
    ensures
        secret_matches(secret, bearer_token_of(Some(bearer_prefix() + secret))),
{
    let h = bearer_prefix() + secret;
    assert(h.take(7) =~= bearer_prefix());
    assert(h.skip(7) =~= secret);
}

/// Where the dashboard serves a platform secret: the dashboard URL without
/// its trailing slashes, then `/internal/platform-secrets/` and the key.
pub fn platform_secret_url(dashboard_url: &str, key: &str) -> (res: String)
    ensures
        res@ == trim_end_ch(dashboard_url@, '/') + "/internal/platform-secrets/"@ + key@,
{
    let base = trim_end_char(&chars_of(dashboard_url), '/');
    let mid = concat(&base, &chars_of("/internal/platform-secrets/"));
    string_of(&concat(&mid, &chars_of(key)))
}

/// The `Authorization` header sent with the request: `Bearer <secret>`, or
/// none when the agent has no secret.
pub fn platform_secret_authorization(agent_secret: &str) -> (res: Option<String>)
    ensures
        agent_secret@.len() == 0 ==> res is None,
        agent_secret@.len() > 0 ==> (res matches Some(v) && v@ == bearer_prefix() + agent_secret@),
{
    if agent_secret.is_empty() {
        None
    } else {
        let p = vec!['B', 'e', 'a', 'r', 'e', 'r', ' '];
        assert(p@ == bearer_prefix());
        Some(string_of(&concat(&p, &chars_of(agent_secret))))
    }
}

} // verus!
