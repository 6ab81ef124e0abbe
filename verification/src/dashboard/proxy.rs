//! Proxying browser requests to an agent: where they go and what the agent
//! learns of the caller.
use vstd::prelude::*;
use crate::dashboard::session::Claims;
use crate::ids::{uuid_string, uuid_text};
use crate::protocol::bearer_prefix;
use crate::text::{chars_of, concat, push_all, string_of};

verus! {

/// The request methods the proxy knows of.
#[derive(Debug, Clone, Copy, PartialEq, Eq, Structural)]
pub enum HttpMethod {
    Get,
    Post,
    Put,
    Delete,
    Patch,
    Other,
}

/// How to forward a request to an agent.
#[derive(Debug, Clone)]
pub struct ProxyPlan {
    pub target_url: String,
    pub method: HttpMethod,
    /// Headers to send, in order.
    pub headers: Vec<(String, String)>,
    /// Whether the request's body (and its content type) go along.
    pub forward_body: bool,
}

/// The agent URL a proxied path goes to, keeping the query string.
pub open spec fn target_of(base: Seq<char>, path: Seq<char>, query: Option<Seq<char>>) -> Seq<char> {
    match query {
        Some(q) => base + seq!['/'] + path + seq!['?'] + q,
        None => base + seq!['/'] + path,
    }
}

pub open spec fn header_views(h: Seq<(String, String)>) -> Seq<(Seq<char>, Seq<char>)> {
    h.map_values(|p: (String, String)| (p.0@, p.1@))
}

/// The headers sent to the agent: the agent secret when one is configured,
/// the user's id when a real user signed in, and the caller's email.
pub open spec fn forwarded_headers(secret: Seq<char>, claims: Claims) -> Seq<(Seq<char>, Seq<char>)> {
    (if secret.len() > 0 {
        seq![("Authorization"@, bearer_prefix() + secret)]
    } else {
        Seq::empty()
    }) + (match claims.spec_user_id() {
        Some(u) => seq![("x-user-id"@, uuid_text(u))],
        None => Seq::empty(),
    }) + seq![("x-user-email"@, claims.email@)]
}

pub fn proxy_target(base_url: &str, path: &str, query: &Option<String>) -> (res: String)
    ensures
        res@ == target_of(base_url@, path@, match query {
            Some(q) => Some(q@),
            None => None,
        }),
{
    let slash = vec!['/'];
    assert(slash@ == seq!['/']);
    let mut v = concat(&concat(&chars_of(base_url), &slash), &chars_of(path));
    match query {
        Some(q) => {
            let mark = vec!['?'];
            assert(mark@ == seq!['?']);
            push_all(&mut v, &mark);
            push_all(&mut v, &chars_of(q.as_str()));
        },
        None => {},
    }
    string_of(&v)
}

/// The plan for proxying a request to the agent at `base_url`: methods other
/// than GET, POST, PUT, DELETE and PATCH are refused (405); the body goes
/// along except for GET.
pub fn proxy_plan(
    base_url: &str,
    path: &str,
    query: &Option<String>,
    method: HttpMethod,
    agent_secret: &str,
    claims: &Claims,
) -> (res: Result<ProxyPlan, u16>)
    ensures
        method == HttpMethod::Other ==> res == Err::<ProxyPlan, u16>(405),
        method != HttpMethod::Other ==> (res matches Ok(p) && p.target_url@ == target_of(
            base_url@,
            path@,
            match query {
                Some(q) => Some(q@),
                None => None,
            },
        ) && p.method == method && header_views(p.headers@) == forwarded_headers(
            agent_secret@,
            *claims,
        ) && p.forward_body == (method != HttpMethod::Get)),
{
    if method == HttpMethod::Other {
        return Err(405);
    }
    let target = proxy_target(base_url, path, query);
    let mut headers: Vec<(String, String)> = Vec::new();
    let ghost mut expect: Seq<(Seq<char>, Seq<char>)> = Seq::empty();
    if !agent_secret.is_empty() {
        let p = vec!['B', 'e', 'a', 'r', 'e', 'r', ' '];
        assert(p@ == bearer_prefix());
        let value = string_of(&concat(&p, &chars_of(agent_secret)));
        headers.push((String::from_str("Authorization"), value));
        proof {
            expect = seq![("Authorization"@, bearer_prefix() + agent_secret@)];
        }
        assert(header_views(headers@) =~= expect);
    }
    let ghost first = expect;
    assert(first == (if agent_secret@.len() > 0 {
        seq![("Authorization"@, bearer_prefix() + agent_secret@)]
    } else {
        Seq::<(Seq<char>, Seq<char>)>::empty()
    }));
    assert(header_views(headers@) =~= first);
    match claims.user_id() {
        Some(u) => {
            headers.push((String::from_str("x-user-id"), uuid_string(u)));
            proof {
                expect = first + seq![("x-user-id"@, uuid_text(u))];
            }
            assert(header_views(headers@) =~= expect);
        },
        None => {},
    }
    let ghost second = expect;
    assert(header_views(headers@) =~= second);
    headers.push((String::from_str("x-user-email"), claims.email.clone()));
    assert(header_views(headers@) =~= second + seq![("x-user-email"@, claims.email@)]);
    Ok(ProxyPlan { target_url: target, method, headers, forward_body: method != HttpMethod::Get })
}

/// The status answered for an agent's reply: its own when it is a valid
/// HTTP status code (100 to 999), else 502.
pub fn upstream_status(code: u16) -> (res: u16)
    ensures
        100 <= code <= 999 ==> res == code,
        !(100 <= code <= 999) ==> res == 502,
{
    if 100 <= code && code <= 999 {
        code
    } else {
        502
    }
}


/// Whatever the caller (a session user, an API key or development mode),
/// the request to the agent carries `Authorization: Bearer <secret>` first
/// whenever a secret is configured and no `Authorization` header otherwise;
/// `x-user-email` with the caller's email always comes last; and
/// `x-user-id` is sent exactly for a session user, with that user's id.
pub proof fn lemma_forwarded_headers(secret: Seq<char>, claims: Claims)
    ensures
        secret.len() > 0 ==> forwarded_headers(secret, claims)[0] == (
            seq!['A', 'u', 't', 'h', 'o', 'r', 'i', 'z', 'a', 't', 'i', 'o', 'n'],
            seq!['B', 'e', 'a', 'r', 'e', 'r', ' '] + secret,
        ),
        forwarded_headers(secret, claims).len() == (if secret.len() > 0 { 1int } else { 0int }) + (
        if claims.spec_user_id() is Some { 1int } else { 0int }) + 1,
        forwarded_headers(secret, claims).last() == (
            seq!['x', '-', 'u', 's', 'e', 'r', '-', 'e', 'm', 'a', 'i', 'l'],
            claims.email@,
        ),
        forall|i: int|
            0 <= i < forwarded_headers(secret, claims).len() && (#[trigger] forwarded_headers(secret, claims)[i]).0
                == seq!['A', 'u', 't', 'h', 'o', 'r', 'i', 'z', 'a', 't', 'i', 'o', 'n'] ==> i == 0
                && secret.len() > 0,
        claims.spec_user_id() matches Some(u) ==> forwarded_headers(secret, claims).contains(
            (seq!['x', '-', 'u', 's', 'e', 'r', '-', 'i', 'd'], uuid_text(u)),
        ),
{
    reveal_strlit("Authorization");
    reveal_strlit("x-user-id");
    reveal_strlit("x-user-email");
    let a: Seq<(Seq<char>, Seq<char>)> = if secret.len() > 0 {
        seq![("Authorization"@, bearer_prefix() + secret)]
    } else {
        Seq::empty()
    };
    let b: Seq<(Seq<char>, Seq<char>)> = match claims.spec_user_id() {
        Some(u) => seq![("x-user-id"@, uuid_text(u))],
        None => Seq::empty(),
    };
    let c = seq![("x-user-email"@, claims.email@)];
    let h = forwarded_headers(secret, claims);
    assert(h == a + b + c);
    assert(bearer_prefix() == seq!['B', 'e', 'a', 'r', 'e', 'r', ' ']);
    assert("Authorization"@ =~= seq!['A', 'u', 't', 'h', 'o', 'r', 'i', 'z', 'a', 't', 'i', 'o', 'n']);
    assert("x-user-id"@ =~= seq!['x', '-', 'u', 's', 'e', 'r', '-', 'i', 'd']);
    assert("x-user-email"@ =~= seq!['x', '-', 'u', 's', 'e', 'r', '-', 'e', 'm', 'a', 'i', 'l']);
    if secret.len() > 0 {
        assert(h[0] == a[0]);
    }
    assert(h.last() == c[0]);
    assert forall|i: int|
        0 <= i < h.len() && (#[trigger] h[i]).0 == seq!['A', 'u', 't', 'h', 'o', 'r', 'i', 'z', 'a', 't', 'i', 'o', 'n']
        implies i == 0 && secret.len() > 0 by {
        if i >= a.len() {
            if i < a.len() + b.len() {
                assert(h[i] == b[i - a.len()]);
                assert(h[i].0[0] == 'x');
            } else {
                assert(h[i] == c[i - a.len() - b.len()]);
                assert(h[i].0[0] == 'x');
            }
        }
    }
    match claims.spec_user_id() {
        Some(u) => {
            assert(h[a.len() as int] == b[0]);
        },
        None => {},
    }
}

} // verus!
