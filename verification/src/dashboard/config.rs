//! The dashboard's settings, read from its environment.
use vstd::prelude::*;
use crate::text::{
    ascii_lower, chars_of, concat, lower_ascii_chars, same, split_ch, split_char, string_of,
    trim_ws, trim_ws_chars, views,
};

verus! {

/// The environment variables the dashboard reads, each absent or its text.
#[derive(Debug, Clone)]
pub struct DashboardEnv {
    pub database_url: Option<String>,
    pub github_client_id: Option<String>,
    pub github_client_secret: Option<String>,
    pub github_redirect_uri: Option<String>,
    pub jwt_secret: Option<String>,
    pub initial_admin_email: Option<String>,
    pub agent_urls: Option<String>,
    pub listen_addr: Option<String>,
    pub port: Option<String>,
    pub skip_login: Option<String>,
    pub agent_secret: Option<String>,
}

#[derive(Debug, Clone)]
pub struct Config {
    pub database_url: String,
    pub github_client_id: String,
    pub github_client_secret: String,
    pub github_redirect_uri: String,
    pub jwt_secret: String,
    pub initial_admin_email: String,
    pub agent_urls: Vec<String>,
    pub listen_addr: String,
    pub skip_login: bool,
    pub agent_secret: String,
}

pub open spec fn or_empty(o: Option<String>) -> Seq<char> {
    match o {
        Some(s) => s@,
        None => Seq::empty(),
    }
}

/// `SKIP_LOGIN` is on when it is `1` or `true` in any ASCII case.
pub open spec fn skip_flag(v: Option<String>) -> bool {
    match v {
        Some(s) => s@ == seq!['1'] || s@.map_values(|c: char| ascii_lower(c)) == seq![
            't',
            'r',
            'u',
            'e',
        ],
        None => false,
    }
}

/// The non-empty pieces of a list, each trimmed (pieces are trimmed after
/// the empty ones are dropped, so a blank piece stays as an empty text).
pub open spec fn kept_trimmed(parts: Seq<Seq<char>>) -> Seq<Seq<char>>
    decreases parts.len(),
{
    if parts.len() == 0 {
        Seq::empty()
    } else {
        kept_trimmed(parts.drop_last()) + if parts.last().len() > 0 {
            seq![trim_ws(parts.last())]
        } else {
            Seq::empty()
        }
    }
}

/// The agent URLs of a comma-separated `AGENT_URLS`.
pub open spec fn agent_url_list(v: Seq<char>) -> Seq<Seq<char>> {
    kept_trimmed(split_ch(v, ','))
}

/// `LISTEN_ADDR`, else `0.0.0.0:` and `PORT` (by default `8080`).
pub open spec fn listen_addr_of(addr: Option<String>, port: Option<String>) -> Seq<char> {
    match addr {
        Some(a) => a@,
        None => "0.0.0.0:"@ + match port {
            Some(p) => p@,
            None => "8080"@,
        },
    }
}

pub open spec fn string_views(v: Seq<String>) -> Seq<Seq<char>> {
    v.map_values(|s: String| s@)
}

fn text_or_empty(o: &Option<String>) -> (res: String)
    ensures
        res@ == or_empty(*o),
{
    match o {
        Some(s) => s.clone(),
        None => String::new(),
    }
}

pub fn skip_login_flag(v: &Option<String>) -> (res: bool)
    ensures
        res == skip_flag(*v),
{
    match v {
        Some(s) => {
            let c = chars_of(s.as_str());
            let one = vec!['1'];
            let t = vec!['t', 'r', 'u', 'e'];
            assert(one@ == seq!['1']);
            assert(t@ == seq!['t', 'r', 'u', 'e']);
            same(&c, &one) || same(&lower_ascii_chars(&c), &t)
        },
        None => false,
    }
}

pub fn parse_agent_urls(v: &str) -> (res: Vec<String>)
    ensures
        string_views(res@) == agent_url_list(v@),
{
    let parts = split_char(&chars_of(v), ',');
    let mut res: Vec<String> = Vec::new();
    assert(views(parts@).take(0) =~= Seq::<Seq<char>>::empty());
    for i in 0..parts.len()
        invariant
            string_views(res@) == kept_trimmed(views(parts@).take(i as int)),
    {
        let ghost before = res@;
        assert(views(parts@).take(i + 1).drop_last() == views(parts@).take(i as int));
        assert(views(parts@).take(i + 1).last() == parts@[i as int]@);
        if parts[i].len() > 0 {
            let t = string_of(&trim_ws_chars(&parts[i]));
            res.push(t);
            assert(string_views(res@) =~= string_views(before).push(t@));
        }
    }
    assert(views(parts@).take(parts.len() as int) == views(parts@));
    res
}

fn listen_addr_from(addr: &Option<String>, port: &Option<String>) -> (res: String)
    ensures
        res@ == listen_addr_of(*addr, *port),
{
    match addr {
        Some(a) => a.clone(),
        None => {
            let p = match port {
                Some(p) => chars_of(p.as_str()),
                None => chars_of("8080"),
            };
            string_of(&concat(&chars_of("0.0.0.0:"), &p))
        },
    }
}

impl Config {
    /// The settings given the environment.  `DATABASE_URL` and `JWT_SECRET`
    /// must be set; every other variable has a default (`AGENT_SECRET` is
    /// empty when unset).
    pub fn from_env_vars(env: &DashboardEnv) -> (res: Config)
        requires
            env.database_url is Some,
            env.jwt_secret is Some,
        ensures
            res.database_url@ == or_empty(env.database_url),
            res.github_client_id@ == or_empty(env.github_client_id),
            res.github_client_secret@ == or_empty(env.github_client_secret),
            res.github_redirect_uri@ == or_empty(env.github_redirect_uri),
            res.jwt_secret@ == or_empty(env.jwt_secret),
            res.initial_admin_email@ == or_empty(env.initial_admin_email),
            string_views(res.agent_urls@) == agent_url_list(or_empty(env.agent_urls)),
            res.listen_addr@ == listen_addr_of(env.listen_addr, env.port),
            res.skip_login == skip_flag(env.skip_login),
            res.agent_secret@ == or_empty(env.agent_secret),
    {
        let skip_login = skip_login_flag(&env.skip_login);
        let urls = text_or_empty(&env.agent_urls);
        Config {
            database_url: text_or_empty(&env.database_url),
            github_client_id: text_or_empty(&env.github_client_id),
            github_client_secret: text_or_empty(&env.github_client_secret),
            github_redirect_uri: text_or_empty(&env.github_redirect_uri),
            jwt_secret: text_or_empty(&env.jwt_secret),
            initial_admin_email: text_or_empty(&env.initial_admin_email),
            agent_urls: parse_agent_urls(urls.as_str()),
            listen_addr: listen_addr_from(&env.listen_addr, &env.port),
            skip_login,
            agent_secret: text_or_empty(&env.agent_secret),
        }
    }
}

} // verus!
