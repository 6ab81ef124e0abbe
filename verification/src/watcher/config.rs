//! The watcher agent's settings, read from its environment, and the choice
//! between a platform secret and the environment's own value.
use vstd::prelude::*;
use crate::kb::config::or_default;
use crate::text::{chars_of, concat, string_of};

verus! {

/// The environment variables the watcher reads, each absent or its text.
#[derive(Debug, Clone)]
pub struct WatcherEnv {
    pub database_url: Option<String>,
    pub watcher_listen_addr: Option<String>,
    pub port: Option<String>,
    pub watcher_static_dir: Option<String>,
    pub agent_secret: Option<String>,
    pub dashboard_url: Option<String>,
    pub github_token: Option<String>,
    pub openai_api_key: Option<String>,
}

#[derive(Debug, Clone)]
pub struct Config {
    pub database_url: String,
    pub listen_addr: String,
    pub static_dir: String,
    pub agent_secret: String,
    pub dashboard_url: String,
    pub github_token: String,
    pub openai_api_key: String,
}

/// `WATCHER_LISTEN_ADDR`, else `0.0.0.0:` and `PORT` (by default `4004`).
pub open spec fn watcher_listen_addr_of(addr: Option<String>, port: Option<String>) -> Seq<char> {
    match addr {
        Some(a) => a@,
        None => "0.0.0.0:"@ + or_default(port, "4004"@),
    }
}

fn text_or(v: &Option<String>, default: &str) -> (res: String)
    ensures
        res@ == or_default(*v, default@),
{
    match v {
        Some(s) => s.clone(),
        None => String::from_str(default),
    }
}

/// The secret in use: the platform's value when one was fetched and is not
/// empty, else the environment's when not empty, else none.
pub open spec fn chosen_secret(fetched: Option<String>, fallback: Seq<char>) -> Option<Seq<char>> {
    match fetched {
        Some(v) if v@.len() > 0 => Some(v@),
        _ => if fallback.len() > 0 {
            Some(fallback)
        } else {
            None
        },
    }
}

impl Config {
    /// The settings given the environment; `DATABASE_URL` must be set.
    pub fn from_env_vars(env: &WatcherEnv) -> (res: Config)
        requires
            env.database_url is Some,
        ensures
            res.database_url@ == or_default(env.database_url, Seq::empty()),
            res.listen_addr@ == watcher_listen_addr_of(env.watcher_listen_addr, env.port),
            res.static_dir@ == or_default(env.watcher_static_dir, "static"@),
            res.agent_secret@ == or_default(env.agent_secret, Seq::empty()),
            res.dashboard_url@ == or_default(env.dashboard_url, "http://localhost:8080"@),
            res.github_token@ == or_default(env.github_token, Seq::empty()),
            res.openai_api_key@ == or_default(env.openai_api_key, Seq::empty()),
    {
        let listen_addr = match &env.watcher_listen_addr {
            Some(a) => a.clone(),
            None => {
                let port = text_or(&env.port, "4004");
                string_of(&concat(&chars_of("0.0.0.0:"), &chars_of(port.as_str())))
            },
        };
        proof {
            reveal_strlit("");
        }
        Config {
            database_url: text_or(&env.database_url, ""),
            listen_addr,
            static_dir: text_or(&env.watcher_static_dir, "static"),
            agent_secret: text_or(&env.agent_secret, ""),
            dashboard_url: text_or(&env.dashboard_url, "http://localhost:8080"),
            github_token: text_or(&env.github_token, ""),
            openai_api_key: text_or(&env.openai_api_key, ""),
        }
    }

    /// Whether the dashboard is asked for a secret at all: only when a
    /// dashboard URL is configured.
    pub fn asks_dashboard(&self) -> (res: bool)
        ensures
            res == (self.dashboard_url@.len() > 0),
    {
        !self.dashboard_url.as_str().is_empty()
    }
}

/// Chooses the secret to use once the dashboard has answered (`fetched` is
/// `None` when it was not asked or the request failed): the platform's value
/// wins over the environment's.
pub fn choose_secret(fetched: Option<String>, fallback: &str) -> (res: Option<String>)
    ensures
        crate::protocol::opt_view(res) == chosen_secret(fetched, fallback@),
{
    match fetched {
        Some(v) => {
            if !v.as_str().is_empty() {
                return Some(v);
            }
        },
        None => {},
    }
    if !fallback.is_empty() {
        Some(String::from_str(fallback))
    } else {
        None
    }
}

/// A non-empty platform secret always takes precedence over the
/// environment, and with neither there is no secret.
pub proof fn lemma_platform_secret_first(v: String, fallback: Seq<char>)
    ensures
        v@.len() > 0 ==> chosen_secret(Some(v), fallback) == Some(v@),
        chosen_secret(None, Seq::empty()) is None,
        v@.len() == 0 ==> chosen_secret(Some(v), fallback) == chosen_secret(None, fallback),
{
}

} // verus!
