//! GitHub sign-in: what GitHub answers, which email counts, and the cookies
//! a sign-in sets and clears.
use vstd::prelude::*;
use crate::dashboard::session::SESSION_SECONDS;
use crate::error::{AppError, forbidden, unauthorized};

verus! {

/// The query GitHub sends back to the login callback.
#[derive(Debug, Clone)]
pub struct CallbackQuery {
    pub code: String,
    pub state: Option<String>,
}

#[derive(Debug, Clone)]
pub struct GitHubTokenResponse {
    pub access_token: String,
}

#[derive(Debug, Clone)]
pub struct GitHubUser {
    pub id: i64,
    pub login: String,
    pub name: Option<String>,
    pub avatar_url: Option<String>,
}

#[derive(Debug, Clone)]
pub struct GitHubEmail {
    pub email: String,
    pub primary: bool,
    pub verified: bool,
}

/// The position of the first email that is both primary and verified.
pub open spec fn first_primary(es: Seq<GitHubEmail>) -> Option<int>
    decreases es.len(),
{
    if es.len() == 0 {
        None
    } else {
        match first_primary(es.drop_last()) {
            Some(k) => Some(k),
            None => if es.last().primary && es.last().verified {
                Some(es.len() - 1)
            } else {
                None
            },
        }
    }
}

/// The account's email: the first that is primary and verified.
pub fn select_primary_email(emails: &Vec<GitHubEmail>) -> (res: Option<String>)
    ensures
        match first_primary(emails@) {
            Some(k) => res matches Some(e) && e@ == emails@[k].email@,
            None => res is None,
        },
{
    assert(emails@.take(0) =~= Seq::<GitHubEmail>::empty());
    for i in 0..emails.len()
        invariant
            first_primary(emails@.take(i as int)) is None,
    {
        assert(emails@.take(i + 1).drop_last() == emails@.take(i as int));
        if emails[i].primary && emails[i].verified {
            proof {
                lemma_first_primary_extends(emails@.take(i + 1), emails@.skip(i + 1));
                assert(emails@ == emails@.take(i + 1) + emails@.skip(i + 1));
            }
            return Some(emails[i].email.clone());
        }
    }
    assert(emails@.take(emails.len() as int) == emails@);
    None
}

proof fn lemma_first_primary_extends(a: Seq<GitHubEmail>, b: Seq<GitHubEmail>)
    requires
        first_primary(a) is Some,
    ensures
        first_primary(a + b) == first_primary(a),
    decreases b.len(),
{
    if b.len() == 0 {
        assert(a + b == a);
    } else {
        lemma_first_primary_extends(a, b.drop_last());
        assert((a + b).drop_last() == a + b.drop_last());
    }
}

pub open spec fn opt_text(o: Option<String>) -> Option<Seq<char>> {
    match o {
        Some(s) => Some(s@),
        None => None,
    }
}

/// The OAuth `state` check against cross-site request forgery: when the
/// callback carries a state, the `oauth_state` cookie must hold the same.
pub fn check_oauth_state(provided: &Option<String>, stored: &Option<String>) -> (res: Result<(), AppError>)
    ensures
        res is Ok <==> (provided is None || opt_text(*stored) == opt_text(*provided)),
        res matches Err(e) ==> e.is_forbidden("Invalid OAuth state — possible CSRF"@),
{
    match provided {
        None => Ok(()),
        Some(p) => match stored {
            Some(s) => {
                let same = crate::text::same(&crate::text::chars_of(s.as_str()), &crate::text::chars_of(p.as_str()));
                if same {
                    Ok(())
                } else {
                    Err(forbidden("Invalid OAuth state — possible CSRF"))
                }
            },
            None => Err(forbidden("Invalid OAuth state — possible CSRF")),
        },
    }
}

/// Signing in needs a verified primary email.
pub fn require_primary_email(email: Option<String>) -> (res: Result<String, AppError>)
    ensures
        match email {
            Some(e) => res == Ok::<String, AppError>(e),
            None => res matches Err(err) && err.is_unauthorized(
                "No verified primary email on GitHub account"@,
            ),
        },
{
    match email {
        Some(e) => Ok(e),
        None => Err(unauthorized("No verified primary email on GitHub account")),
    }
}

/// Only emails on the team allowlist may sign in; they sign in with the role
/// the allowlist gives them.
pub fn allowlisted_role(role: Option<String>) -> (res: Result<String, AppError>)
    ensures
        match role {
            Some(r) => res == Ok::<String, AppError>(r),
            None => res matches Err(err) && err.is_forbidden(
                "Your email is not on the team allowlist"@,
            ),
        },
{
    match role {
        Some(r) => Ok(r),
        None => Err(forbidden("Your email is not on the team allowlist")),
    }
}

/// The name and avatar recorded for a GitHub user: the display name or else
/// the login, and the avatar URL or else nothing.
pub fn profile_of(user: &GitHubUser) -> (res: (String, String))
    ensures
        res.0@ == match user.name {
            Some(n) => n@,
            None => user.login@,
        },
        res.1@ == match user.avatar_url {
            Some(a) => a@,
            None => Seq::<char>::empty(),
        },
{
    let name = match &user.name {
        Some(n) => n.clone(),
        None => user.login.clone(),
    };
    let avatar = match &user.avatar_url {
        Some(a) => a.clone(),
        None => String::new(),
    };
    (name, avatar)
}

/// A cookie to set: name, value, path, flags and lifetime in seconds.
#[derive(Debug, Clone)]
pub struct CookiePlan {
    pub name: String,
    pub value: String,
    pub path: String,
    pub http_only: bool,
    pub secure: bool,
    pub same_site_lax: bool,
    pub max_age_secs: i64,
}

/// The session cookie: the token, on `/`, HTTP-only, `SameSite=Lax`, secure
/// unless login is skipped (development), living as long as the token.
pub fn session_cookie(token: String, skip_login: bool) -> (res: CookiePlan)
    ensures
        res.name@ == "session"@,
        res.value@ == token@,
        res.path@ == "/"@,
        res.http_only,
        res.secure == !skip_login,
        res.same_site_lax,
        res.max_age_secs == SESSION_SECONDS,
{
    CookiePlan {
        name: String::from_str("session"),
        value: token,
        path: String::from_str("/"),
        http_only: true,
        secure: !skip_login,
        same_site_lax: true,
        max_age_secs: SESSION_SECONDS,
    }
}

/// A cookie that clears `name`: empty, on `/`, expiring at once.
pub fn cleared_cookie(name: &str, http_only: bool) -> (res: CookiePlan)
    ensures
        res.name@ == name@,
        res.value@.len() == 0,
        res.path@ == "/"@,
        res.http_only == http_only,
        !res.secure,
        !res.same_site_lax,
        res.max_age_secs == 0,
{
    CookiePlan {
        name: String::from_str(name),
        value: String::new(),
        path: String::from_str("/"),
        http_only,
        secure: false,
        same_site_lax: false,
        max_age_secs: 0,
    }
}

} // verus!
