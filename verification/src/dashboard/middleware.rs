//! The authentication layers in front of the dashboard's routes.  Each
//! request is admitted in dev mode, by an API key (a bearer token starting
//! with `tk_`, looked up by its SHA-256 hash) or by the session cookie's
//! signed token; admin routes further require the `admin` role.
use vstd::prelude::*;
use crate::dashboard::session::{Claims, api_key_claims, dev_claims, is_api_key_claims, is_dev_claims};
use crate::digest::{digest_hex_of_str, text_digest_hex};
use crate::protocol::{bearer_prefix, opt_view};
use crate::text::{chars_of, slice_chars, starts_with, starts_with_chars, string_of};

verus! {

/// Marker that login is skipped (development): every request acts as the
/// dev admin.
#[derive(Debug, Clone, Copy)]
pub struct SkipLogin;

pub open spec fn api_key_prefix() -> Seq<char> {
    seq!['t', 'k', '_']
}

/// The API key a request presents: a bearer token that starts with `tk_`.
pub open spec fn api_token_of(header: Option<Seq<char>>) -> Option<Seq<char>> {
    match header {
        Some(h) => if starts_with(h, bearer_prefix()) && starts_with(h.skip(7), api_key_prefix()) {
            Some(h.skip(7))
        } else {
            None
        },
        None => None,
    }
}

pub fn extract_api_token(authorization: &Option<String>) -> (res: Option<String>)
    ensures
        opt_view(res) == api_token_of(opt_view(*authorization)),
{
    match authorization {
        Some(h) => {
            let v = chars_of(h.as_str());
            let p = vec!['B', 'e', 'a', 'r', 'e', 'r', ' '];
            let k = vec!['t', 'k', '_'];
            assert(p@ == bearer_prefix());
            assert(k@ == api_key_prefix());
            if !starts_with_chars(&v, &p) {
                return None;
            }
            let t = slice_chars(&v, 7, v.len());
            assert(t@ == v@.skip(7));
            if starts_with_chars(&t, &k) {
                Some(string_of(&t))
            } else {
                None
            }
        },
        None => None,
    }
}

/// The hash under which an API key is stored: SHA-256, in lowercase hex.
pub fn hash_api_key(key: &str) -> (res: String)
    ensures
        res@ == text_digest_hex(key@),
{
    digest_hex_of_str(key)
}

/// Which routes a layer guards.
#[derive(Debug, Clone, Copy, PartialEq, Eq, Structural)]
pub enum AuthMode {
    /// Any team member.
    Member,
    /// Admins only.
    Admin,
}

/// The first step of authenticating a request.
#[derive(Debug, Clone)]
pub enum AuthStart {
    /// Login is skipped: admit with these claims.
    Dev(Claims),
    /// Look up the API key stored under this hash.
    ApiKey(String),
    /// Check the session cookie.
    Session,
}

/// How authentication begins: dev mode first, then an API key, else the
/// session cookie.
pub open spec fn start_matches(res: AuthStart, skip_login: bool, header: Option<Seq<char>>) -> bool {
    if skip_login {
        res matches AuthStart::Dev(c) && is_dev_claims(c)
    } else {
        match api_token_of(header) {
            Some(t) => res matches AuthStart::ApiKey(h) && h@ == text_digest_hex(t),
            None => res is Session,
        }
    }
}

pub fn start_auth(skip_login: bool, authorization: &Option<String>) -> (res: AuthStart)
    ensures
        start_matches(res, skip_login, opt_view(*authorization)),
{
    if skip_login {
        return AuthStart::Dev(dev_claims());
    }
    match extract_api_token(authorization) {
        Some(token) => AuthStart::ApiKey(hash_api_key(token.as_str())),
        None => AuthStart::Session,
    }
}

/// How an API-key lookup ends: a missing database is a server error (500),
/// an unknown or revoked key is refused (401), a known key admits with the
/// claims of its project (which hold the admin role).
pub open spec fn api_key_matches(res: Result<Claims, u16>, mode: AuthMode, pool_available: bool, project_id: Option<u128>) -> bool {
    if !pool_available {
        res == Err::<Claims, u16>(500)
    } else {
        match project_id {
            None => res == Err::<Claims, u16>(401),
            Some(p) => res matches Ok(c) && is_api_key_claims(c, p),
        }
    }
}

pub fn finish_api_key(mode: AuthMode, pool_available: bool, project_id: Option<u128>) -> (res: Result<Claims, u16>)
    ensures
        api_key_matches(res, mode, pool_available, project_id),
{
    if !pool_available {
        return Err(500);
    }
    match project_id {
        None => Err(401),
        Some(p) => {
            let claims = api_key_claims(p);
            proof {
                reveal_strlit("admin");
                assert("admin"@ =~= admin_role());
            }
            if mode == AuthMode::Admin && !role_is_admin(&claims.role) {
                return Err(403);
            }
            Ok(claims)
        },
    }
}

pub open spec fn admin_role() -> Seq<char> {
    seq!['a', 'd', 'm', 'i', 'n']
}

fn role_is_admin(role: &String) -> (res: bool)
    ensures
        res == (role@ == admin_role()),
{
    let r = chars_of(role.as_str());
    let a = vec!['a', 'd', 'm', 'i', 'n'];
    assert(a@ == admin_role());
    crate::text::same(&r, &a)
}

/// The claims of a verified session token, marked as a real user.
pub open spec fn as_user(c: Claims) -> Claims {
    Claims { is_user: true, ..c }
}

/// How a session check ends: no cookie or a token that does not verify is
/// refused (401); on admin routes a non-admin is forbidden (403); otherwise
/// the token's claims admit the request as a real user.
pub open spec fn session_matches(res: Result<Claims, u16>, mode: AuthMode, verified: Option<Claims>) -> bool {
    match verified {
        None => res == Err::<Claims, u16>(401),
        Some(c) => if mode == AuthMode::Admin && c.role@ != admin_role() {
            res == Err::<Claims, u16>(403)
        } else {
            res == Ok::<Claims, u16>(as_user(c))
        },
    }
}

pub fn finish_session(mode: AuthMode, verified: Option<Claims>) -> (res: Result<Claims, u16>)
    ensures
        session_matches(res, mode, verified),
{
    match verified {
        None => Err(401),
        Some(c) => {
            let mut claims = c;
            claims.is_user = true;
            if mode == AuthMode::Admin && !role_is_admin(&claims.role) {
                return Err(403);
            }
            Ok(claims)
        },
    }
}

/// Whatever way a request gets onto an admin route, its claims hold the
/// admin role: the dev claims and API-key claims are admins, and a session
/// of another role is forbidden.
pub proof fn lemma_admin_routes_admit_admins(
    start: AuthStart,
    skip_login: bool,
    header: Option<Seq<char>>,
    pool_available: bool,
    project_id: Option<u128>,
    verified: Option<Claims>,
    api: Result<Claims, u16>,
    session: Result<Claims, u16>,
)
    requires
        start_matches(start, skip_login, header),
        api_key_matches(api, AuthMode::Admin, pool_available, project_id),
        session_matches(session, AuthMode::Admin, verified),
    ensures
        start matches AuthStart::Dev(c) ==> c.role@ == admin_role(),
        start is ApiKey && api is Ok ==> api->Ok_0.role@ == admin_role(),
        start is Session && session is Ok ==> session->Ok_0.role@ == admin_role(),
{
    reveal_strlit("admin");
    assert("admin"@ =~= admin_role());
}

/// A request admitted through the session cookie acts as a real user; one
/// admitted in dev mode or by an API key never does.
pub proof fn lemma_only_sessions_are_users(
    mode: AuthMode,
    start: AuthStart,
    skip_login: bool,
    header: Option<Seq<char>>,
    pool_available: bool,
    project_id: Option<u128>,
    verified: Option<Claims>,
    api: Result<Claims, u16>,
    session: Result<Claims, u16>,
)
    requires
        start_matches(start, skip_login, header),
        api_key_matches(api, mode, pool_available, project_id),
        session_matches(session, mode, verified),
    ensures
        start matches AuthStart::Dev(c) ==> !c.is_user,
        start is ApiKey && api is Ok ==> !api->Ok_0.is_user,
        start is Session && session is Ok ==> session->Ok_0.is_user,
{
}

/// An API key is looked up under the same hash it was stored under.
pub proof fn lemma_api_key_lookup_hash(key: Seq<char>, start: AuthStart)
    requires
        starts_with(key, api_key_prefix()),
        start_matches(start, false, Some(bearer_prefix() + key)),
    ensures
        start matches AuthStart::ApiKey(h) && h@ == text_digest_hex(key),
{
    let h = bearer_prefix() + key;
    assert(h.take(7) =~= bearer_prefix());
    assert(h.skip(7) =~= key);
}


/// On an admin route, a verified session whose role is exactly `admin` is
/// let in with its own claims, now marked as a real user; a verified session
/// with any other role is refused with 403; without a verified session the
/// answer is 401.  On a member route every verified session is let in.
pub proof fn lemma_admin_sessions_admitted(mode: AuthMode, verified: Option<Claims>, res: Result<Claims, u16>)
    requires
        session_matches(res, mode, verified),
    ensures
        verified is None ==> res == Err::<Claims, u16>(401),
        verified is Some && (mode == AuthMode::Member || verified->0.role@ == seq!['a', 'd', 'm', 'i', 'n'])
            ==> (res matches Ok(r) && r.sub == verified->0.sub && r.email == verified->0.email
            && r.role == verified->0.role && r.exp == verified->0.exp && r.iat == verified->0.iat
            && r.is_user),
        verified is Some && mode == AuthMode::Admin && verified->0.role@ != seq!['a', 'd', 'm', 'i', 'n']
            ==> res == Err::<Claims, u16>(403),
{
}

} // verus!
