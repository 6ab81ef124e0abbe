//! Who a request acts as: the claims of a session, an API key or dev mode.
use vstd::prelude::*;
use crate::ids::{parse_uuid, uuid_parse, uuid_string, uuid_text};

verus! {

/// The identity a request carries.
#[derive(Debug, Clone)]
pub struct Claims {
    /// The user id, or the project id for API-key access.
    pub sub: String,
    pub email: String,
    pub role: String,
    pub exp: i64,
    pub iat: i64,
    /// Whether the caller signed in as a real user (not an API key, not dev
    /// mode).
    pub is_user: bool,
}

/// How long a session lasts: seven days, in seconds.
pub const SESSION_SECONDS: i64 = 604800;

impl Claims {
    pub open spec fn spec_user_id(&self) -> Option<u128> {
        if self.is_user {
            uuid_parse(self.sub@)
        } else {
            None
        }
    }

    /// The user's id, only when a real user signed in.  Claims naming a user
    /// in the hyphenated form give that user back.
    pub fn user_id(&self) -> (res: Option<u128>)
        ensures
            res == self.spec_user_id(),
            forall|u: u128| self.is_user && #[trigger] uuid_text(u) == self.sub@ ==> res == Some(u),
    {
        if self.is_user {
            parse_uuid(self.sub.as_str())
        } else {
            None
        }
    }
}

pub open spec fn nil_uuid_text() -> Seq<char> {
    "00000000-0000-0000-0000-000000000000"@
}

/// The claims every request carries when login is skipped (development):
/// an admin that is not a real user and never expires.
pub open spec fn is_dev_claims(c: Claims) -> bool {
    &&& c.sub@ == nil_uuid_text()
    &&& c.email@ == "dev@localhost"@
    &&& c.role@ == "admin"@
    &&& c.exp == i64::MAX
    &&& c.iat == 0
    &&& !c.is_user
}

pub fn dev_claims() -> (res: Claims)
    ensures
        is_dev_claims(res),
{
    Claims {
        sub: String::from_str("00000000-0000-0000-0000-000000000000"),
        email: String::from_str("dev@localhost"),
        role: String::from_str("admin"),
        exp: i64::MAX,
        iat: 0,
        is_user: false,
    }
}

/// The claims of an API key: admin access scoped to the key's project,
/// never expiring, not a real user.
pub open spec fn is_api_key_claims(c: Claims, project_id: u128) -> bool {
    &&& c.sub@ == uuid_text(project_id)
    &&& c.email@ == "api-key"@
    &&& c.role@ == "admin"@
    &&& c.exp == i64::MAX
    &&& c.iat == 0
    &&& !c.is_user
}

pub fn api_key_claims(project_id: u128) -> (res: Claims)
    ensures
        is_api_key_claims(res, project_id),
{
    Claims {
        sub: uuid_string(project_id),
        email: String::from_str("api-key"),
        role: String::from_str("admin"),
        exp: i64::MAX,
        iat: 0,
        is_user: false,
    }
}

/// The claims a signed-in user's session token carries: issued at `now`
/// and expiring seven days later.
pub fn session_claims(user_id: u128, email: &str, role: &str, now: i64) -> (res: Claims)
    requires
        now <= i64::MAX - SESSION_SECONDS,
    ensures
        res.sub@ == uuid_text(user_id),
        res.email@ == email@,
        res.role@ == role@,
        res.iat == now,
        res.exp == now + SESSION_SECONDS,
        res.is_user,
{
    Claims {
        sub: uuid_string(user_id),
        email: String::from_str(email),
        role: String::from_str(role),
        iat: now,
        exp: now + SESSION_SECONDS,
        is_user: true,
    }
}

} // verus!
