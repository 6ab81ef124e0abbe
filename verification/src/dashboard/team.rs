//! The team allowlist.
use vstd::prelude::*;
use crate::error::{AppError, bad_request};
use crate::text::{chars_of, same};

verus! {

#[derive(Debug, Clone)]
pub struct AddMemberRequest {
    pub email: String,
    pub role: Option<String>,
}

/// The role a new member gets: `member` unless given; only `admin` and
/// `member` are allowed.
pub fn member_role(role: &Option<String>) -> (res: Result<String, AppError>)
    ensures
        match role {
            None => res matches Ok(r) && r@ == "member"@,
            Some(r) => if r@ == "admin"@ || r@ == "member"@ {
                res matches Ok(x) && x@ == r@
            } else {
                res matches Err(e) && e.is_bad_request("Role must be 'admin' or 'member'"@)
            },
        },
{
    match role {
        None => Ok(String::from_str("member")),
        Some(r) => {
            let v = chars_of(r.as_str());
            if same(&v, &chars_of("admin")) || same(&v, &chars_of("member")) {
                Ok(r.clone())
            } else {
                Err(bad_request("Role must be 'admin' or 'member'"))
            }
        },
    }
}

} // verus!
