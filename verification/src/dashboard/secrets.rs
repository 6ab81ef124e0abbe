//! Platform secrets: keys and values shared with agents.  Values never leave
//! through listings; agents fetch them with the agent secret.
use vstd::prelude::*;
use crate::case::{upper_all, upper_chars};
use crate::error::{AppError, bad_request, forbidden, unauthorized};
use crate::protocol::{bearer_token, bearer_token_of, opt_view, secret_matches, token_matches};
use crate::text::{chars_of, string_of, trim_ws, trim_ws_chars};

verus! {

#[derive(Debug, Clone)]
pub struct CreateSecretRequest {
    pub key: String,
    pub value: String,
    pub description: String,
}

#[derive(Debug, Clone)]
pub struct UpdateSecretRequest {
    pub value: String,
    pub description: Option<String>,
}

/// A secret ready to be stored.
#[derive(Debug, Clone)]
pub struct NewSecret {
    pub key: String,
    pub value: String,
    pub description: String,
}

/// A new secret is stored under its key trimmed and uppercased, with its
/// value and description trimmed; an empty key or an empty value is
/// refused.
pub fn validate_new_secret(req: &CreateSecretRequest) -> (res: Result<NewSecret, AppError>)
    ensures
        upper_all(trim_ws(req.key@)).len() == 0 ==> (res matches Err(e) && e.is_bad_request(
            "Key cannot be empty"@,
        )),
        upper_all(trim_ws(req.key@)).len() > 0 && trim_ws(req.value@).len() == 0 ==> (res matches Err(
            e,
        ) && e.is_bad_request("Value cannot be empty"@)),
        upper_all(trim_ws(req.key@)).len() > 0 && trim_ws(req.value@).len() > 0 ==> (res matches Ok(
            s,
        ) && s.key@ == upper_all(trim_ws(req.key@)) && s.value@ == trim_ws(req.value@)
            && s.description@ == trim_ws(req.description@)),
{
    let key = upper_chars(&trim_ws_chars(&chars_of(req.key.as_str())));
    if key.len() == 0 {
        return Err(bad_request("Key cannot be empty"));
    }
    let value = trim_ws_chars(&chars_of(req.value.as_str()));
    if value.len() == 0 {
        return Err(bad_request("Value cannot be empty"));
    }
    let description = trim_ws_chars(&chars_of(req.description.as_str()));
    Ok(NewSecret { key: string_of(&key), value: string_of(&value), description: string_of(&description) })
}

/// A change to an existing secret.
#[derive(Debug, Clone)]
pub struct SecretUpdate {
    /// The trimmed new value.
    pub value: String,
    /// The trimmed new description, when one was given.
    pub description: Option<String>,
    /// The description stored when the key turns out not to exist and is
    /// created: the one given, untrimmed, or the empty text.
    pub insert_description: String,
}

/// A change to a secret needs a non-empty value.
pub fn validate_secret_update(req: &UpdateSecretRequest) -> (res: Result<SecretUpdate, AppError>)
    ensures
        trim_ws(req.value@).len() == 0 ==> (res matches Err(e) && e.is_bad_request(
            "Value cannot be empty"@,
        )),
        trim_ws(req.value@).len() > 0 ==> (res matches Ok(u) && u.value@ == trim_ws(req.value@)
            && match req.description {
            Some(d) => u.description matches Some(x) && x@ == trim_ws(d@) && u.insert_description@
                == d@,
            None => u.description is None && u.insert_description@.len() == 0,
        }),
{
    let value = trim_ws_chars(&chars_of(req.value.as_str()));
    if value.len() == 0 {
        return Err(bad_request("Value cannot be empty"));
    }
    let (description, insert_description) = match &req.description {
        Some(d) => (Some(string_of(&trim_ws_chars(&chars_of(d.as_str())))), d.clone()),
        None => (None, String::new()),
    };
    Ok(SecretUpdate { value: string_of(&value), description, insert_description })
}

/// The check on the internal secret endpoint: it is closed (403) while no
/// agent secret is configured, and otherwise needs the agent secret as a
/// bearer token (401 without it).
pub fn internal_secret_gate(agent_secret: &str, authorization: &Option<String>) -> (res: Result<(), AppError>)
    ensures
        agent_secret@.len() == 0 ==> (res matches Err(e) && e.is_forbidden(
            "AGENT_SECRET not configured"@,
        )),
        agent_secret@.len() > 0 ==> (res is Ok <==> secret_matches(
            agent_secret@,
            bearer_token_of(opt_view(*authorization)),
        )),
        agent_secret@.len() > 0 && res is Err ==> (res matches Err(e) && e.is_unauthorized(
            "Invalid agent secret"@,
        )),
{
    if agent_secret.is_empty() {
        return Err(forbidden("AGENT_SECRET not configured"));
    }
    let token = bearer_token(authorization);
    if token_matches(agent_secret, token.as_str()) {
        Ok(())
    } else {
        Err(unauthorized("Invalid agent secret"))
    }
}

} // verus!
