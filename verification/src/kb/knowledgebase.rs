//! Knowledgebases: what a caller may create and change, and the checks on it.
use vstd::prelude::*;
use crate::error::{bad_request, AppError};
use crate::text::{
    byte_len, chars_of, find, find_chars, fits_bytes, is_ascii_digit, is_ascii_lower, trim_ws,
    trim_ws_chars,
};

verus! {

/// A knowledgebase as stored; timestamps are RFC 3339 texts.
#[derive(Debug, Clone)]
pub struct Knowledgebase {
    pub id: u128,
    pub name: String,
    pub slug: String,
    pub description: String,
    pub system_prompt: String,
    pub model: String,
    pub accent_color: String,
    pub logo_url: Option<String>,
    /// The user who created it (shown only; it grants nothing).
    pub created_by: Option<u128>,
    pub created_at: String,
    pub updated_at: String,
}

/// The body of `POST /api/kbs`.
#[derive(Debug, Clone)]
pub struct CreateKb {
    pub name: String,
    pub slug: String,
    pub description: Option<String>,
}

/// The body of `PUT /api/kb/{kb_id}/settings`: each field given replaces
/// the stored one.
#[derive(Debug, Clone)]
pub struct UpdateSettings {
    pub name: Option<String>,
    pub description: Option<String>,
    pub system_prompt: Option<String>,
    pub model: Option<String>,
    pub accent_color: Option<String>,
}

/// The editable settings written by a settings update.
#[derive(Debug, Clone)]
pub struct SettingsValues {
    pub name: String,
    pub description: String,
    pub system_prompt: String,
    pub model: String,
    pub accent_color: String,
}

pub open spec fn slug_char(c: char) -> bool {
    is_ascii_lower(c) || is_ascii_digit(c) || c == '-'
}

/// Why a slug is refused, or `None` when it is accepted: 1 to 64 bytes of
/// lowercase ASCII letters, digits and dashes, not starting or ending with a
/// dash.
pub open spec fn slug_error(s: Seq<char>) -> Option<Seq<char>> {
    if s.len() == 0 || byte_len(s) > 64 {
        Some("slug must be 1-64 characters"@)
    } else if exists|i: int| 0 <= i < s.len() && !slug_char(#[trigger] s[i]) {
        Some("slug must be lowercase alphanumeric with dashes"@)
    } else if s[0] == '-' || s.last() == '-' {
        Some("slug cannot start or end with dash"@)
    } else {
        None
    }
}

/// The error answered for the message `msg`, or success for none.
pub open spec fn answers(res: Result<(), AppError>, msg: Option<Seq<char>>) -> bool {
    match msg {
        None => res is Ok,
        Some(m) => res matches Err(e) && e.is_bad_request(m),
    }
}

fn all_slug_chars(v: &Vec<char>) -> (res: bool)
    ensures
        res == forall|i: int| 0 <= i < v@.len() ==> slug_char(#[trigger] v@[i]),
{
    let mut i: usize = 0;
    while i < v.len()
        invariant
            i <= v.len(),
            forall|k: int| 0 <= k < i ==> slug_char(#[trigger] v@[k]),
        decreases v.len() - i,
    {
        let c = v[i];
        if !(('a' <= c && c <= 'z') || ('0' <= c && c <= '9') || c == '-') {
            return false;
        }
        i = i + 1;
    }
    true
}

/// Checks a knowledgebase slug.
pub fn validate_slug(slug: &str) -> (res: Result<(), AppError>)
    ensures
        answers(res, slug_error(slug@)),
{
    let v = chars_of(slug);
    if v.len() == 0 || !fits_bytes(&v, 64) {
        return Err(bad_request("slug must be 1-64 characters"));
    }
    if !all_slug_chars(&v) {
        return Err(bad_request("slug must be lowercase alphanumeric with dashes"));
    }
    if v[0] == '-' || v[v.len() - 1] == '-' {
        return Err(bad_request("slug cannot start or end with dash"));
    }
    Ok(())
}

/// A name is 1 to 100 bytes and not only whitespace.
pub open spec fn name_ok(n: Seq<char>) -> bool {
    trim_ws(n).len() > 0 && byte_len(n) <= 100
}

pub open spec fn description_ok(d: Option<String>) -> bool {
    match d {
        Some(t) => byte_len(t@) <= 500,
        None => true,
    }
}

fn name_fits(n: &str) -> (res: bool)
    ensures
        res == name_ok(n@),
{
    let v = chars_of(n);
    trim_ws_chars(&v).len() > 0 && fits_bytes(&v, 100)
}

fn description_fits(d: &Option<String>) -> (res: bool)
    ensures
        res == description_ok(*d),
{
    match d {
        Some(t) => fits_bytes(&chars_of(t.as_str()), 500),
        None => true,
    }
}

/// Why a creation request is refused, or `None`: the name is checked
/// first, then the slug, then the description (at most 500 bytes).
pub open spec fn create_error(req: CreateKb) -> Option<Seq<char>> {
    if !name_ok(req.name@) {
        Some("name must be 1-100 characters"@)
    } else if slug_error(req.slug@) is Some {
        slug_error(req.slug@)
    } else if !description_ok(req.description) {
        Some("description must be at most 500 characters"@)
    } else {
        None
    }
}

/// Checks a creation request before anything is stored.
pub fn validate_create_kb(req: &CreateKb) -> (res: Result<(), AppError>)
    ensures
        answers(res, create_error(*req)),
{
    if !name_fits(req.name.as_str()) {
        return Err(bad_request("name must be 1-100 characters"));
    }
    let r = validate_slug(req.slug.as_str());
    if r.is_err() {
        return r;
    }
    if !description_fits(&req.description) {
        return Err(bad_request("description must be at most 500 characters"));
    }
    Ok(())
}

/// The description stored for a new knowledgebase: the one given, or empty.
pub fn initial_description(req: &CreateKb) -> (res: String)
    ensures
        res@ == match req.description {
            Some(d) => d@,
            None => Seq::empty(),
        },
{
    match &req.description {
        Some(d) => d.clone(),
        None => String::new(),
    }
}

pub open spec fn mentions(s: Seq<char>, p: Seq<char>) -> bool {
    find(s, p) is Some
}

/// Whether a database error on creation reports a taken slug (a duplicate
/// key or a unique constraint); such an error is answered with
/// `400 slug already exists`.
pub fn is_slug_conflict(db_message: &str) -> (res: bool)
    ensures
        res == (mentions(db_message@, "duplicate key"@) || mentions(
            db_message@,
            "unique constraint"@,
        )),
{
    let m = chars_of(db_message);
    let a = chars_of("duplicate key");
    let b = chars_of("unique constraint");
    proof {
        reveal_strlit("duplicate key");
        reveal_strlit("unique constraint");
    }
    find_chars(&m, &a).is_some() || find_chars(&m, &b).is_some()
}

pub open spec fn opt_len_ok(v: Option<String>, limit: nat) -> bool {
    match v {
        Some(t) => byte_len(t@) <= limit,
        None => true,
    }
}

/// Why a settings update is refused, or `None`: a given name must be a
/// valid name, a description at most 500 bytes, an accent colour at most 20.
pub open spec fn settings_error(req: UpdateSettings) -> Option<Seq<char>> {
    if req.name matches Some(n) && !name_ok(n@) {
        Some("name must be 1-100 characters"@)
    } else if !opt_len_ok(req.description, 500) {
        Some("description must be at most 500 characters"@)
    } else if !opt_len_ok(req.accent_color, 20) {
        Some("accent_color must be at most 20 characters"@)
    } else {
        None
    }
}

fn opt_fits(v: &Option<String>, limit: usize) -> (res: bool)
    ensures
        res == opt_len_ok(*v, limit as nat),
{
    match v {
        Some(t) => fits_bytes(&chars_of(t.as_str()), limit),
        None => true,
    }
}

/// Checks a settings update before anything is stored.
pub fn validate_settings(req: &UpdateSettings) -> (res: Result<(), AppError>)
    ensures
        answers(res, settings_error(*req)),
{
    match &req.name {
        Some(n) => {
            if !name_fits(n.as_str()) {
                return Err(bad_request("name must be 1-100 characters"));
            }
        },
        None => {},
    }
    if !opt_fits(&req.description, 500) {
        return Err(bad_request("description must be at most 500 characters"));
    }
    if !opt_fits(&req.accent_color, 20) {
        return Err(bad_request("accent_color must be at most 20 characters"));
    }
    Ok(())
}

/// The given value, or the stored one.
pub open spec fn given_or(v: Option<String>, stored: Seq<char>) -> Seq<char> {
    match v {
        Some(t) => t@,
        None => stored,
    }
}

fn pick(v: &Option<String>, stored: &String) -> (res: String)
    ensures
        res@ == given_or(*v, stored@),
{
    match v {
        Some(t) => t.clone(),
        None => stored.clone(),
    }
}

impl UpdateSettings {
    /// The settings written by this update: each field given replaces the
    /// stored one, each field left out keeps its stored value.
    pub fn merged_with(&self, kb: &Knowledgebase) -> (res: SettingsValues)
        ensures
            res.name@ == given_or(self.name, kb.name@),
            res.description@ == given_or(self.description, kb.description@),
            res.system_prompt@ == given_or(self.system_prompt, kb.system_prompt@),
            res.model@ == given_or(self.model, kb.model@),
            res.accent_color@ == given_or(self.accent_color, kb.accent_color@),
    {
        SettingsValues {
            name: pick(&self.name, &kb.name),
            description: pick(&self.description, &kb.description),
            system_prompt: pick(&self.system_prompt, &kb.system_prompt),
            model: pick(&self.model, &kb.model),
            accent_color: pick(&self.accent_color, &kb.accent_color),
        }
    }
}

/// An update that gives no field writes back exactly the stored settings.
pub proof fn lemma_empty_update_keeps_settings(kb: Knowledgebase)
    ensures
        ({
            let req = UpdateSettings {
                name: None,
                description: None,
                system_prompt: None,
                model: None,
                accent_color: None,
            };
            &&& settings_error(req) is None
            &&& given_or(req.name, kb.name@) == kb.name@
            &&& given_or(req.description, kb.description@) == kb.description@
            &&& given_or(req.system_prompt, kb.system_prompt@) == kb.system_prompt@
            &&& given_or(req.model, kb.model@) == kb.model@
            &&& given_or(req.accent_color, kb.accent_color@) == kb.accent_color@
        }),
{
}


/// Every text of 1 to 64 characters made of lowercase ASCII letters, digits
/// and `-`, neither starting nor ending with `-`, is accepted as a slug (a
/// leading digit included), and every accepted slug is such a text.
pub proof fn lemma_slug_accepted(s: Seq<char>)
    ensures
        slug_error(s) is None <==> {
            &&& 0 < s.len() <= 64
            &&& forall|i: int|
                0 <= i < s.len() ==> {
                    let c = #[trigger] s[i];
                    ('a' <= c && c <= 'z') || ('0' <= c && c <= '9') || c == '-'
                }
            &&& s[0] != '-'
            &&& s[s.len() - 1] != '-'
        },
{
    let plain = forall|i: int|
        0 <= i < s.len() ==> {
            let c = #[trigger] s[i];
            ('a' <= c && c <= 'z') || ('0' <= c && c <= '9') || c == '-'
        };
    if plain {
        assert forall|i: int| 0 <= i < s.len() implies (#[trigger] s[i] as u32) < 128 by {
            let c = s[i];
            assert(('a' <= c && c <= 'z') || ('0' <= c && c <= '9') || c == '-');
        }
        crate::text::lemma_ascii_byte_len(s);
        assert forall|i: int| 0 <= i < s.len() implies slug_char(#[trigger] s[i]) by {
            let c = s[i];
            assert(('a' <= c && c <= 'z') || ('0' <= c && c <= '9') || c == '-');
        }
    }
    if slug_error(s) is None {
        assert forall|i: int| 0 <= i < s.len() implies {
            let c = #[trigger] s[i];
            ('a' <= c && c <= 'z') || ('0' <= c && c <= '9') || c == '-'
        } by {
            assert(slug_char(s[i]));
        }
        assert forall|i: int| 0 <= i < s.len() implies (#[trigger] s[i] as u32) < 128 by {
            assert(slug_char(s[i]));
        }
        crate::text::lemma_ascii_byte_len(s);
        assert(s.last() == s[s.len() - 1]);
    }
    if s.len() > 0 {
        assert(s.last() == s[s.len() - 1]);
    }
}

} // verus!
