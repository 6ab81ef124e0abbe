//! Folders inside a knowledgebase, and the checks that keep every folder and
//! document operation within the knowledgebase named in the path.
use vstd::prelude::*;
use crate::error::{bad_request, not_found, AppError};
use crate::text::{byte_len, chars_of, fits_bytes, string_of, trim_ws, trim_ws_chars};

verus! {

/// The body of `POST /api/kb/{kb_id}/folders`.
#[derive(Debug, Clone)]
pub struct CreateFolderRequest {
    pub name: String,
    pub parent_id: Option<u128>,
    pub category: Option<String>,
}

/// The body of `PUT /api/kb/{kb_id}/folders/{id}/rename`.
#[derive(Debug, Clone)]
pub struct RenameFolderRequest {
    pub name: String,
}

/// The body of `PUT /api/kb/{kb_id}/folders/{id}/move`.
#[derive(Debug, Clone)]
pub struct MoveFolderRequest {
    pub parent_id: Option<u128>,
}

/// The body of `PUT /api/kb/{kb_id}/folders/{id}/category`.
#[derive(Debug, Clone)]
pub struct UpdateCategoryRequest {
    pub category: Option<String>,
}

/// The body of `PUT /api/kb/{kb_id}/documents/{id}/move`.
#[derive(Debug, Clone)]
pub struct MoveDocumentRequest {
    pub folder_id: Option<u128>,
}

/// A folder name is stored trimmed, and must then be 1 to 200 bytes.
pub open spec fn folder_name_ok(name: Seq<char>) -> bool {
    trim_ws(name).len() > 0 && byte_len(trim_ws(name)) <= 200
}

/// The trimmed name of a folder, or `400 folder name must be 1-200
/// characters`.
pub fn folder_name(name: &str) -> (res: Result<String, AppError>)
    ensures
        folder_name_ok(name@) ==> (res matches Ok(s) && s@ == trim_ws(name@)),
        !folder_name_ok(name@) ==> (res matches Err(e) && e.is_bad_request(
            "folder name must be 1-200 characters"@,
        )),
{
    let t = trim_ws_chars(&chars_of(name));
    if t.len() == 0 || !fits_bytes(&t, 200) {
        return Err(bad_request("folder name must be 1-200 characters"));
    }
    Ok(string_of(&t))
}

pub open spec fn category_ok(category: Option<String>) -> bool {
    match category {
        Some(c) => byte_len(c@) <= 100,
        None => true,
    }
}

/// Checks a new folder: its name first, then its category (at most 100
/// bytes); gives the name to store.
pub fn validate_new_folder(req: &CreateFolderRequest) -> (res: Result<String, AppError>)
    ensures
        !folder_name_ok(req.name@) ==> (res matches Err(e) && e.is_bad_request(
            "folder name must be 1-200 characters"@,
        )),
        folder_name_ok(req.name@) && !category_ok(req.category) ==> (res matches Err(e)
            && e.is_bad_request("category must be at most 100 characters"@)),
        folder_name_ok(req.name@) && category_ok(req.category) ==> (res matches Ok(s) && s@
            == trim_ws(req.name@)),
{
    let name = folder_name(req.name.as_str());
    if name.is_err() {
        return name;
    }
    match &req.category {
        Some(c) => {
            if !fits_bytes(&chars_of(c.as_str()), 100) {
                return Err(bad_request("category must be at most 100 characters"));
            }
        },
        None => {},
    }
    name
}

/// What a lookup found is refused unless it belongs to `kb_id`: `missing`
/// when nothing was found, `foreign` when it belongs elsewhere.
pub open spec fn ownership_answer(
    found_kb: Option<u128>,
    kb_id: u128,
    missing: Seq<char>,
    foreign: Seq<char>,
    res: Result<(), AppError>,
) -> bool {
    match found_kb {
        None => res matches Err(e) && e.is_not_found(missing),
        Some(k) => if k == kb_id {
            res is Ok
        } else {
            res matches Err(e) && e.is_not_found(foreign)
        },
    }
}

fn owned_by(found_kb: Option<u128>, kb_id: u128, missing: &str, foreign: &str) -> (res: Result<(), AppError>)
    ensures
        ownership_answer(found_kb, kb_id, missing@, foreign@, res),
{
    match found_kb {
        None => Err(not_found(missing)),
        Some(k) => if k == kb_id {
            Ok(())
        } else {
            Err(not_found(foreign))
        },
    }
}

/// The parent named for a new folder must be a folder of the same
/// knowledgebase (`found_kb` is the knowledgebase of the folder found).
pub fn check_parent_folder(found_kb: Option<u128>, kb_id: u128) -> (res: Result<(), AppError>)
    ensures
        ownership_answer(
            found_kb,
            kb_id,
            "parent folder not found"@,
            "parent folder not found in this KB"@,
            res,
        ),
{
    owned_by(found_kb, kb_id, "parent folder not found", "parent folder not found in this KB")
}

/// A folder renamed, moved, recategorised or deleted must belong to the
/// knowledgebase in the path.
pub fn check_folder(found_kb: Option<u128>, kb_id: u128) -> (res: Result<(), AppError>)
    ensures
        ownership_answer(found_kb, kb_id, "folder not found"@, "folder not found in this KB"@, res),
{
    owned_by(found_kb, kb_id, "folder not found", "folder not found in this KB")
}

/// A document moved must belong to the knowledgebase in the path.
pub fn check_document(found_kb: Option<u128>, kb_id: u128) -> (res: Result<(), AppError>)
    ensures
        ownership_answer(
            found_kb,
            kb_id,
            "document not found"@,
            "document not found in this KB"@,
            res,
        ),
{
    owned_by(found_kb, kb_id, "document not found", "document not found in this KB")
}

/// The folder a document is moved into must belong to the same
/// knowledgebase.
pub fn check_target_folder(found_kb: Option<u128>, kb_id: u128) -> (res: Result<(), AppError>)
    ensures
        ownership_answer(
            found_kb,
            kb_id,
            "target folder not found"@,
            "target folder not found in this KB"@,
            res,
        ),
{
    owned_by(found_kb, kb_id, "target folder not found", "target folder not found in this KB")
}

/// A folder may not move into its own subtree: when a new parent is given
/// and it lies below the folder, the move is refused.
pub fn check_folder_move(req: &MoveFolderRequest, target_is_descendant: bool) -> (res: Result<(), AppError>)
    ensures
        (req.parent_id is Some && target_is_descendant) ==> (res matches Err(e)
            && e.is_bad_request("cannot move folder into its own descendant"@)),
        !(req.parent_id is Some && target_is_descendant) ==> res is Ok,
{
    if req.parent_id.is_some() && target_is_descendant {
        return Err(bad_request("cannot move folder into its own descendant"));
    }
    Ok(())
}

/// Nothing found outside the knowledgebase in the path is ever accepted:
/// whatever the messages, an accepted lookup names `kb_id`.
pub proof fn lemma_accepted_lookups_are_local(
    found_kb: Option<u128>,
    kb_id: u128,
    missing: Seq<char>,
    foreign: Seq<char>,
    res: Result<(), AppError>,
)
    requires
        ownership_answer(found_kb, kb_id, missing, foreign, res),
        res is Ok,
    ensures
        found_kb == Some(kb_id),
{
}

} // verus!
