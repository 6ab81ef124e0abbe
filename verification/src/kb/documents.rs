//! Documents of the knowledge tree: what a creation stores and what an
//! update leaves behind.
use vstd::prelude::*;

verus! {

/// A stored document; timestamps are RFC 3339 texts.
#[derive(Debug, Clone)]
pub struct Document {
    pub id: u128,
    pub title: String,
    pub slug: String,
    pub content: String,
    pub parent_id: Option<u128>,
    pub is_folder: bool,
    pub sort_order: i32,
    pub created_by: Option<u128>,
    pub updated_by: Option<u128>,
    pub created_at: String,
    pub updated_at: String,
}

/// The body of a document creation; what it leaves out takes its default.
#[derive(Debug, Clone)]
pub struct CreateDocument {
    pub title: String,
    pub slug: String,
    pub content: Option<String>,
    pub parent_id: Option<u128>,
    pub is_folder: Option<bool>,
    pub sort_order: Option<i32>,
}

/// The body of a document update; each field given replaces the stored one.
#[derive(Debug, Clone)]
pub struct UpdateDocument {
    pub title: Option<String>,
    pub slug: Option<String>,
    pub content: Option<String>,
    pub parent_id: Option<u128>,
    pub is_folder: Option<bool>,
    pub sort_order: Option<i32>,
}

/// The query of a full-text document search.
#[derive(Debug, Clone)]
pub struct SearchQuery {
    pub q: String,
}

/// The columns written for a new document.
#[derive(Debug, Clone)]
pub struct NewDocument {
    pub title: String,
    pub slug: String,
    pub content: String,
    pub parent_id: Option<u128>,
    pub is_folder: bool,
    pub sort_order: i32,
}

pub open spec fn text_or_empty(v: Option<String>) -> Seq<char> {
    match v {
        Some(t) => t@,
        None => Seq::empty(),
    }
}

pub open spec fn replaced_text(v: Option<String>, stored: Seq<char>) -> Seq<char> {
    match v {
        Some(t) => t@,
        None => stored,
    }
}

pub open spec fn replaced<T>(v: Option<T>, stored: T) -> T {
    match v {
        Some(t) => t,
        None => stored,
    }
}

fn replace_text(v: &Option<String>, stored: &String) -> (res: String)
    ensures
        res@ == replaced_text(*v, stored@),
{
    match v {
        Some(t) => t.clone(),
        None => stored.clone(),
    }
}

impl CreateDocument {
    /// What is stored for this creation: empty content, not a folder and
    /// sort order 0 unless given.
    pub fn stored_values(&self) -> (res: NewDocument)
        ensures
            res.title@ == self.title@,
            res.slug@ == self.slug@,
            res.content@ == text_or_empty(self.content),
            res.parent_id == self.parent_id,
            res.is_folder == replaced(self.is_folder, false),
            res.sort_order == replaced(self.sort_order, 0i32),
    {
        NewDocument {
            title: self.title.clone(),
            slug: self.slug.clone(),
            content: match &self.content {
                Some(c) => c.clone(),
                None => String::new(),
            },
            parent_id: self.parent_id,
            is_folder: match self.is_folder {
                Some(b) => b,
                None => false,
            },
            sort_order: match self.sort_order {
                Some(n) => n,
                None => 0,
            },
        }
    }
}

impl UpdateDocument {
    /// The document after this update: each field given is replaced, every
    /// other field keeps its stored value.  Only the store knows the new
    /// `updated_at`, so it is carried over here.
    pub fn applied_to(&self, doc: &Document) -> (res: Document)
        ensures
            res.id == doc.id,
            res.title@ == replaced_text(self.title, doc.title@),
            res.slug@ == replaced_text(self.slug, doc.slug@),
            res.content@ == replaced_text(self.content, doc.content@),
            res.parent_id == (if self.parent_id is Some { self.parent_id } else { doc.parent_id }),
            res.is_folder == replaced(self.is_folder, doc.is_folder),
            res.sort_order == replaced(self.sort_order, doc.sort_order),
            res.created_by == doc.created_by,
            res.updated_by == doc.updated_by,
            res.created_at@ == doc.created_at@,
            res.updated_at@ == doc.updated_at@,
    {
        Document {
            id: doc.id,
            title: replace_text(&self.title, &doc.title),
            slug: replace_text(&self.slug, &doc.slug),
            content: replace_text(&self.content, &doc.content),
            parent_id: match self.parent_id {
                Some(p) => Some(p),
                None => doc.parent_id,
            },
            is_folder: match self.is_folder {
                Some(b) => b,
                None => doc.is_folder,
            },
            sort_order: match self.sort_order {
                Some(n) => n,
                None => doc.sort_order,
            },
            created_by: doc.created_by,
            updated_by: doc.updated_by,
            created_at: doc.created_at.clone(),
            updated_at: doc.updated_at.clone(),
        }
    }
}

} // verus!
