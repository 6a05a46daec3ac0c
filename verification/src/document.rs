//! Documents, the second kind of record that is synchronised, and their
//! free-form JSON metadata.

use vstd::prelude::*;
use crate::task::{clone_opt_text, opt_text};
use crate::time::Timestamp;

verus! {

/// The JSON value of `serde_json`, `serde_json::Value`, which documents
/// carry as their metadata. Nothing inside it is visible here.
#[verifier::external_type_specification]
#[verifier::external_body]
pub struct ExJsonValue(serde_json::Value);

/// The members of a JSON object, each key with the JSON text of its value;
/// `None` for a JSON value that is not an object.
pub uninterp spec fn json_members(v: serde_json::Value) -> Option<Map<Seq<char>, Seq<char>>>;

/// Copies a JSON value with `serde_json::Value::clone`; the copy is the
/// same JSON value.
#[verifier::external_body]
pub(crate) fn clone_json(v: &serde_json::Value) -> (r: serde_json::Value)
    ensures
        r == *v,
{
    v.clone()
}

/// Merges two JSON objects with `serde_json::Map::extend`: the result holds
/// every member of `local` and of `remote`, with the value of `remote`
/// where both have the key. There is a result only where both are objects.
#[verifier::external_body]
pub(crate) fn merge_json_objects(
    local: &serde_json::Value,
    remote: &serde_json::Value,
) -> (r: Option<serde_json::Value>)
    ensures
        r is Some <==> (json_members(*local) is Some && json_members(*remote) is Some),
        r matches Some(v) ==> json_members(v) == Some(
            json_members(*local)->0.union_prefer_right(json_members(*remote)->0),
        ),
{
    let mut merged = local.as_object()?.clone();
    merged.extend(remote.as_object()?.clone());
    Some(serde_json::Value::Object(merged))
}

/// A stored document.
#[derive(Debug)]
pub struct Document {
    pub id: Option<i64>,
    pub uuid: u128,
    pub title: String,
    pub content: Option<String>,
    pub content_type: Option<String>,
    pub file_path: Option<String>,
    pub metadata: Option<serde_json::Value>,
    pub created_at: Timestamp,
    pub updated_at: Timestamp,
}

/// The model of a [`Document`].
pub ghost struct DocumentView {
    pub id: Option<i64>,
    pub uuid: u128,
    pub title: Seq<char>,
    pub content: Option<Seq<char>>,
    pub content_type: Option<Seq<char>>,
    pub file_path: Option<Seq<char>>,
    pub metadata: Option<serde_json::Value>,
    pub created_at: Timestamp,
    pub updated_at: Timestamp,
}

impl View for Document {
    type V = DocumentView;

    open spec fn view(&self) -> DocumentView {
        DocumentView {
            id: self.id,
            uuid: self.uuid,
            title: self.title@,
            content: opt_text(self.content),
            content_type: opt_text(self.content_type),
            file_path: opt_text(self.file_path),
            metadata: self.metadata,
            created_at: self.created_at,
            updated_at: self.updated_at,
        }
    }
}

impl Clone for Document {
    fn clone(&self) -> (r: Document)
        ensures
            r@ == self@,
    {
        let metadata = match &self.metadata {
            Some(v) => Some(clone_json(v)),
            None => None,
        };
        Document {
            id: self.id,
            uuid: self.uuid,
            title: self.title.clone(),
            content: clone_opt_text(&self.content),
            content_type: clone_opt_text(&self.content_type),
            file_path: clone_opt_text(&self.file_path),
            metadata,
            created_at: self.created_at,
            updated_at: self.updated_at,
        }
    }
}

} // verus!
