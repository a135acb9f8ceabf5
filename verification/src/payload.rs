//! The part of a `workflow_job` payload that the policy reads.

use serde_json::Value;
use vstd::prelude::*;

use crate::json::{content, get, parse, parsed, Json};
use crate::text::view_of;

verus! {

/// What the policy reads of a payload.
pub struct Payload {
    /// `repository.id`.
    pub repo_id: Option<u64>,
    /// `repository.private`; false where it is absent or no truth value.
    pub private: bool,
    /// `repository.visibility`.
    pub visibility: Option<String>,
    /// `repository.full_name`; empty where it is absent or no text.
    pub repo: String,
    /// `action`; empty where it is absent or no text.
    pub action: String,
    /// `workflow_job.id`.
    pub workflow_job_id: Option<u64>,
    /// The texts among `workflow_job.labels`.
    pub labels: Vec<String>,
    /// `workflow_job.head_branch`; empty where it is absent or no text.
    pub head_branch: String,
    /// `workflow_job.head_sha`; empty where it is absent or no text.
    pub head_sha: String,
    /// `workflow_job.name`; empty where it is absent or no text.
    pub job_name: String,
}

/// The model of a [`Payload`].
pub struct PayloadView {
    pub repo_id: Option<u64>,
    pub private: bool,
    pub visibility: Option<Seq<char>>,
    pub repo: Seq<char>,
    pub action: Seq<char>,
    pub workflow_job_id: Option<u64>,
    pub labels: Seq<Seq<char>>,
    pub head_branch: Seq<char>,
    pub head_sha: Seq<char>,
    pub job_name: Seq<char>,
}

/// The characters of each text of a list.
pub open spec fn views(texts: Seq<String>) -> Seq<Seq<char>> {
    texts.map_values(|s: String| s@)
}

impl View for Payload {
    type V = PayloadView;

    open spec fn view(&self) -> PayloadView {
        PayloadView {
            repo_id: self.repo_id,
            private: self.private,
            visibility: view_of(self.visibility),
            repo: self.repo@,
            action: self.action@,
            workflow_job_id: self.workflow_job_id,
            labels: views(self.labels@),
            head_branch: self.head_branch@,
            head_sha: self.head_sha@,
            job_name: self.job_name@,
        }
    }
}

/// The member `inner` of the member `outer` of a document.
pub open spec fn nested(document: Json, outer: Seq<char>, inner: Seq<char>) -> Option<Json> {
    match document.member(outer) {
        Some(object) => object.member(inner),
        None => None,
    }
}

/// The text of a member; empty where it is absent or no text.
pub open spec fn text_or_empty(value: Option<Json>) -> Seq<char> {
    match value {
        Some(value) => match value.text() {
            Some(s) => s,
            None => Seq::empty(),
        },
        None => Seq::empty(),
    }
}

/// The texts among the items of a list, in their order.
pub open spec fn texts(items: Seq<Json>) -> Seq<Seq<char>>
    decreases items.len(),
{
    if items.len() == 0 {
        Seq::empty()
    } else {
        match items.last().text() {
            Some(s) => texts(items.drop_last()).push(s),
            None => texts(items.drop_last()),
        }
    }
}

/// The texts of a member that is a list; none where it is absent or no list.
pub open spec fn texts_of(value: Option<Json>) -> Seq<Seq<char>> {
    match value {
        Some(Json::Array(items)) => texts(items),
        _ => Seq::empty(),
    }
}

/// What the policy reads of a document.
pub open spec fn payload_of(document: Json) -> PayloadView {
    PayloadView {
        repo_id: match nested(document, "repository"@, "id"@) {
            Some(value) => value.unsigned(),
            None => None,
        },
        private: nested(document, "repository"@, "private"@) == Some(Json::Bool(true)),
        visibility: match nested(document, "repository"@, "visibility"@) {
            Some(value) => value.text(),
            None => None,
        },
        repo: text_or_empty(nested(document, "repository"@, "full_name"@)),
        action: text_or_empty(document.member("action"@)),
        workflow_job_id: match nested(document, "workflow_job"@, "id"@) {
            Some(value) => value.unsigned(),
            None => None,
        },
        labels: texts_of(nested(document, "workflow_job"@, "labels"@)),
        head_branch: text_or_empty(nested(document, "workflow_job"@, "head_branch"@)),
        head_sha: text_or_empty(nested(document, "workflow_job"@, "head_sha"@)),
        job_name: text_or_empty(nested(document, "workflow_job"@, "name"@)),
    }
}

/// What an optional value holds.
pub open spec fn held(value: Option<&Value>) -> Option<Json> {
    match value {
        Some(value) => Some(content(*value)),
        None => None,
    }
}

/// The member `inner` of the member `outer`.
fn nested_value<'a>(document: &'a Value, outer: &str, inner: &str) -> (r: Option<&'a Value>)
    ensures
        held(r) == nested(content(*document), outer@, inner@),
{
    match get(document, outer) {
        Some(object) => get(object, inner),
        None => None,
    }
}

/// The number of a member, where it is an unsigned integer.
fn unsigned_value(value: Option<&Value>) -> (r: Option<u64>)
    ensures
        r == match held(value) {
            Some(value) => value.unsigned(),
            None => None,
        },
{
    match value {
        Some(value) => value.as_u64(),
        None => None,
    }
}

/// The text of a member, where it is one.
fn text_value(value: Option<&Value>) -> (r: Option<String>)
    ensures
        view_of(r) == match held(value) {
            Some(value) => value.text(),
            None => None,
        },
{
    match value {
        Some(value) => match value.as_str() {
            Some(s) => Some(s.to_owned()),
            None => None,
        },
        None => None,
    }
}

/// The text of a member; empty where it is absent or no text.
fn text_value_or_empty(value: Option<&Value>) -> (r: String)
    ensures
        r@ == text_or_empty(held(value)),
{
    match text_value(value) {
        Some(s) => s,
        None => String::new(),
    }
}

/// The texts of a member that is a list.
fn text_values(value: Option<&Value>) -> (r: Vec<String>)
    ensures
        views(r@) == texts_of(held(value)),
{
    let mut out: Vec<String> = Vec::new();
    assert(views(out@) == Seq::<Seq<char>>::empty());
    let items = match value {
        Some(value) => match value.as_array() {
            Some(items) => items,
            None => return out,
        },
        None => return out,
    };
    let ghost held_items = items@.map_values(|v: Value| content(v));
    let mut i: usize = 0;
    while i < items.len()
        invariant
            i <= items@.len(),
            held_items == items@.map_values(|v: Value| content(v)),
            views(out@) == texts(held_items.take(i as int)),
        decreases items@.len() - i,
    {
        assert(held_items.take(i + 1).drop_last() == held_items.take(i as int));
        match items[i].as_str() {
            Some(s) => {
                let ghost before = out@;
                out.push(s.to_owned());
                assert(views(out@) == views(before).push(s@));
            },
            None => {},
        }
        i += 1;
    }
    assert(held_items.take(items@.len() as int) == held_items);
    out
}

/// Reads the fields of a parsed document that the policy looks at.
fn read_payload(document: &Value) -> (r: Payload)
    ensures
        r@ == payload_of(content(*document)),
{
    let private = match nested_value(document, "repository", "private") {
        Some(value) => match value.as_bool() {
            Some(b) => b,
            None => false,
        },
        None => false,
    };
    Payload {
        repo_id: unsigned_value(nested_value(document, "repository", "id")),
        private,
        visibility: text_value(nested_value(document, "repository", "visibility")),
        repo: text_value_or_empty(nested_value(document, "repository", "full_name")),
        action: text_value_or_empty(get(document, "action")),
        workflow_job_id: unsigned_value(nested_value(document, "workflow_job", "id")),
        labels: text_values(nested_value(document, "workflow_job", "labels")),
        head_branch: text_value_or_empty(nested_value(document, "workflow_job", "head_branch")),
        head_sha: text_value_or_empty(nested_value(document, "workflow_job", "head_sha")),
        job_name: text_value_or_empty(nested_value(document, "workflow_job", "name")),
    }
}

/// What the policy reads of the bytes of a document; `None` where they are no
/// JSON.
pub open spec fn payload_in(body: Seq<u8>) -> Option<PayloadView> {
    match parsed(body) {
        Some(document) => Some(payload_of(document)),
        None => None,
    }
}

/// Parses a request body and reads the fields that the policy looks at.
pub fn parse_payload(body: &[u8]) -> (r: Option<Payload>)
    ensures
        match r {
            Some(payload) => payload_in(body@) == Some(payload@),
            None => payload_in(body@) is None,
        },
{
    match parse(body) {
        Ok(document) => Some(read_payload(&document)),
        Err(_) => None,
    }
}

} // verus!
