//! Reading documents out of a search response.
//!
//! A response is a JSON tree. Its hits are the array at `hits.hits`; each hit
//! holds its message at `_source.message` and the agent's name and id at
//! `_source.agent.name` and `_source.agent.id`, all of them optional strings.

use vstd::prelude::*;
use crate::pipeline::{
    documents_view, extract, spec_extract, batch_view, RawDocument, RawDocumentView,
};
use crate::record::{opt_str_view, Record};
use crate::schema::{opt_view, Schema};

verus! {

/// `serde_json::Value`, a JSON tree. It is read only through the three calls
/// below.
#[verifier::external_type_specification]
#[verifier::external_body]
pub struct ExJsonValue(serde_json::Value);

/// What indexing the JSON value `v` by the string `key` gives.
pub uninterp spec fn member_of(v: serde_json::Value, key: Seq<char>) -> serde_json::Value;

/// The text of the JSON value `v` where it is a string.
pub uninterp spec fn text_in(v: serde_json::Value) -> Option<Seq<char>>;

/// The elements of the JSON value `v` where it is an array.
pub uninterp spec fn items_in(v: serde_json::Value) -> Option<Seq<serde_json::Value>>;

/// Indexes a JSON value by a string, as `serde_json::Value`'s `Index<&str>`
/// does: the member under `key` where `v` is an object that has one, else
/// JSON null. It never fails. The contract only names the result.
#[verifier::external_body]
fn json_member<'a>(v: &'a serde_json::Value, key: &str) -> (r: &'a serde_json::Value)
    ensures
        *r == member_of(*v, key@),
{
    &v[key]
}

/// `serde_json::Value::as_str`: the string slice where `v` is a JSON string,
/// else `None`. The contract only names the result.
#[verifier::external_body]
fn json_text<'a>(v: &'a serde_json::Value) -> (r: Option<&'a str>)
    ensures
        opt_str_view(r) == text_in(*v),
{
    v.as_str()
}

/// `serde_json::Value::as_array`: the vector of elements where `v` is a JSON
/// array, else `None`. The contract only names the result.
#[verifier::external_body]
fn json_items<'a>(v: &'a serde_json::Value) -> (r: Option<&'a Vec<serde_json::Value>>)
    ensures
        match r {
            Some(items) => items_in(*v) == Some(items@),
            None => items_in(*v) is None,
        },
{
    v.as_array()
}

/// The hits of a response: the elements of `hits.hits`, or none where that
/// is no array.
pub open spec fn hits_in(data: serde_json::Value) -> Seq<serde_json::Value> {
    match items_in(member_of(member_of(data, "hits"@), "hits"@)) {
        Some(items) => items,
        None => Seq::empty(),
    }
}

/// What the pipeline reads of one hit.
pub open spec fn document_in(hit: serde_json::Value) -> RawDocumentView {
    let source = member_of(hit, "_source"@);
    let agent = member_of(source, "agent"@);
    RawDocumentView {
        message: text_in(member_of(source, "message"@)),
        agent_name: text_in(member_of(agent, "name"@)),
        agent_id: text_in(member_of(agent, "id"@)),
    }
}

/// The documents of a response, one per hit, in hit order.
pub open spec fn documents_in(data: serde_json::Value) -> Seq<RawDocumentView> {
    Seq::new(hits_in(data).len(), |i: int| document_in(hits_in(data)[i]))
}

/// The string at `v`, copied, where `v` is a JSON string.
fn owned_text(v: &serde_json::Value) -> (r: Option<String>)
    ensures
        opt_view(r) == text_in(*v),
{
    match json_text(v) {
        Some(s) => Some(s.to_owned()),
        None => None,
    }
}

/// Reads what the pipeline needs of one hit.
pub fn document_of(hit: &serde_json::Value) -> (doc: RawDocument)
    ensures
        doc@ == document_in(*hit),
{
    let source = json_member(hit, "_source");
    let agent = json_member(source, "agent");
    RawDocument {
        message: owned_text(json_member(source, "message")),
        agent_name: owned_text(json_member(agent, "name")),
        agent_id: owned_text(json_member(agent, "id")),
    }
}

/// Reads the documents of a response, one per hit, in hit order. A response
/// without an array at `hits.hits` has no documents.
pub fn documents_of(data: &serde_json::Value) -> (docs: Vec<RawDocument>)
    ensures
        documents_view(docs@) == documents_in(*data),
{
    let mut docs: Vec<RawDocument> = Vec::new();
    match json_items(json_member(json_member(data, "hits"), "hits")) {
        Some(hits) => {
            let mut i: usize = 0;
            while i < hits.len()
                invariant
                    i <= hits.len(),
                    hits@ == hits_in(*data),
                    docs.len() == i,
                    forall|j: int| 0 <= j < i ==> (#[trigger] docs@[j])@ == document_in(hits@[j]),
                decreases hits.len() - i,
            {
                docs.push(document_of(&hits[i]));
                i += 1;
            }
            assert(documents_view(docs@) =~= documents_in(*data));
        },
        None => {
            assert(documents_view(docs@) =~= documents_in(*data));
        },
    }
    docs
}

/// Extracts the batch of records from a search response: the documents of
/// its hits are read, then the pipeline runs on them.
pub fn parse_output(data: &serde_json::Value, schema: &Schema) -> (batch: Vec<Record>)
    ensures
        batch_view(batch@) == spec_extract(schema@, documents_in(*data)),
        batch.len() <= hits_in(*data).len(),
        forall|i: int| 0 <= i < batch.len() ==> (#[trigger] batch@[i])@.len() == schema@.fields.len(),
{
    let docs = documents_of(data);
    extract(&docs, schema)
}

} // verus!
