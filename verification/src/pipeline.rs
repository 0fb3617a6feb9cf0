//! The extraction pipeline: from a collection of documents to a batch of
//! records.

use vstd::prelude::*;
use crate::decompose::{decompose, spec_decompose};
use crate::record::{build, opt_str_view, spec_build, Record, RecordView};
use crate::schema::{opt_view, Schema, SchemaView};

verus! {

/// What the pipeline reads of one search hit: its free-text message and the
/// name and id of the agent that sent it. Each may be missing.
#[derive(Clone, Debug, PartialEq, Eq)]
pub struct RawDocument {
    pub message: Option<String>,
    pub agent_name: Option<String>,
    pub agent_id: Option<String>,
}

/// A `RawDocument` as plain values.
pub struct RawDocumentView {
    pub message: Option<Seq<char>>,
    pub agent_name: Option<Seq<char>>,
    pub agent_id: Option<Seq<char>>,
}

impl View for RawDocument {
    type V = RawDocumentView;

    open spec fn view(&self) -> RawDocumentView {
        RawDocumentView {
            message: opt_view(self.message),
            agent_name: opt_view(self.agent_name),
            agent_id: opt_view(self.agent_id),
        }
    }
}

/// The plain values of a sequence of documents.
pub open spec fn documents_view(docs: Seq<RawDocument>) -> Seq<RawDocumentView> {
    Seq::new(docs.len(), |i: int| docs[i]@)
}

/// The plain values of a sequence of records.
pub open spec fn batch_view(batch: Seq<Record>) -> Seq<RecordView> {
    Seq::new(batch.len(), |i: int| batch[i]@)
}

/// The records that one document contributes: the record built from its
/// message, or none where it has no message.
pub open spec fn document_records(schema: SchemaView, doc: RawDocumentView) -> Seq<RecordView> {
    match doc.message {
        Some(message) => seq![
            spec_build(schema, doc.agent_name, doc.agent_id, spec_decompose(message)),
        ],
        None => seq![],
    }
}

/// The batch extracted from a collection of documents: the records of its
/// documents, in document order.
pub open spec fn spec_extract(schema: SchemaView, docs: Seq<RawDocumentView>) -> Seq<RecordView>
    decreases docs.len(),
{
    if docs.len() == 0 {
        seq![]
    } else {
        spec_extract(schema, docs.drop_last()) + document_records(schema, docs.last())
    }
}

/// The number of documents that carry a message.
pub open spec fn count_with_message(docs: Seq<RawDocumentView>) -> nat
    decreases docs.len(),
{
    if docs.len() == 0 {
        0
    } else {
        count_with_message(docs.drop_last()) + if docs.last().message is Some {
            1nat
        } else {
            0nat
        }
    }
}

/// A batch holds one record per document that carries a message, so never
/// more records than there are documents.
pub proof fn lemma_extract_len(schema: SchemaView, docs: Seq<RawDocumentView>)
    ensures
        spec_extract(schema, docs).len() == count_with_message(docs),
        spec_extract(schema, docs).len() <= docs.len(),
    decreases docs.len(),
{
    if docs.len() > 0 {
        lemma_extract_len(schema, docs.drop_last());
    }
}

/// The batch of a collection made of two parts is the batch of the first part
/// followed by the batch of the second.
pub proof fn lemma_extract_concat(
    schema: SchemaView,
    first: Seq<RawDocumentView>,
    second: Seq<RawDocumentView>,
)
    ensures
        spec_extract(schema, first + second) == spec_extract(schema, first) + spec_extract(
            schema,
            second,
        ),
    decreases second.len(),
{
    if second.len() == 0 {
        assert(first + second =~= first);
        assert(spec_extract(schema, first) + spec_extract(schema, second) =~= spec_extract(
            schema,
            first,
        ));
    } else {
        let whole = first + second;
        assert(whole.drop_last() =~= first + second.drop_last());
        assert(whole.last() == second.last());
        lemma_extract_concat(schema, first, second.drop_last());
        assert(spec_extract(schema, whole) =~= spec_extract(schema, first) + spec_extract(
            schema,
            second,
        ));
    }
}

/// A document without a message leaves no trace in the batch: the records of
/// the documents before it and after it are there, in their order, as if it
/// had not been in the collection.
pub proof fn lemma_missing_message_skipped(
    schema: SchemaView,
    before: Seq<RawDocumentView>,
    doc: RawDocumentView,
    after: Seq<RawDocumentView>,
)
    requires
        doc.message is None,
    ensures
        spec_extract(schema, before + seq![doc] + after) == spec_extract(schema, before + after),
{
    lemma_extract_concat(schema, before + seq![doc], after);
    lemma_extract_concat(schema, before, seq![doc]);
    lemma_extract_concat(schema, before, after);
    let one = seq![doc];
    assert(one.drop_last() =~= Seq::<RawDocumentView>::empty());
    assert(one.last() == doc);
    assert(spec_extract(schema, one.drop_last()) =~= Seq::<RecordView>::empty());
    assert(spec_extract(schema, one) =~= Seq::<RecordView>::empty());
    assert(spec_extract(schema, before) + Seq::<RecordView>::empty() =~= spec_extract(
        schema,
        before,
    ));
}

/// Every record of a batch has one value per column of the schema.
pub proof fn lemma_extract_widths(schema: SchemaView, docs: Seq<RawDocumentView>)
    ensures
        forall|i: int|
            0 <= i < spec_extract(schema, docs).len() ==> (#[trigger] spec_extract(
                schema,
                docs,
            )[i]).len() == schema.fields.len(),
    decreases docs.len(),
{
    if docs.len() > 0 {
        let earlier = spec_extract(schema, docs.drop_last());
        let added = document_records(schema, docs.last());
        lemma_extract_widths(schema, docs.drop_last());
        assert forall|i: int| 0 <= i < spec_extract(schema, docs).len() implies (
        #[trigger] spec_extract(schema, docs)[i]).len() == schema.fields.len() by {
            if i < earlier.len() {
                assert(spec_extract(schema, docs)[i] == earlier[i]);
            } else {
                assert(spec_extract(schema, docs)[i] == added[i - earlier.len()]);
            }
        }
    }
}

/// The optional string as an optional slice.
fn opt_str(o: &Option<String>) -> (r: Option<&str>)
    ensures
        opt_str_view(r) == opt_view(*o),
{
    match o {
        Some(s) => Some(s.as_str()),
        None => None,
    }
}

/// Extracts the batch of records from a collection of documents.
///
/// The documents are taken in order. One without a message is skipped and
/// gives no record. Of any other, the message is decomposed into pairs and
/// the record is built from the pairs and the agent metadata, which may be
/// missing. The batch keeps the order of the documents.
pub fn extract(docs: &Vec<RawDocument>, schema: &Schema) -> (batch: Vec<Record>)
    ensures
        batch_view(batch@) == spec_extract(schema@, documents_view(docs@)),
        batch.len() <= docs.len(),
        forall|i: int| 0 <= i < batch.len() ==> (#[trigger] batch@[i])@.len() == schema@.fields.len(),
{
    let ghost all = documents_view(docs@);
    let mut batch: Vec<Record> = Vec::new();
    let mut i: usize = 0;
    proof {
        assert(all.take(0) =~= Seq::<RawDocumentView>::empty());
        assert(batch_view(batch@) =~= spec_extract(schema@, all.take(0)));
    }
    while i < docs.len()
        invariant
            i <= docs.len(),
            all == documents_view(docs@),
            batch_view(batch@) == spec_extract(schema@, all.take(i as int)),
        decreases docs.len() - i,
    {
        let ghost before = batch_view(batch@);
        proof {
            assert(all.take(i as int + 1).drop_last() =~= all.take(i as int));
            assert(all.take(i as int + 1).last() == docs@[i as int]@);
        }
        let doc = &docs[i];
        match &doc.message {
            Some(message) => {
                let pairs = decompose(message.as_str());
                let record = build(schema, opt_str(&doc.agent_name), opt_str(&doc.agent_id), &pairs);
                batch.push(record);
                assert(batch_view(batch@) =~= before + document_records(schema@, docs@[i as int]@));
            },
            None => {
                assert(batch_view(batch@) =~= before + document_records(schema@, docs@[i as int]@));
            },
        }
        i += 1;
    }
    proof {
        assert(all.take(docs.len() as int) =~= all);
        lemma_extract_len(schema@, all);
        lemma_extract_widths(schema@, all);
        assert forall|i: int| 0 <= i < batch.len() implies (#[trigger] batch@[i])@.len()
            == schema@.fields.len() by {
            assert(batch_view(batch@)[i] == batch@[i]@);
        }
    }
    batch
}

} // verus!
