//! Records: one row of optional text values per document, in schema order.

use vstd::prelude::*;
use crate::decompose::{pairs_view, PairView};
use crate::schema::{fields_view, lemma_leading_columns_unfed, opt_view, Schema, SchemaView};

verus! {

/// A record as plain values: one optional text per column.
pub type RecordView = Seq<Option<Seq<char>>>;

/// The values of one document, one per column of the schema it was built
/// for, in schema order. An absent value is `None`.
#[derive(Clone, Debug, PartialEq, Eq)]
pub struct Record {
    pub values: Vec<Option<String>>,
}

impl View for Record {
    type V = RecordView;

    open spec fn view(&self) -> RecordView {
        Seq::new(self.values@.len(), |i: int| opt_view(self.values@[i]))
    }
}

/// What column `i` holds before any pair is applied: the agent's name in
/// column 0 and the agent's id in column 1 where the document gave them, else
/// the column's default.
pub open spec fn base_value(
    schema: SchemaView,
    agent_name: Option<Seq<char>>,
    agent_id: Option<Seq<char>>,
    i: int,
) -> Option<Seq<char>> {
    if i == 0 && agent_name is Some {
        agent_name
    } else if i == 1 && agent_id is Some {
        agent_id
    } else {
        schema.fields[i].default
    }
}

/// The value that the pairs assign to column `i`: that of the last pair
/// whose key feeds the column, or `None` where no pair does.
pub open spec fn assigned_value(schema: SchemaView, pairs: Seq<PairView>, i: int) -> Option<
    Seq<char>,
>
    decreases pairs.len(),
{
    if pairs.len() == 0 {
        None
    } else if schema.alias_index(pairs.last().0) == Some(i) {
        Some(pairs.last().1)
    } else {
        assigned_value(schema, pairs.drop_last(), i)
    }
}

/// The value of column `i` in the record built from the given metadata and
/// pairs.
pub open spec fn field_value(
    schema: SchemaView,
    agent_name: Option<Seq<char>>,
    agent_id: Option<Seq<char>>,
    pairs: Seq<PairView>,
    i: int,
) -> Option<Seq<char>> {
    match assigned_value(schema, pairs, i) {
        Some(v) => Some(v),
        None => base_value(schema, agent_name, agent_id, i),
    }
}

/// The record built from the given metadata and pairs: one value per column
/// of the schema, in schema order.
pub open spec fn spec_build(
    schema: SchemaView,
    agent_name: Option<Seq<char>>,
    agent_id: Option<Seq<char>>,
    pairs: Seq<PairView>,
) -> RecordView {
    Seq::new(schema.fields.len(), |i: int| field_value(schema, agent_name, agent_id, pairs, i))
}

/// A pair whose key feeds no column assigns nothing, wherever it stands.
pub proof fn lemma_assigned_skips_unknown(
    schema: SchemaView,
    before: Seq<PairView>,
    pair: PairView,
    after: Seq<PairView>,
    i: int,
)
    requires
        schema.alias_index(pair.0) != Some(i),
    ensures
        assigned_value(schema, before + seq![pair] + after, i) == assigned_value(
            schema,
            before + after,
            i,
        ),
    decreases after.len(),
{
    let with = before + seq![pair] + after;
    let without = before + after;
    if after.len() == 0 {
        assert(with.last() == pair);
        assert(with.drop_last() =~= before);
        assert(without =~= before);
    } else {
        assert(with.last() == after.last());
        assert(without.last() == after.last());
        assert(with.drop_last() =~= before + seq![pair] + after.drop_last());
        assert(without.drop_last() =~= before + after.drop_last());
        lemma_assigned_skips_unknown(schema, before, pair, after.drop_last(), i);
    }
}

/// A pair whose key feeds no column of the schema is ignored: the record is
/// the one built without that pair.
pub proof fn lemma_unknown_key_ignored(
    schema: SchemaView,
    agent_name: Option<Seq<char>>,
    agent_id: Option<Seq<char>>,
    before: Seq<PairView>,
    pair: PairView,
    after: Seq<PairView>,
)
    requires
        schema.alias_index(pair.0) is None,
    ensures
        spec_build(schema, agent_name, agent_id, before + seq![pair] + after) == spec_build(
            schema,
            agent_name,
            agent_id,
            before + after,
        ),
{
    assert forall|i: int| 0 <= i < schema.fields.len() implies field_value(
        schema,
        agent_name,
        agent_id,
        before + seq![pair] + after,
        i,
    ) == field_value(schema, agent_name, agent_id, before + after, i) by {
        lemma_assigned_skips_unknown(schema, before, pair, after, i);
    }
    assert(spec_build(schema, agent_name, agent_id, before + seq![pair] + after) =~= spec_build(
        schema,
        agent_name,
        agent_id,
        before + after,
    ));
}

/// Of the pairs that feed one column the last one wins: where a pair feeds
/// column `i` and no later pair does, the column holds that pair's value,
/// whatever came before.
pub proof fn lemma_last_write_wins(
    schema: SchemaView,
    agent_name: Option<Seq<char>>,
    agent_id: Option<Seq<char>>,
    before: Seq<PairView>,
    pair: PairView,
    after: Seq<PairView>,
    i: int,
)
    requires
        0 <= i < schema.fields.len(),
        schema.alias_index(pair.0) == Some(i),
        forall|k: int| 0 <= k < after.len() ==> schema.alias_index((#[trigger] after[k]).0) != Some(i),
    ensures
        spec_build(schema, agent_name, agent_id, before + seq![pair] + after)[i] == Some(pair.1),
    decreases after.len(),
{
    let all = before + seq![pair] + after;
    if after.len() == 0 {
        assert(all.last() == pair);
    } else {
        assert(all.last() == after.last());
        assert(all.drop_last() =~= before + seq![pair] + after.drop_last());
        assert forall|k: int| 0 <= k < after.drop_last().len() implies schema.alias_index(
            (#[trigger] after.drop_last()[k]).0,
        ) != Some(i) by {
            assert(after.drop_last()[k] == after[k]);
        }
        lemma_last_write_wins(schema, agent_name, agent_id, before, pair, after.drop_last(), i);
    }
}

/// A column that no pair feeds holds what it held before any pair: the
/// agent's name or id where given, else its default.
pub proof fn lemma_unfed_column_keeps_base(
    schema: SchemaView,
    agent_name: Option<Seq<char>>,
    agent_id: Option<Seq<char>>,
    pairs: Seq<PairView>,
    i: int,
)
    requires
        0 <= i < schema.fields.len(),
        forall|k: int| 0 <= k < pairs.len() ==> schema.alias_index((#[trigger] pairs[k]).0) != Some(i),
    ensures
        spec_build(schema, agent_name, agent_id, pairs)[i] == base_value(
            schema,
            agent_name,
            agent_id,
            i,
        ),
    decreases pairs.len(),
{
    if pairs.len() > 0 {
        let rest = pairs.drop_last();
        assert forall|k: int| 0 <= k < rest.len() implies schema.alias_index(
            (#[trigger] rest[k]).0,
        ) != Some(i) by {
            assert(rest[k] == pairs[k]);
        }
        lemma_unfed_column_keeps_base(schema, agent_name, agent_id, rest, i);
    }
}

/// Whatever the pairs are, a record starts with the agent's name and id as
/// the document gave them, absent where it gave none, and with the schema's
/// label as its `event_action`.
pub proof fn lemma_leading_columns(
    schema: SchemaView,
    agent_name: Option<Seq<char>>,
    agent_id: Option<Seq<char>>,
    pairs: Seq<PairView>,
)
    requires
        schema.well_formed(),
    ensures
        spec_build(schema, agent_name, agent_id, pairs)[0] == agent_name,
        spec_build(schema, agent_name, agent_id, pairs)[1] == agent_id,
        spec_build(schema, agent_name, agent_id, pairs)[2] == Some(schema.label),
{
    assert forall|k: int| 0 <= k < pairs.len() implies {
        &&& schema.alias_index((#[trigger] pairs[k]).0) != Some(0int)
        &&& schema.alias_index(pairs[k].0) != Some(1int)
        &&& schema.alias_index(pairs[k].0) != Some(2int)
    } by {
        lemma_leading_columns_unfed(schema, pairs[k].0);
    }
    lemma_unfed_column_keeps_base(schema, agent_name, agent_id, pairs, 0);
    lemma_unfed_column_keeps_base(schema, agent_name, agent_id, pairs, 1);
    lemma_unfed_column_keeps_base(schema, agent_name, agent_id, pairs, 2);
    let lead = schema.fields.take(3);
    assert(lead[0] == schema.fields[0] && lead[1] == schema.fields[1] && lead[2]
        == schema.fields[2]);
}

/// A copy of an optional string.
fn copy_opt(o: &Option<String>) -> (r: Option<String>)
    ensures
        opt_view(r) == opt_view(*o),
{
    match o {
        Some(s) => Some(s.clone()),
        None => None,
    }
}

/// A copy of an optional string slice.
fn own_opt(o: Option<&str>) -> (r: Option<String>)
    ensures
        match o {
            Some(s) => opt_view(r) == Some(s@),
            None => r is None,
        },
{
    match o {
        Some(s) => Some(s.to_owned()),
        None => None,
    }
}

/// The plain-text value of an optional string slice.
pub open spec fn opt_str_view(o: Option<&str>) -> Option<Seq<char>> {
    match o {
        Some(s) => Some(s@),
        None => None,
    }
}

/// Builds the record of one document.
///
/// Every column starts at its default: the schema's label for
/// `event_action`, and absent for every other column of a registered schema.
/// The agent's name and id are set where given. Then each pair whose key
/// feeds a column sets that column to the pair's value; of several pairs that
/// feed one column the last wins, and a pair whose key feeds no column
/// changes nothing.
pub fn build(
    schema: &Schema,
    agent_name: Option<&str>,
    agent_id: Option<&str>,
    pairs: &Vec<(String, String)>,
) -> (record: Record)
    ensures
        record@ == spec_build(
            schema@,
            opt_str_view(agent_name),
            opt_str_view(agent_id),
            pairs_view(pairs@),
        ),
        record@.len() == schema@.fields.len(),
        schema@.well_formed(),
        record@[0] == opt_str_view(agent_name),
        record@[1] == opt_str_view(agent_id),
        record@[2] == Some(schema@.label),
{
    let fields = schema.fields();
    let width = fields.len();
    let ghost name = opt_str_view(agent_name);
    let ghost id = opt_str_view(agent_id);
    let ghost all = pairs_view(pairs@);
    let mut values: Vec<Option<String>> = Vec::new();
    let mut i: usize = 0;
    while i < width
        invariant
            i <= width,
            width == fields.len(),
            fields_view(fields@) == schema@.fields,
            values.len() == i,
            name == opt_str_view(agent_name),
            id == opt_str_view(agent_id),
            forall|j: int| 0 <= j < i ==> opt_view(#[trigger] values@[j]) == base_value(schema@, name, id, j),
        decreases width - i,
    {
        let value = if i == 0 && agent_name.is_some() {
            own_opt(agent_name)
        } else if i == 1 && agent_id.is_some() {
            own_opt(agent_id)
        } else {
            assert(fields_view(fields@)[i as int] == fields@[i as int]@);
            copy_opt(&fields[i].default)
        };
        values.push(value);
        i += 1;
    }
    let mut k: usize = 0;
    while k < pairs.len()
        invariant
            k <= pairs.len(),
            values.len() == width,
            width == schema@.fields.len(),
            all == pairs_view(pairs@),
            forall|j: int| 0 <= j < width ==> opt_view(#[trigger] values@[j]) == field_value(schema@, name, id, all.take(k as int), j),
        decreases pairs.len() - k,
    {
        let ghost done = all.take(k as int);
        let ghost next = all.take(k as int + 1);
        proof {
            assert(next.drop_last() =~= done);
            assert(next.last() == (pairs@[k as int].0@, pairs@[k as int].1@));
        }
        match schema.alias_index(pairs[k].0.as_str()) {
            Some(target) => {
                values.set(target, Some(pairs[k].1.clone()));
            },
            None => {},
        }
        k += 1;
    }
    proof {
        assert(all.take(pairs.len() as int) =~= all);
    }
    let record = Record { values };
    proof {
        assert(record@ =~= spec_build(schema@, name, id, all));
        lemma_leading_columns(schema@, name, id, all);
    }
    record
}

impl Record {
    /// The number of values, which is the number of columns of the schema
    /// that the record was built for.
    pub fn len(&self) -> (n: usize)
        ensures
            n == self@.len(),
    {
        self.values.len()
    }

    /// The value in column `i`, or `None` where it is absent or `i` is past
    /// the last column.
    pub fn get(&self, i: usize) -> (r: Option<&String>)
        ensures
            match r {
                Some(s) => i < self@.len() && self@[i as int] == Some(s@),
                None => i >= self@.len() || self@[i as int] is None,
            },
    {
        if i < self.values.len() {
            self.values[i].as_ref()
        } else {
            None
        }
    }
}

} // verus!
