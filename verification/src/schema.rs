//! Event kinds and their schemas: the ordered output columns of each kind and
//! the raw message keys that feed them.

use vstd::prelude::*;
use crate::text::{trim, trim_text};

verus! {

/// A category of telemetry record.
#[derive(Clone, Copy, Debug, PartialEq, Eq, Structural)]
pub enum EventKind {
    ProcessCreate,
    NetworkConnection,
    ImageLoaded,
    RegistryValueSet,
    FileDeleteArchived,
}

/// The event kind registered under a Sysmon event code, if any.
pub open spec fn kind_of_code(code: u32) -> Option<EventKind> {
    if code == 1 {
        Some(EventKind::ProcessCreate)
    } else if code == 3 {
        Some(EventKind::NetworkConnection)
    } else if code == 7 {
        Some(EventKind::ImageLoaded)
    } else if code == 13 {
        Some(EventKind::RegistryValueSet)
    } else if code == 23 {
        Some(EventKind::FileDeleteArchived)
    } else {
        None
    }
}

/// The Sysmon event code of a kind.
pub open spec fn code_of_kind(kind: EventKind) -> u32 {
    match kind {
        EventKind::ProcessCreate => 1,
        EventKind::NetworkConnection => 3,
        EventKind::ImageLoaded => 7,
        EventKind::RegistryValueSet => 13,
        EventKind::FileDeleteArchived => 23,
    }
}

impl EventKind {
    /// The kind registered under `code`; `None` for any other code.
    pub fn from_code(code: u32) -> (r: Option<EventKind>)
        ensures
            r == kind_of_code(code),
    {
        if code == 1 {
            Some(EventKind::ProcessCreate)
        } else if code == 3 {
            Some(EventKind::NetworkConnection)
        } else if code == 7 {
            Some(EventKind::ImageLoaded)
        } else if code == 13 {
            Some(EventKind::RegistryValueSet)
        } else if code == 23 {
            Some(EventKind::FileDeleteArchived)
        } else {
            None
        }
    }

    /// The Sysmon event code of this kind.
    pub fn code(self) -> (r: u32)
        ensures
            r == code_of_kind(self),
            kind_of_code(r) == Some(self),
    {
        match self {
            EventKind::ProcessCreate => 1,
            EventKind::NetworkConnection => 3,
            EventKind::ImageLoaded => 7,
            EventKind::RegistryValueSet => 13,
            EventKind::FileDeleteArchived => 23,
        }
    }
}

/// The plain-text value of an optional string.
pub open spec fn opt_view(o: Option<String>) -> Option<Seq<char>> {
    match o {
        Some(s) => Some(s@),
        None => None,
    }
}

/// The plain-text value of a sequence of strings.
pub open spec fn texts_view(v: Seq<String>) -> Seq<Seq<char>> {
    Seq::new(v.len(), |i: int| v[i]@)
}

/// One output column: its name, the raw keys that feed it, and the value it
/// holds when no key fed it.
#[derive(Clone, Debug, PartialEq, Eq)]
pub struct FieldSpec {
    pub name: String,
    pub aliases: Vec<String>,
    pub default: Option<String>,
}

/// A `FieldSpec` as plain values.
pub struct FieldSpecView {
    pub name: Seq<char>,
    pub aliases: Seq<Seq<char>>,
    pub default: Option<Seq<char>>,
}

impl View for FieldSpec {
    type V = FieldSpecView;

    open spec fn view(&self) -> FieldSpecView {
        FieldSpecView {
            name: self.name@,
            aliases: texts_view(self.aliases@),
            default: opt_view(self.default),
        }
    }
}

/// The plain values of a sequence of field specs.
pub open spec fn fields_view(v: Seq<FieldSpec>) -> Seq<FieldSpecView> {
    Seq::new(v.len(), |i: int| v[i]@)
}

/// A column fed by nothing, absent by default.
pub open spec fn bare_column(name: Seq<char>) -> FieldSpecView {
    FieldSpecView { name, aliases: Seq::empty(), default: None }
}

/// A column fed by one raw key, absent by default.
pub open spec fn column(name: Seq<char>, alias: Seq<char>) -> FieldSpecView {
    FieldSpecView { name, aliases: Seq::empty().push(alias), default: None }
}

/// A column fed by either of two raw keys, absent by default.
pub open spec fn column2(name: Seq<char>, alias: Seq<char>, other: Seq<char>) -> FieldSpecView {
    FieldSpecView { name, aliases: Seq::empty().push(alias).push(other), default: None }
}

/// The three columns that every schema starts with: the agent's name and id,
/// fed by document metadata, and the action label, constant per schema.
pub open spec fn leading_fields(label: Seq<char>) -> Seq<FieldSpecView> {
    Seq::empty().push(bare_column("agent_name"@)).push(bare_column("agent_id"@)).push(
        FieldSpecView { name: "event_action"@, aliases: Seq::empty(), default: Some(label) },
    )
}

/// A schema as plain values.
pub struct SchemaView {
    pub kind: EventKind,
    pub label: Seq<char>,
    pub fields: Seq<FieldSpecView>,
}

/// The position of the first field at or after `from` that has `key` among its
/// aliases.
pub open spec fn first_match(fields: Seq<FieldSpecView>, key: Seq<char>, from: int) -> Option<int>
    decreases fields.len() - from,
{
    if from < 0 || from >= fields.len() {
        None
    } else if fields[from].aliases.contains(key) {
        Some(from)
    } else {
        first_match(fields, key, from + 1)
    }
}

impl SchemaView {
    /// A schema starts with the three leading columns, the third of which
    /// holds the schema's label by default.
    pub open spec fn well_formed(self) -> bool {
        &&& self.fields.len() >= 3
        &&& self.fields.take(3) == leading_fields(self.label)
    }

    /// The column that the raw key `raw_key` feeds: the first one that lists
    /// the trimmed key among its aliases, compared exactly.
    pub open spec fn alias_index(self, raw_key: Seq<char>) -> Option<int> {
        first_match(self.fields, trim(raw_key), 0)
    }

    /// The column names, in schema order.
    pub open spec fn names(self) -> Seq<Seq<char>> {
        Seq::new(self.fields.len(), |i: int| self.fields[i].name)
    }
}

/// The schema of `kind` with the given label and message columns.
pub open spec fn schema_of(kind: EventKind, label: Seq<char>, columns: Seq<FieldSpecView>)
    -> SchemaView {
    SchemaView { kind, label, fields: leading_fields(label) + columns }
}

/// A match found from `from` on stands at `from` or after it, in a field that
/// lists the key.
pub proof fn lemma_first_match_range(fields: Seq<FieldSpecView>, key: Seq<char>, from: int)
    requires
        0 <= from,
    ensures
        first_match(fields, key, from) matches Some(i) ==> from <= i < fields.len()
            && fields[i].aliases.contains(key),
    decreases fields.len() - from,
{
    if from < fields.len() && !fields[from].aliases.contains(key) {
        lemma_first_match_range(fields, key, from + 1);
    }
}

/// In a well-formed schema no raw key feeds one of the three leading
/// columns.
pub proof fn lemma_leading_columns_unfed(schema: SchemaView, raw_key: Seq<char>)
    requires
        schema.well_formed(),
    ensures
        schema.alias_index(raw_key) matches Some(i) ==> 3 <= i < schema.fields.len(),
{
    let key = trim(raw_key);
    let lead = schema.fields.take(3);
    assert(lead[0] == schema.fields[0] && lead[1] == schema.fields[1] && lead[2]
        == schema.fields[2]);
    assert(!schema.fields[0].aliases.contains(key));
    assert(!schema.fields[1].aliases.contains(key));
    assert(!schema.fields[2].aliases.contains(key));
    assert(first_match(schema.fields, key, 0) == first_match(schema.fields, key, 3)) by {
        reveal_with_fuel(first_match, 4);
    }
    lemma_first_match_range(schema.fields, key, 3);
}

/// The ordered output columns of one event kind, and the mapping from raw
/// message keys onto them.
#[derive(Debug)]
pub struct Schema {
    kind: EventKind,
    label: String,
    fields: Vec<FieldSpec>,
}

impl View for Schema {
    type V = SchemaView;

    closed spec fn view(&self) -> SchemaView {
        SchemaView { kind: self.kind, label: self.label@, fields: fields_view(self.fields@) }
    }
}

/// Whether `aliases` holds `key`.
fn lists_key(aliases: &Vec<String>, key: &String) -> (r: bool)
    ensures
        r == texts_view(aliases@).contains(key@),
{
    let mut j: usize = 0;
    while j < aliases.len()
        invariant
            j <= aliases.len(),
            forall|k: int| 0 <= k < j ==> texts_view(aliases@)[k] != key@,
        decreases aliases.len() - j,
    {
        if aliases[j] == *key {
            assert(texts_view(aliases@)[j as int] == key@);
            return true;
        }
        j += 1;
    }
    false
}

impl FieldSpec {
    /// A column named `name`, fed by the raw key `alias`, absent by default.
    pub fn column(name: &str, alias: &str) -> (r: FieldSpec)
        ensures
            r@ == column(name@, alias@),
    {
        let mut aliases: Vec<String> = Vec::new();
        aliases.push(alias.to_owned());
        let r = FieldSpec { name: name.to_owned(), aliases, default: None };
        assert(r@.aliases =~= Seq::empty().push(alias@));
        r
    }

    /// A column named `name`, fed by the raw keys `alias` and `other`, absent
    /// by default.
    pub fn column2(name: &str, alias: &str, other: &str) -> (r: FieldSpec)
        ensures
            r@ == column2(name@, alias@, other@),
    {
        let mut aliases: Vec<String> = Vec::new();
        aliases.push(alias.to_owned());
        aliases.push(other.to_owned());
        let r = FieldSpec { name: name.to_owned(), aliases, default: None };
        assert(r@.aliases =~= Seq::empty().push(alias@).push(other@));
        r
    }

    /// A column named `name` that no raw key feeds, absent by default.
    pub fn bare(name: &str) -> (r: FieldSpec)
        ensures
            r@ == bare_column(name@),
    {
        let r = FieldSpec { name: name.to_owned(), aliases: Vec::new(), default: None };
        assert(r@.aliases =~= Seq::empty());
        r
    }
}

impl Schema {
    #[verifier::type_invariant]
    spec fn inv(self) -> bool {
        self@.well_formed()
    }

    /// A schema of `kind` labelled `label`: the three leading columns followed
    /// by `columns`, in that order.
    pub fn new(kind: EventKind, label: String, columns: Vec<FieldSpec>) -> (r: Schema)
        ensures
            r@ == schema_of(kind, label@, fields_view(columns@)),
            r@.well_formed(),
    {
        let mut columns = columns;
        let ghost given = fields_view(columns@);
        let mut fields: Vec<FieldSpec> = Vec::new();
        fields.push(FieldSpec::bare("agent_name"));
        fields.push(FieldSpec::bare("agent_id"));
        let action = FieldSpec {
            name: "event_action".to_owned(),
            aliases: Vec::new(),
            default: Some(label.clone()),
        };
        assert(action@.aliases =~= Seq::empty());
        fields.push(action);
        assert(fields_view(fields@) =~= leading_fields(label@));
        fields.append(&mut columns);
        assert(fields_view(fields@) =~= leading_fields(label@) + given);
        assert(fields_view(fields@).take(3) =~= leading_fields(label@));
        Schema { kind, label, fields }
    }

    /// The event kind that this schema belongs to.
    pub fn kind(&self) -> (r: EventKind)
        ensures
            r == self@.kind,
    {
        self.kind
    }

    /// The columns, in output order.
    pub fn fields(&self) -> (r: &Vec<FieldSpec>)
        ensures
            fields_view(r@) == self@.fields,
            self@.well_formed(),
    {
        proof {
            use_type_invariant(self);
        }
        &self.fields
    }

    /// The number of columns.
    pub fn width(&self) -> (r: usize)
        ensures
            r == self@.fields.len(),
            self@.well_formed(),
    {
        proof {
            use_type_invariant(self);
        }
        self.fields.len()
    }

    /// The fixed label that every record of this schema carries as its
    /// `event_action`.
    pub fn default_action_label(&self) -> (r: &String)
        ensures
            r@ == self@.label,
            self@.fields[2].default == Some(self@.label),
    {
        proof {
            use_type_invariant(self);
            assert(self@.fields.take(3)[2] == self@.fields[2]);
        }
        &self.label
    }

    /// The position of the column that `raw_key` feeds, if any.
    pub fn alias_index(&self, raw_key: &str) -> (r: Option<usize>)
        ensures
            match r {
                Some(i) => self@.alias_index(raw_key@) == Some(i as int) && i < self@.fields.len(),
                None => self@.alias_index(raw_key@) is None,
            },
    {
        let key = trim_text(raw_key);
        let mut i: usize = 0;
        while i < self.fields.len()
            invariant
                i <= self.fields.len(),
                key@ == trim(raw_key@),
                first_match(self@.fields, key@, 0) == first_match(self@.fields, key@, i as int),
            decreases self.fields.len() - i,
        {
            if lists_key(&self.fields[i].aliases, &key) {
                return Some(i);
            }
            i += 1;
        }
        None
    }

    /// The name of the column that `raw_key` feeds, if any. The key is trimmed
    /// of surrounding whitespace and then compared exactly, case included.
    pub fn alias_for(&self, raw_key: &str) -> (r: Option<&String>)
        ensures
            match r {
                Some(name) => match self@.alias_index(raw_key@) {
                    Some(i) => 0 <= i < self@.fields.len() && name@ == self@.fields[i].name,
                    None => false,
                },
                None => self@.alias_index(raw_key@) is None,
            },
    {
        match self.alias_index(raw_key) {
            Some(i) => Some(&self.fields[i].name),
            None => None,
        }
    }
}

} // verus!
