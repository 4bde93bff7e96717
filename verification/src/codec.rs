//! Reading a tag-keyed record into the fields of a data class.
//!
//! A data class lists its fields: for each the key under which it is filed
//! and the kind of value it takes. A record is read member by member, from
//! the first to the last. A member whose key is none of the fields' is passed
//! over; of several members with the key of one field the last one counts.

use vstd::prelude::*;
use crate::order::positions;
use crate::record::{copy_texts, Entry, EntryModel, JsonModel, JsonValue};
use crate::tags::{hex_key_spec, json_key, Tag};

verus! {

/// The kind of value that a field takes.
#[derive(Clone, Copy, Debug, PartialEq, Eq, Structural)]
pub enum FieldKind {
    /// A text.
    Text,
    /// A number from 0 to 65535.
    Number,
    /// A list of texts.
    List,
}

/// One field of a data class.
#[derive(Debug)]
pub struct FieldSpec {
    pub key: String,
    pub kind: FieldKind,
}

/// The mathematical value of a [`FieldSpec`].
pub struct FieldModel {
    pub key: Seq<char>,
    pub kind: FieldKind,
}

impl View for FieldSpec {
    type V = FieldModel;

    open spec fn view(&self) -> FieldModel {
        FieldModel { key: self.key@, kind: self.kind }
    }
}

impl DeepView for FieldSpec {
    type V = FieldModel;

    open spec fn deep_view(&self) -> FieldModel {
        self@
    }
}

/// What a data class asks of a record beyond its fields.
#[derive(Clone, Copy, Debug, PartialEq, Eq, Structural)]
pub struct DecodeRules {
    /// A second member with the key of a field is refused.
    pub reject_duplicates: bool,
    /// A member with an unknown key must hold a text.
    pub unknown_must_be_text: bool,
}

/// Why a record was not read.
#[derive(Clone, Copy, Debug, PartialEq, Eq, Structural)]
pub enum DecodeError {
    /// The member at `position` holds a value of the wrong kind.
    Unexpected { position: usize },
    /// The member at `position` has the key of a field that an earlier
    /// member has filled.
    Duplicate { position: usize },
    /// No member has the key of the field at index `field`.
    Missing { field: usize },
}

/// Whether a value is of the kind that a field takes.
pub open spec fn fits(kind: FieldKind, value: JsonModel) -> bool {
    match kind {
        FieldKind::Text => value is Text,
        FieldKind::Number => value matches JsonModel::Number(n) && n <= u16::MAX,
        FieldKind::List => value is List,
    }
}

/// The first of the first `m` fields that has the given key.
pub open spec fn field_index(schema: Seq<FieldModel>, key: Seq<char>, m: int) -> Option<int>
    decreases m,
{
    if m <= 0 {
        None
    } else {
        match field_index(schema, key, m - 1) {
            Some(j) => Some(j),
            None => if schema[m - 1].key == key {
                Some(m - 1)
            } else {
                None
            },
        }
    }
}

/// The last of the first `n` members that has the given key.
pub open spec fn last_entry(entries: Seq<EntryModel>, key: Seq<char>, n: int) -> Option<int>
    decreases n,
{
    if n <= 0 {
        None
    } else if entries[n - 1].key == key {
        Some(n - 1)
    } else {
        last_entry(entries, key, n - 1)
    }
}

/// Why reading stops at the member at position `i`, if it does.
pub open spec fn fault_at(
    schema: Seq<FieldModel>,
    rules: DecodeRules,
    entries: Seq<EntryModel>,
    i: int,
) -> Option<DecodeError> {
    match field_index(schema, entries[i].key, schema.len() as int) {
        Some(j) => if rules.reject_duplicates && last_entry(entries, entries[i].key, i) is Some {
            Some(DecodeError::Duplicate { position: i as usize })
        } else if !fits(schema[j].kind, entries[i].value) {
            Some(DecodeError::Unexpected { position: i as usize })
        } else {
            None
        },
        None => if rules.unknown_must_be_text && !(entries[i].value is Text) {
            Some(DecodeError::Unexpected { position: i as usize })
        } else {
            None
        },
    }
}

/// Why reading stops within the first `n` members, if it does: the fault of
/// the first member that has one.
pub open spec fn first_fault(
    schema: Seq<FieldModel>,
    rules: DecodeRules,
    entries: Seq<EntryModel>,
    n: int,
) -> Option<DecodeError>
    decreases n,
{
    if n <= 0 {
        None
    } else {
        match first_fault(schema, rules, entries, n - 1) {
            Some(fault) => Some(fault),
            None => fault_at(schema, rules, entries, n - 1),
        }
    }
}

/// The first of the first `m` fields for which the record has no member.
pub open spec fn first_missing(schema: Seq<FieldModel>, entries: Seq<EntryModel>, m: int) -> Option<
    int,
>
    decreases m,
{
    if m <= 0 {
        None
    } else {
        match first_missing(schema, entries, m - 1) {
            Some(j) => Some(j),
            None => if last_entry(entries, schema[m - 1].key, entries.len() as int) is None {
                Some(m - 1)
            } else {
                None
            },
        }
    }
}

/// The values of the fields as the record gives them, where it gives them
/// all: for each field the value of the last member with its key.
pub open spec fn field_values(schema: Seq<FieldModel>, entries: Seq<EntryModel>) -> Seq<JsonModel> {
    Seq::new(
        schema.len(),
        |j: int| entries[last_entry(entries, schema[j].key, entries.len() as int).unwrap()].value,
    )
}

/// What reading a record gives: the fault of the first member that has one;
/// else the first field that no member fills; else the values of the fields.
pub open spec fn decode_spec(
    schema: Seq<FieldModel>,
    rules: DecodeRules,
    entries: Seq<EntryModel>,
) -> Result<Seq<JsonModel>, DecodeError> {
    match first_fault(schema, rules, entries, entries.len() as int) {
        Some(fault) => Err(fault),
        None => match first_missing(schema, entries, schema.len() as int) {
            Some(j) => Err(DecodeError::Missing { field: j as usize }),
            None => Ok(field_values(schema, entries)),
        },
    }
}

/// The record that files each value under the key of its field.
pub open spec fn encode_spec(schema: Seq<FieldModel>, values: Seq<JsonModel>) -> Seq<EntryModel> {
    Seq::new(schema.len(), |j: int| EntryModel { key: schema[j].key, value: values[j] })
}

/// Whether no two fields have the same key.
pub open spec fn distinct_keys(schema: Seq<FieldModel>) -> bool {
    forall|a: int, b: int|
        0 <= a < b < schema.len() ==> (#[trigger] schema[a]).key != (#[trigger] schema[b]).key
}

/// Whether the values are as many as the fields and each of the kind of its
/// field.
pub open spec fn values_fit(schema: Seq<FieldModel>, values: Seq<JsonModel>) -> bool {
    &&& values.len() == schema.len()
    &&& forall|j: int| 0 <= j < schema.len() ==> fits(schema[j].kind, #[trigger] values[j])
}

/// A field index that is found is the first field with the key; where none
/// is found, no field has the key.
pub proof fn lemma_field_index(schema: Seq<FieldModel>, key: Seq<char>, m: int)
    requires
        0 <= m <= schema.len(),
    ensures
        match field_index(schema, key, m) {
            Some(j) => 0 <= j < m && schema[j].key == key && forall|h: int|
                0 <= h < j ==> (#[trigger] schema[h]).key != key,
            None => forall|h: int| 0 <= h < m ==> (#[trigger] schema[h]).key != key,
        },
    decreases m,
{
    if m > 0 {
        lemma_field_index(schema, key, m - 1);
    }
}

/// A last member that is found is the last member with the key; where none is
/// found, no member has the key.
pub proof fn lemma_last_entry(entries: Seq<EntryModel>, key: Seq<char>, n: int)
    requires
        0 <= n <= entries.len(),
    ensures
        match last_entry(entries, key, n) {
            Some(i) => 0 <= i < n && entries[i].key == key && forall|h: int|
                i < h < n ==> (#[trigger] entries[h]).key != key,
            None => forall|h: int| 0 <= h < n ==> (#[trigger] entries[h]).key != key,
        },
    decreases n,
{
    if n > 0 {
        lemma_last_entry(entries, key, n - 1);
    }
}

/// The record that files each value under the key of its field, the fields
/// taken in the given order.
pub open spec fn encode_in_order(
    schema: Seq<FieldModel>,
    values: Seq<JsonModel>,
    order: Seq<int>,
) -> Seq<EntryModel> {
    Seq::new(
        order.len(),
        |i: int| EntryModel { key: schema[order[i]].key, value: values[order[i]] },
    )
}

/// Whether `order` lists each of the `m` indices once.
pub open spec fn lists_each_once(order: Seq<int>, m: int) -> bool {
    &&& forall|i: int| 0 <= i < order.len() ==> 0 <= #[trigger] order[i] < m
    &&& forall|a: int, b: int| 0 <= a < b < order.len() ==> order[a] != order[b]
    &&& forall|j: int| 0 <= j < m ==> order.contains(j)
}

/// Reading the record written from values that fit gives the values back, in
/// whatever order the fields were written.
pub proof fn lemma_decode_encode_in_order(
    schema: Seq<FieldModel>,
    rules: DecodeRules,
    values: Seq<JsonModel>,
    order: Seq<int>,
)
    requires
        distinct_keys(schema),
        values_fit(schema, values),
        lists_each_once(order, schema.len() as int),
    ensures
        decode_spec(schema, rules, encode_in_order(schema, values, order)) == Ok::<
            Seq<JsonModel>,
            DecodeError,
        >(values),
{
    let entries = encode_in_order(schema, values, order);
    let m = schema.len() as int;
    let n = entries.len() as int;
    assert forall|i: int| 0 <= i < n implies fault_at(schema, rules, entries, i) is None by {
        lemma_field_index(schema, entries[i].key, m);
        lemma_last_entry(entries, entries[i].key, i);
        let j = field_index(schema, entries[i].key, m).unwrap();
        assert(schema[order[i]].key == entries[i].key);
        assert(j == order[i]);
        match last_entry(entries, entries[i].key, i) {
            Some(h) => {
                assert(entries[h].key == schema[order[h]].key);
                assert(order[h] != order[i]);
                if order[h] < order[i] {
                    assert(schema[order[h]].key != schema[order[i]].key);
                } else {
                    assert(schema[order[i]].key != schema[order[h]].key);
                }
            },
            None => {},
        }
    }
    lemma_no_fault(schema, rules, entries, n);
    assert forall|j: int| 0 <= j < m implies {
        &&& last_entry(entries, (#[trigger] schema[j]).key, n) is Some
        &&& entries[last_entry(entries, schema[j].key, n).unwrap()].value == values[j]
    } by {
        lemma_last_entry(entries, schema[j].key, n);
        assert(order.contains(j));
        let at = choose|at: int| 0 <= at < order.len() && order[at] == j;
        assert(entries[at].key == schema[j].key);
        match last_entry(entries, schema[j].key, n) {
            Some(i) => {
                assert(entries[i].key == schema[order[i]].key);
                if order[i] < j {
                    assert(schema[order[i]].key != schema[j].key);
                } else if j < order[i] {
                    assert(schema[j].key != schema[order[i]].key);
                }
            },
            None => {},
        }
    }
    lemma_none_missing(schema, entries, m);
    assert(field_values(schema, entries) =~= values);
}

/// Reading the record written from values that fit gives the values back.
pub proof fn lemma_decode_encode(
    schema: Seq<FieldModel>,
    rules: DecodeRules,
    values: Seq<JsonModel>,
)
    requires
        distinct_keys(schema),
        values_fit(schema, values),
    ensures
        decode_spec(schema, rules, encode_spec(schema, values)) == Ok::<
            Seq<JsonModel>,
            DecodeError,
        >(values),
{
    let order = Seq::new(schema.len(), |j: int| j);
    assert(lists_each_once(order, schema.len() as int)) by {
        assert forall|j: int| 0 <= j < schema.len() implies order.contains(j) by {
            assert(order[j] == j);
        }
    }
    lemma_decode_encode_in_order(schema, rules, values, order);
    assert(encode_in_order(schema, values, order) =~= encode_spec(schema, values));
}

/// Where none of the first `n` members has a fault, reading does not stop
/// within them.
pub proof fn lemma_no_fault(
    schema: Seq<FieldModel>,
    rules: DecodeRules,
    entries: Seq<EntryModel>,
    n: int,
)
    requires
        forall|i: int| 0 <= i < n ==> fault_at(schema, rules, entries, i) is None,
    ensures
        first_fault(schema, rules, entries, n) is None,
    decreases n,
{
    if n > 0 {
        lemma_no_fault(schema, rules, entries, n - 1);
    }
}

/// Where the record has a member for each of the first `m` fields, none of
/// them is missing.
pub proof fn lemma_none_missing(schema: Seq<FieldModel>, entries: Seq<EntryModel>, m: int)
    requires
        forall|j: int|
            0 <= j < m ==> last_entry(entries, (#[trigger] schema[j]).key, entries.len() as int)
                is Some,
    ensures
        first_missing(schema, entries, m) is None,
    decreases m,
{
    if m > 0 {
        lemma_none_missing(schema, entries, m - 1);
        assert(last_entry(entries, schema[m - 1].key, entries.len() as int) is Some);
    }
}

/// Where reading does not stop within the first `n` members, none of them
/// has a fault.
pub proof fn lemma_no_fault_each(
    schema: Seq<FieldModel>,
    rules: DecodeRules,
    entries: Seq<EntryModel>,
    n: int,
)
    requires
        first_fault(schema, rules, entries, n) is None,
    ensures
        forall|i: int| 0 <= i < n ==> fault_at(schema, rules, entries, i) is None,
    decreases n,
{
    if n > 0 {
        lemma_no_fault_each(schema, rules, entries, n - 1);
    }
}

/// Where none of the first `m` fields is missing, the record has a member for
/// each of them.
pub proof fn lemma_none_missing_each(schema: Seq<FieldModel>, entries: Seq<EntryModel>, m: int)
    requires
        first_missing(schema, entries, m) is None,
    ensures
        forall|j: int|
            0 <= j < m ==> last_entry(entries, (#[trigger] schema[j]).key, entries.len() as int)
                is Some,
    decreases m,
{
    if m > 0 {
        lemma_none_missing_each(schema, entries, m - 1);
    }
}

/// The values read from a record are as many as the fields, and where no two
/// fields have the same key, each is of the kind of its field.
pub proof fn lemma_decoded_values_fit(
    schema: Seq<FieldModel>,
    rules: DecodeRules,
    entries: Seq<EntryModel>,
)
    requires
        distinct_keys(schema),
        decode_spec(schema, rules, entries) is Ok,
    ensures
        values_fit(schema, decode_spec(schema, rules, entries).unwrap()),
{
    let values = decode_spec(schema, rules, entries).unwrap();
    let m = schema.len() as int;
    let n = entries.len() as int;
    lemma_no_fault_each(schema, rules, entries, n);
    lemma_none_missing_each(schema, entries, m);
    assert forall|j: int| 0 <= j < m implies fits(schema[j].kind, #[trigger] values[j]) by {
        lemma_last_entry(entries, schema[j].key, n);
        let i = last_entry(entries, schema[j].key, n).unwrap();
        assert(fault_at(schema, rules, entries, i) is None);
        lemma_field_index(schema, entries[i].key, m);
        let k = field_index(schema, entries[i].key, m).unwrap();
        if k < j {
            assert(schema[k].key != schema[j].key);
        }
    }
}

/// Whether a value is of the kind that a field takes.
pub fn value_fits(kind: FieldKind, value: &JsonValue) -> (fitting: bool)
    ensures
        fitting == fits(kind, value@),
{
    match kind {
        FieldKind::Text => match value {
            JsonValue::Text(_) => true,
            _ => false,
        },
        FieldKind::Number => match value {
            JsonValue::Number(n) => *n <= 0xFFFF,
            _ => false,
        },
        FieldKind::List => match value {
            JsonValue::List(_) => true,
            _ => false,
        },
    }
}

/// The first field with the given key.
pub fn find_field(schema: &Vec<FieldSpec>, key: &String) -> (found: Option<usize>)
    ensures
        match found {
            Some(j) => field_index(schema.deep_view(), key@, schema.len() as int) == Some(
                j as int,
            ) && j < schema.len(),
            None => field_index(schema.deep_view(), key@, schema.len() as int) is None,
        },
{
    let ghost model = schema.deep_view();
    let mut j: usize = 0;
    while j < schema.len()
        invariant
            j <= schema.len(),
            model == schema.deep_view(),
            field_index(model, key@, j as int) is None,
        decreases schema.len() - j,
    {
        if schema[j].key == *key {
            proof {
                assert(model[j as int].key == key@);
                lemma_field_index_found(model, key@, j as int, schema.len() as int);
            }
            return Some(j);
        }
        assert(model[j as int].key != key@);
        j = j + 1;
    }
    None
}

/// A field index found among the first fields stays what it is when more
/// fields are looked at.
pub proof fn lemma_field_index_found(schema: Seq<FieldModel>, key: Seq<char>, j: int, m: int)
    requires
        0 <= j < m <= schema.len(),
        field_index(schema, key, j) is None,
        schema[j].key == key,
    ensures
        field_index(schema, key, m) == Some(j),
    decreases m,
{
    if m > j + 1 {
        lemma_field_index_found(schema, key, j, m - 1);
    }
}

/// A fault found stays the first fault when more members are looked at.
pub proof fn lemma_first_fault_found(
    schema: Seq<FieldModel>,
    rules: DecodeRules,
    entries: Seq<EntryModel>,
    i: int,
    n: int,
)
    requires
        0 <= i < n,
        first_fault(schema, rules, entries, i) is None,
        fault_at(schema, rules, entries, i) is Some,
    ensures
        first_fault(schema, rules, entries, n) == fault_at(schema, rules, entries, i),
    decreases n,
{
    if n > i + 1 {
        lemma_first_fault_found(schema, rules, entries, i, n - 1);
    }
}

/// A missing field found stays the first missing field when more fields are
/// looked at.
pub proof fn lemma_first_missing_found(
    schema: Seq<FieldModel>,
    entries: Seq<EntryModel>,
    j: int,
    m: int,
)
    requires
        0 <= j < m,
        first_missing(schema, entries, j) is None,
        last_entry(entries, schema[j].key, entries.len() as int) is None,
    ensures
        first_missing(schema, entries, m) == Some(j),
    decreases m,
{
    if m > j + 1 {
        lemma_first_missing_found(schema, entries, j, m - 1);
    }
}

/// Reads a record into the values of the fields of a data class.
pub fn decode(schema: &Vec<FieldSpec>, rules: DecodeRules, entries: &Vec<Entry>) -> (result: Result<
    Vec<JsonValue>,
    DecodeError,
>)
    ensures
        match result {
            Ok(values) => decode_spec(schema.deep_view(), rules, entries.deep_view()) == Ok::<
                Seq<JsonModel>,
                DecodeError,
            >(values.deep_view()),
            Err(fault) => decode_spec(schema.deep_view(), rules, entries.deep_view()) == Err::<
                Seq<JsonModel>,
                DecodeError,
            >(fault),
        },
        distinct_keys(schema.deep_view()) && result is Ok ==> values_fit(
            schema.deep_view(),
            result.unwrap().deep_view(),
        ),
{
    let ghost fields = schema.deep_view();
    let ghost members = entries.deep_view();
    let ghost m = schema.len() as int;
    let ghost n = entries.len() as int;
    let mut slots: Vec<Option<usize>> = Vec::new();
    let mut j: usize = 0;
    while j < schema.len()
        invariant
            j <= schema.len(),
            slots.len() == j,
            forall|k: int| 0 <= k < j ==> slots[k] is None,
        decreases schema.len() - j,
    {
        slots.push(None);
        j = j + 1;
    }
    let mut i: usize = 0;
    while i < entries.len()
        invariant
            i <= entries.len(),
            fields == schema.deep_view(),
            members == entries.deep_view(),
            m == schema.len(),
            n == entries.len(),
            slots.len() == schema.len(),
            first_fault(fields, rules, members, i as int) is None,
            forall|k: int|
                0 <= k < slots.len() ==> match #[trigger] slots[k] {
                    Some(at) => field_index(fields, fields[k].key, m) == Some(k) && last_entry(
                        members,
                        fields[k].key,
                        i as int,
                    ) == Some(at as int),
                    None => field_index(fields, fields[k].key, m) == Some(k) ==> last_entry(
                        members,
                        fields[k].key,
                        i as int,
                    ) is None,
                },
        decreases entries.len() - i,
    {
        let entry = &entries[i];
        assert(members[i as int] == entry@);
        match find_field(schema, &entry.key) {
            Some(k) => {
                proof {
                    lemma_field_index(fields, entry.key@, m);
                    assert(fields[k as int].key == entry.key@);
                }
                if rules.reject_duplicates && slots[k].is_some() {
                    proof {
                        lemma_first_fault_found(fields, rules, members, i as int, n);
                    }
                    return Err(DecodeError::Duplicate { position: i });
                }
                if !value_fits(schema[k].kind, &entry.value) {
                    proof {
                        assert(slots[k as int] is None ==> last_entry(
                            members,
                            entry.key@,
                            i as int,
                        ) is None);
                        lemma_first_fault_found(fields, rules, members, i as int, n);
                    }
                    return Err(DecodeError::Unexpected { position: i });
                }
                let ghost before = slots@;
                slots.set(k, Some(i));
                proof {
                    assert(before[k as int] is None ==> last_entry(members, entry.key@, i as int)
                        is None);
                    assert(fault_at(fields, rules, members, i as int) is None);
                    assert forall|h: int| 0 <= h < slots.len() implies match #[trigger] slots[h] {
                        Some(at) => field_index(fields, fields[h].key, m) == Some(h)
                            && last_entry(members, fields[h].key, i + 1) == Some(at as int),
                        None => field_index(fields, fields[h].key, m) == Some(h) ==> last_entry(
                            members,
                            fields[h].key,
                            i + 1,
                        ) is None,
                    } by {
                        if h != k {
                            assert(slots[h] == before[h]);
                        }
                    }
                }
            },
            None => {
                if rules.unknown_must_be_text {
                    match &entry.value {
                        JsonValue::Text(_) => {},
                        _ => {
                            proof {
                                lemma_first_fault_found(fields, rules, members, i as int, n);
                            }
                            return Err(DecodeError::Unexpected { position: i });
                        },
                    }
                }
                proof {
                    lemma_field_index(fields, entry.key@, m);
                    assert(fault_at(fields, rules, members, i as int) is None);
                    assert forall|h: int| 0 <= h < slots.len() implies match #[trigger] slots[h] {
                        Some(at) => field_index(fields, fields[h].key, m) == Some(h)
                            && last_entry(members, fields[h].key, i + 1) == Some(at as int),
                        None => field_index(fields, fields[h].key, m) == Some(h) ==> last_entry(
                            members,
                            fields[h].key,
                            i + 1,
                        ) is None,
                    } by {
                        assert(fields[h].key != entry.key@);
                    }
                }
            },
        }
        i = i + 1;
    }
    let mut values: Vec<JsonValue> = Vec::new();
    let mut j: usize = 0;
    while j < schema.len()
        invariant
            j <= schema.len(),
            fields == schema.deep_view(),
            members == entries.deep_view(),
            m == schema.len(),
            n == entries.len(),
            slots.len() == schema.len(),
            first_fault(fields, rules, members, n) is None,
            forall|k: int|
                0 <= k < slots.len() ==> match #[trigger] slots[k] {
                    Some(at) => field_index(fields, fields[k].key, m) == Some(k) && last_entry(
                        members,
                        fields[k].key,
                        n,
                    ) == Some(at as int),
                    None => field_index(fields, fields[k].key, m) == Some(k) ==> last_entry(
                        members,
                        fields[k].key,
                        n,
                    ) is None,
                },
            first_missing(fields, members, j as int) is None,
            values.len() == j,
            forall|k: int| 0 <= k < j ==> values[k]@ == field_values(fields, members)[k],
        decreases schema.len() - j,
    {
        let first = match find_field(schema, &schema[j].key) {
            Some(k) => k,
            None => {
                proof {
                    lemma_field_index(fields, fields[j as int].key, m);
                }
                j
            },
        };
        proof {
            lemma_field_index(fields, fields[j as int].key, m);
            assert(fields[first as int].key == fields[j as int].key);
            assert(field_index(fields, fields[first as int].key, m) == Some(first as int));
        }
        match slots[first] {
            Some(at) => {
                proof {
                    lemma_last_entry(members, fields[j as int].key, n);
                }
                values.push(entries[at].value.duplicate());
            },
            None => {
                proof {
                    lemma_first_missing_found(fields, members, j as int, m);
                }
                return Err(DecodeError::Missing { field: j });
            },
        }
        j = j + 1;
    }
    assert(values.deep_view() =~= field_values(fields, members));
    proof {
        if distinct_keys(fields) {
            lemma_decoded_values_fit(fields, rules, members);
        }
    }
    Ok(values)
}

/// Values that fit are each of the kind of its field.
pub proof fn lemma_fitting_values(schema: Seq<FieldModel>, values: Vec<JsonValue>)
    requires
        values_fit(schema, values.deep_view()),
    ensures
        values.len() == schema.len(),
        forall|j: int| 0 <= j < values.len() ==> fits(schema[j].kind, (#[trigger] values[j])@),
{
    assert forall|j: int| 0 <= j < values.len() implies fits(
        schema[j].kind,
        (#[trigger] values[j])@,
    ) by {
        assert(values.deep_view()[j] == values[j]@);
    }
}

/// A text of the values read, by the index of its field.
pub fn text_at(values: &Vec<JsonValue>, j: usize) -> (text: String)
    requires
        j < values.len(),
        values[j as int]@ is Text,
    ensures
        JsonModel::Text(text@) == values[j as int]@,
{
    match &values[j] {
        JsonValue::Text(text) => text.clone(),
        _ => String::new(),
    }
}

/// A number of the values read, by the index of its field.
pub fn number_at(values: &Vec<JsonValue>, j: usize) -> (number: u16)
    requires
        j < values.len(),
        fits(FieldKind::Number, values[j as int]@),
    ensures
        JsonModel::Number(number as u64) == values[j as int]@,
{
    match &values[j] {
        JsonValue::Number(number) => *number as u16,
        _ => 0,
    }
}

/// A list of the values read, by the index of its field.
pub fn list_at(values: &Vec<JsonValue>, j: usize) -> (items: Vec<String>)
    requires
        j < values.len(),
        values[j as int]@ is List,
    ensures
        JsonModel::List(items.deep_view()) == values[j as int]@,
{
    match &values[j] {
        JsonValue::List(items) => copy_texts(items),
        _ => Vec::new(),
    }
}

/// A field that takes a text.
pub fn text_field(key: &str) -> (field: FieldSpec)
    ensures
        field@ == (FieldModel { key: key@, kind: FieldKind::Text }),
{
    FieldSpec { key: String::from_str(key), kind: FieldKind::Text }
}

/// A field that takes a number.
pub fn number_field(key: &str) -> (field: FieldSpec)
    ensures
        field@ == (FieldModel { key: key@, kind: FieldKind::Number }),
{
    FieldSpec { key: String::from_str(key), kind: FieldKind::Number }
}

/// A field that takes a list of texts.
pub fn list_field(key: &str) -> (field: FieldSpec)
    ensures
        field@ == (FieldModel { key: key@, kind: FieldKind::List }),
{
    FieldSpec { key: String::from_str(key), kind: FieldKind::List }
}

/// The fields of a data class whose fields all take a text, each filed under
/// the key of its tag.
pub open spec fn text_schema_spec(tags: Seq<Tag>) -> Seq<FieldModel> {
    Seq::new(tags.len(), |j: int| FieldModel { key: hex_key_spec(tags[j]), kind: FieldKind::Text })
}

/// The fields of a data class whose fields all take a text, each filed under
/// the key of its tag.
pub fn text_schema(tags: &Vec<Tag>) -> (schema: Vec<FieldSpec>)
    ensures
        schema.deep_view() == text_schema_spec(tags@),
{
    let mut schema: Vec<FieldSpec> = Vec::new();
    let mut j: usize = 0;
    while j < tags.len()
        invariant
            j <= tags.len(),
            schema.len() == j,
            forall|k: int| 0 <= k < j ==> (#[trigger] schema[k])@ == text_schema_spec(tags@)[k],
        decreases tags.len() - j,
    {
        schema.push(text_field(json_key(tags[j]).as_str()));
        j = j + 1;
    }
    assert(schema.deep_view() =~= text_schema_spec(tags@));
    schema
}

/// Writes the record that files each value under the key of its field, the
/// fields taken in the given order.
pub fn encode(schema: &Vec<FieldSpec>, values: &Vec<JsonValue>, order: &Vec<usize>) -> (entries:
    Vec<Entry>)
    requires
        values.len() == schema.len(),
        forall|i: int| 0 <= i < order.len() ==> order[i] < schema.len(),
    ensures
        entries.deep_view() == encode_in_order(
            schema.deep_view(),
            values.deep_view(),
            positions(order@),
        ),
{
    let ghost wanted = encode_in_order(schema.deep_view(), values.deep_view(), positions(order@));
    let mut entries: Vec<Entry> = Vec::new();
    let mut i: usize = 0;
    while i < order.len()
        invariant
            i <= order.len(),
            values.len() == schema.len(),
            forall|k: int| 0 <= k < order.len() ==> order[k] < schema.len(),
            wanted == encode_in_order(schema.deep_view(), values.deep_view(), positions(order@)),
            entries.len() == i,
            forall|k: int| 0 <= k < i ==> (#[trigger] entries[k])@ == wanted[k],
        decreases order.len() - i,
    {
        let j = order[i];
        entries.push(Entry { key: schema[j].key.clone(), value: values[j].duplicate() });
        i = i + 1;
    }
    assert(entries.deep_view() =~= wanted);
    entries
}

} // verus!
