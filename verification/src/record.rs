//! Tag-keyed records: an ordered list of members, each a key and a value, as
//! they stand in a JSON object.

use vstd::prelude::*;

verus! {

/// What a member of a tag-keyed record holds, as far as a record can use it.
#[derive(Debug)]
pub enum JsonValue {
    /// A JSON string.
    Text(String),
    /// A JSON number that is a non-negative integer below 2^64.
    Number(u64),
    /// A JSON array whose items are all strings.
    List(Vec<String>),
    /// Any other JSON value.
    Other,
}

/// The mathematical value of a [`JsonValue`].
pub enum JsonModel {
    Text(Seq<char>),
    Number(u64),
    List(Seq<Seq<char>>),
    Other,
}

impl View for JsonValue {
    type V = JsonModel;

    open spec fn view(&self) -> JsonModel {
        match self {
            JsonValue::Text(s) => JsonModel::Text(s@),
            JsonValue::Number(n) => JsonModel::Number(*n),
            JsonValue::List(v) => JsonModel::List(v.deep_view()),
            JsonValue::Other => JsonModel::Other,
        }
    }
}

impl DeepView for JsonValue {
    type V = JsonModel;

    open spec fn deep_view(&self) -> JsonModel {
        self@
    }
}

/// One member of a record.
#[derive(Debug)]
pub struct Entry {
    pub key: String,
    pub value: JsonValue,
}

/// The mathematical value of an [`Entry`].
pub struct EntryModel {
    pub key: Seq<char>,
    pub value: JsonModel,
}

impl View for Entry {
    type V = EntryModel;

    open spec fn view(&self) -> EntryModel {
        EntryModel { key: self.key@, value: self.value@ }
    }
}

impl DeepView for Entry {
    type V = EntryModel;

    open spec fn deep_view(&self) -> EntryModel {
        self@
    }
}

/// A copy of a list of texts.
pub fn copy_texts(texts: &Vec<String>) -> (copy: Vec<String>)
    ensures
        copy.deep_view() == texts.deep_view(),
{
    let mut copy: Vec<String> = Vec::new();
    let mut i: usize = 0;
    while i < texts.len()
        invariant
            i <= texts.len(),
            copy.len() == i,
            forall|k: int| 0 <= k < i ==> copy[k]@ == texts[k]@,
        decreases texts.len() - i,
    {
        copy.push(texts[i].clone());
        i = i + 1;
    }
    assert(copy.deep_view() =~= texts.deep_view());
    copy
}

impl JsonValue {
    /// A copy of the value.
    pub fn duplicate(&self) -> (copy: JsonValue)
        ensures
            copy@ == self@,
    {
        match self {
            JsonValue::Text(s) => JsonValue::Text(s.clone()),
            JsonValue::Number(n) => JsonValue::Number(*n),
            JsonValue::List(v) => JsonValue::List(copy_texts(v)),
            JsonValue::Other => JsonValue::Other,
        }
    }
}

impl Entry {
    /// A member with a text value.
    pub fn text(key: String, text: String) -> (entry: Entry)
        ensures
            entry@ == (EntryModel { key: key@, value: JsonModel::Text(text@) }),
    {
        Entry { key, value: JsonValue::Text(text) }
    }

    /// A member with a number as its value.
    pub fn number(key: String, number: u64) -> (entry: Entry)
        ensures
            entry@ == (EntryModel { key: key@, value: JsonModel::Number(number) }),
    {
        Entry { key, value: JsonValue::Number(number) }
    }

    /// A member with a list of texts as its value.
    pub fn list(key: String, items: Vec<String>) -> (entry: Entry)
        ensures
            entry@ == (EntryModel { key: key@, value: JsonModel::List(items.deep_view()) }),
    {
        Entry { key, value: JsonValue::List(items) }
    }

    /// A copy of the member.
    pub fn duplicate(&self) -> (copy: Entry)
        ensures
            copy@ == self@,
    {
        Entry { key: self.key.clone(), value: self.value.duplicate() }
    }
}

/// A copy of a list of members.
pub fn copy_entries(entries: &Vec<Entry>) -> (copy: Vec<Entry>)
    ensures
        copy.deep_view() == entries.deep_view(),
{
    let mut copy: Vec<Entry> = Vec::new();
    let mut i: usize = 0;
    while i < entries.len()
        invariant
            i <= entries.len(),
            copy.len() == i,
            forall|k: int| 0 <= k < i ==> copy[k]@ == entries[k]@,
        decreases entries.len() - i,
    {
        copy.push(entries[i].duplicate());
        i = i + 1;
    }
    assert(copy.deep_view() =~= entries.deep_view());
    copy
}

} // verus!
