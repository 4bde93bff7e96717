//! JSON text of tag-keyed records and of the aggregate document.
//!
//! The punctuation is written here; every string, keys included, is quoted
//! and escaped by `serde_json`.

use vstd::prelude::*;
use crate::aggregate::{
    AggregateDocument, AggregateModel, InstanceModel, InstanceRecord, SeriesEntry,
    SeriesEntryModel,
};
use crate::record::{Entry, EntryModel, JsonModel, JsonValue};
use crate::text::{append_decimal, decimal_text};

verus! {

#[verifier::external_type_specification]
#[verifier::external_body]
pub struct ExJsonError(serde_json::Error);

/// The JSON string literal for a text: what `serde_json::to_string` gives for
/// a string slice with these characters.
pub uninterp spec fn json_quoted(text: Seq<char>) -> Seq<char>;

/// Calls `serde_json::to_string` on a string slice. The call returns the
/// JSON string literal for the slice, and it cannot fail: a string slice has
/// no way to refuse to be serialised, and the text is written into memory.
#[verifier::external_body]
fn quote(text: &str) -> (quoted: Result<String, serde_json::Error>)
    ensures
        quoted is Ok,
        quoted matches Ok(literal) ==> literal@ == json_quoted(text@),
{
    serde_json::to_string(text)
}

/// Appends the JSON string literal for `text`.
pub fn append_quoted(out: &mut String, text: &str)
    ensures
        final(out)@ == old(out)@ + json_quoted(text@),
{
    match quote(text) {
        Ok(literal) => {
            out.append(literal.as_str());
        },
        Err(_) => {},
    }
}

/// The JSON string literals of the texts, with commas between them.
pub open spec fn quoted_list_text(items: Seq<Seq<char>>) -> Seq<char>
    decreases items.len(),
{
    if items.len() == 0 {
        Seq::<char>::empty()
    } else if items.len() == 1 {
        json_quoted(items[0])
    } else {
        quoted_list_text(items.drop_last()) + ","@ + json_quoted(items.last())
    }
}

/// The JSON text of a value. A value that a record cannot use is written as
/// `null`.
pub open spec fn value_text(value: JsonModel) -> Seq<char> {
    match value {
        JsonModel::Text(text) => json_quoted(text),
        JsonModel::Number(number) => decimal_text(number as nat),
        JsonModel::List(items) => "["@ + quoted_list_text(items) + "]"@,
        JsonModel::Other => "null"@,
    }
}

/// The JSON text of one member: key, colon, value.
pub open spec fn member_text(entry: EntryModel) -> Seq<char> {
    json_quoted(entry.key) + ":"@ + value_text(entry.value)
}

/// The JSON text of the members, with commas between them.
pub open spec fn members_text(entries: Seq<EntryModel>) -> Seq<char>
    decreases entries.len(),
{
    if entries.len() == 0 {
        Seq::<char>::empty()
    } else if entries.len() == 1 {
        member_text(entries[0])
    } else {
        members_text(entries.drop_last()) + ","@ + member_text(entries.last())
    }
}

/// The JSON object with the given members, in their order.
pub open spec fn record_text(entries: Seq<EntryModel>) -> Seq<char> {
    "{"@ + members_text(entries) + "}"@
}

/// The JSON objects of the instances, with commas between them.
pub open spec fn instances_text(instances: Seq<InstanceModel>) -> Seq<char>
    decreases instances.len(),
{
    if instances.len() == 0 {
        Seq::<char>::empty()
    } else if instances.len() == 1 {
        record_text(instances[0].fields)
    } else {
        instances_text(instances.drop_last()) + ","@ + record_text(instances.last().fields)
    }
}

/// The JSON object of one series: its own members, then the member `sopData`
/// with the array of its instances.
pub open spec fn series_entry_text(entry: SeriesEntryModel) -> Seq<char> {
    "{"@ + members_text(entry.series.fields) + (if entry.series.fields.len() > 0 {
        ","@
    } else {
        Seq::<char>::empty()
    }) + json_quoted("sopData"@) + ":["@ + instances_text(entry.instances) + "]}"@
}

/// The JSON objects of the series, with commas between them.
pub open spec fn series_data_text(series_data: Seq<SeriesEntryModel>) -> Seq<char>
    decreases series_data.len(),
{
    if series_data.len() == 0 {
        Seq::<char>::empty()
    } else if series_data.len() == 1 {
        series_entry_text(series_data[0])
    } else {
        series_data_text(series_data.drop_last()) + ","@ + series_entry_text(series_data.last())
    }
}

/// The JSON text of the aggregate document: the members `seriesData`,
/// `hiscode`, `expires` and `token`, in this order.
pub open spec fn document_text(doc: AggregateModel) -> Seq<char> {
    "{"@ + json_quoted("seriesData"@) + ":["@ + series_data_text(doc.series_data) + "],"@
        + json_quoted("hiscode"@) + ":"@ + json_quoted(doc.hiscode) + ","@ + json_quoted(
        "expires"@,
    ) + ":"@ + json_quoted(doc.expires) + ","@ + json_quoted("token"@) + ":"@ + json_quoted(
        doc.token,
    ) + "}"@
}

/// Appends the JSON string literals of the texts, with commas between them.
fn append_quoted_list(out: &mut String, items: &Vec<String>)
    ensures
        final(out)@ == old(out)@ + quoted_list_text(items.deep_view()),
{
    let ghost model = items.deep_view();
    let mut i: usize = 0;
    assert(model.take(0) =~= Seq::<Seq<char>>::empty());
    assert(out@ =~= old(out)@ + quoted_list_text(model.take(0)));
    while i < items.len()
        invariant
            i <= items.len(),
            model == items.deep_view(),
            out@ == old(out)@ + quoted_list_text(model.take(i as int)),
        decreases items.len() - i,
    {
        let ghost before = out@;
        proof {
            let next = model.take(i + 1);
            assert(next.drop_last() =~= model.take(i as int));
            assert(next.last() == items[i as int]@);
        }
        if i > 0 {
            out.append(",");
        }
        append_quoted(out, items[i].as_str());
        assert(out@ =~= old(out)@ + quoted_list_text(model.take(i + 1)));
        i = i + 1;
    }
    assert(model.take(items.len() as int) =~= model);
}

/// Appends the JSON text of a value.
fn append_value(out: &mut String, value: &JsonValue)
    ensures
        final(out)@ == old(out)@ + value_text(value@),
{
    match value {
        JsonValue::Text(text) => {
            append_quoted(out, text.as_str());
        },
        JsonValue::Number(number) => {
            append_decimal(out, *number);
        },
        JsonValue::List(items) => {
            out.append("[");
            append_quoted_list(out, items);
            out.append("]");
            assert(out@ =~= old(out)@ + value_text(value@));
        },
        JsonValue::Other => {
            out.append("null");
        },
    }
}

/// Appends the members, with commas between them.
pub fn append_members(out: &mut String, entries: &Vec<Entry>)
    ensures
        final(out)@ == old(out)@ + members_text(entries.deep_view()),
{
    let ghost model = entries.deep_view();
    let mut i: usize = 0;
    assert(model.take(0) =~= Seq::<EntryModel>::empty());
    assert(out@ =~= old(out)@ + members_text(model.take(0)));
    while i < entries.len()
        invariant
            i <= entries.len(),
            model == entries.deep_view(),
            out@ == old(out)@ + members_text(model.take(i as int)),
        decreases entries.len() - i,
    {
        proof {
            let next = model.take(i + 1);
            assert(next.drop_last() =~= model.take(i as int));
            assert(next.last() == entries[i as int]@);
        }
        if i > 0 {
            out.append(",");
        }
        append_quoted(out, entries[i].key.as_str());
        out.append(":");
        append_value(out, &entries[i].value);
        assert(out@ =~= old(out)@ + members_text(model.take(i + 1)));
        i = i + 1;
    }
    assert(model.take(entries.len() as int) =~= model);
}

/// The JSON object with the given members, in their order.
pub fn render_record(entries: &Vec<Entry>) -> (text: String)
    ensures
        text@ == record_text(entries.deep_view()),
{
    let mut text = String::from_str("{");
    append_members(&mut text, entries);
    text.append("}");
    text
}

/// Appends the JSON objects of the instances, with commas between them.
fn append_instances(out: &mut String, instances: &Vec<InstanceRecord>)
    ensures
        final(out)@ == old(out)@ + instances_text(instances.deep_view()),
{
    let ghost model = instances.deep_view();
    let mut i: usize = 0;
    assert(model.take(0) =~= Seq::<InstanceModel>::empty());
    assert(out@ =~= old(out)@ + instances_text(model.take(0)));
    while i < instances.len()
        invariant
            i <= instances.len(),
            model == instances.deep_view(),
            out@ == old(out)@ + instances_text(model.take(i as int)),
        decreases instances.len() - i,
    {
        proof {
            let next = model.take(i + 1);
            assert(next.drop_last() =~= model.take(i as int));
            assert(next.last() == instances[i as int]@);
        }
        if i > 0 {
            out.append(",");
        }
        out.append("{");
        append_members(out, &instances[i].fields);
        out.append("}");
        assert(out@ =~= old(out)@ + instances_text(model.take(i + 1)));
        i = i + 1;
    }
    assert(model.take(instances.len() as int) =~= model);
}

/// Appends the JSON object of one series.
fn append_series_entry(out: &mut String, entry: &SeriesEntry)
    ensures
        final(out)@ == old(out)@ + series_entry_text(entry@),
{
    out.append("{");
    append_members(out, &entry.series.fields);
    if entry.series.fields.len() > 0 {
        out.append(",");
    }
    append_quoted(out, "sopData");
    out.append(":[");
    append_instances(out, &entry.instances);
    out.append("]}");
    assert(out@ =~= old(out)@ + series_entry_text(entry@));
}

/// Appends the JSON objects of the series, with commas between them.
fn append_series_data(out: &mut String, series_data: &Vec<SeriesEntry>)
    ensures
        final(out)@ == old(out)@ + series_data_text(series_data.deep_view()),
{
    let ghost model = series_data.deep_view();
    let mut i: usize = 0;
    assert(model.take(0) =~= Seq::<SeriesEntryModel>::empty());
    assert(out@ =~= old(out)@ + series_data_text(model.take(0)));
    while i < series_data.len()
        invariant
            i <= series_data.len(),
            model == series_data.deep_view(),
            out@ == old(out)@ + series_data_text(model.take(i as int)),
        decreases series_data.len() - i,
    {
        proof {
            let next = model.take(i + 1);
            assert(next.drop_last() =~= model.take(i as int));
            assert(next.last() == series_data[i as int]@);
        }
        if i > 0 {
            out.append(",");
        }
        append_series_entry(out, &series_data[i]);
        assert(out@ =~= old(out)@ + series_data_text(model.take(i + 1)));
        i = i + 1;
    }
    assert(model.take(series_data.len() as int) =~= model);
}

/// The JSON text of the aggregate document.
pub fn render_document(doc: &AggregateDocument) -> (text: String)
    ensures
        text@ == document_text(doc@),
{
    let mut text = String::from_str("{");
    append_quoted(&mut text, "seriesData");
    text.append(":[");
    append_series_data(&mut text, &doc.series_data);
    text.append("],");
    append_quoted(&mut text, "hiscode");
    text.append(":");
    append_quoted(&mut text, doc.hiscode.as_str());
    text.append(",");
    append_quoted(&mut text, "expires");
    text.append(":");
    append_quoted(&mut text, doc.expires.as_str());
    text.append(",");
    append_quoted(&mut text, "token");
    text.append(":");
    append_quoted(&mut text, doc.token.as_str());
    text.append("}");
    assert(text@ =~= document_text(doc@));
    text
}

} // verus!
