//! Scanning one file for the aggregate document: its series record and its
//! instance record.

use vstd::prelude::*;
use dicom_object::DefaultDicomObject;
use crate::aggregate::{InstanceModel, InstanceRecord, SeriesModel, SeriesRecord};
use crate::codec::{
    decode, decode_spec, distinct_keys, encode_spec, fits, lemma_decode_encode,
    lemma_fitting_values, text_at, values_fit, DecodeError, DecodeRules, FieldKind, FieldModel,
    FieldSpec,
};
use crate::dcmobj::{get_string, object_field, parsed_until, read_object_until};
use crate::error::FileError;
use crate::record::{copy_entries, Entry, EntryModel, JsonModel, JsonValue};
use crate::tags::{
    hex_key_spec, lemma_hex_key_injective, tag_to_string, Tag, ACCESSION_NUMBER,
    BODY_PART_EXAMINED, COLUMNS, IMAGE_ORIENTATION_PATIENT, IMAGE_POSITION_PATIENT, IMAGE_TYPE,
    INSTANCE_NUMBER, INSTITUTION_ADDRESS, INSTITUTION_NAME, MANUFACTURER, MODALITY, PATIENT_AGE,
    PATIENT_BIRTH_DATE, PATIENT_ID, PATIENT_NAME, PATIENT_POSITION, PATIENT_SEX, PIXEL_DATA,
    PIXEL_REPRESENTATION, PIXEL_SPACING, ROWS, SERIES_DESCRIPTION, SERIES_INSTANCE_UID,
    SERIES_NUMBER, SLICE_THICKNESS, SOP_INSTANCE_UID, STUDY_DATE, STUDY_TIME,
};
use crate::text::{number_or_zero, sort_number, split_multi, split_spec, VALUE_DELIMITER};

verus! {

/// One attribute that a scan reads: its tag, and whether its text is a list
/// of values.
#[derive(Clone, Copy, Debug, PartialEq, Eq, Structural)]
pub struct Attribute {
    pub tag: Tag,
    pub kind: FieldKind,
}

/// The attributes of a series record, in the order in which the document
/// writes them.
pub open spec fn series_attributes() -> Seq<Attribute> {
    seq![
        Attribute { tag: PATIENT_SEX, kind: FieldKind::Text },
        Attribute { tag: PATIENT_AGE, kind: FieldKind::Text },
        Attribute { tag: SERIES_INSTANCE_UID, kind: FieldKind::Text },
        Attribute { tag: PATIENT_NAME, kind: FieldKind::Text },
        Attribute { tag: PATIENT_ID, kind: FieldKind::Text },
        Attribute { tag: PATIENT_BIRTH_DATE, kind: FieldKind::Text },
        Attribute { tag: BODY_PART_EXAMINED, kind: FieldKind::Text },
        Attribute { tag: SERIES_NUMBER, kind: FieldKind::Text },
        Attribute { tag: STUDY_DATE, kind: FieldKind::Text },
        Attribute { tag: STUDY_TIME, kind: FieldKind::Text },
        Attribute { tag: ACCESSION_NUMBER, kind: FieldKind::Text },
        Attribute { tag: MODALITY, kind: FieldKind::Text },
        Attribute { tag: MANUFACTURER, kind: FieldKind::Text },
        Attribute { tag: INSTITUTION_ADDRESS, kind: FieldKind::Text },
        Attribute { tag: INSTITUTION_NAME, kind: FieldKind::Text },
    ]
}

/// The attributes of an instance record, in the order in which the document
/// writes them. The pixel spacing, the image type, the image position and the
/// image orientation are lists.
pub open spec fn instance_attributes() -> Seq<Attribute> {
    seq![
        Attribute { tag: SERIES_DESCRIPTION, kind: FieldKind::Text },
        Attribute { tag: PIXEL_SPACING, kind: FieldKind::List },
        Attribute { tag: ROWS, kind: FieldKind::Text },
        Attribute { tag: COLUMNS, kind: FieldKind::Text },
        Attribute { tag: BODY_PART_EXAMINED, kind: FieldKind::Text },
        Attribute { tag: IMAGE_TYPE, kind: FieldKind::List },
        Attribute { tag: PIXEL_REPRESENTATION, kind: FieldKind::Text },
        Attribute { tag: PATIENT_POSITION, kind: FieldKind::Text },
        Attribute { tag: IMAGE_POSITION_PATIENT, kind: FieldKind::List },
        Attribute { tag: SLICE_THICKNESS, kind: FieldKind::Text },
        Attribute { tag: INSTANCE_NUMBER, kind: FieldKind::Text },
        Attribute { tag: IMAGE_ORIENTATION_PATIENT, kind: FieldKind::List },
        Attribute { tag: SOP_INSTANCE_UID, kind: FieldKind::Text },
    ]
}

/// The index of the series UID among the attributes of a series record.
pub const SERIES_UID_AT: usize = 2;

/// The index of the series number among the attributes of a series record.
pub const SERIES_NUMBER_AT: usize = 7;

/// The index of the SOP instance UID among the attributes of an instance
/// record.
pub const SOP_UID_AT: usize = 12;

/// The index of the instance number among the attributes of an instance
/// record.
pub const INSTANCE_NUMBER_AT: usize = 10;

/// The fields of a record with the given attributes: each is filed under the
/// eight digits of its tag.
pub open spec fn schema_of(attributes: Seq<Attribute>) -> Seq<FieldModel> {
    Seq::new(
        attributes.len(),
        |j: int| FieldModel { key: hex_key_spec(attributes[j].tag), kind: attributes[j].kind },
    )
}

/// What an object gives for an attribute: its text, or the values of its
/// text where the attribute is a list.
pub open spec fn scanned_value(obj: DefaultDicomObject, attribute: Attribute) -> JsonModel {
    if attribute.kind == FieldKind::List {
        JsonModel::List(split_spec(object_field(obj, attribute.tag), VALUE_DELIMITER))
    } else {
        JsonModel::Text(object_field(obj, attribute.tag))
    }
}

/// The members that an object gives for the given attributes.
pub open spec fn scanned_fields(obj: DefaultDicomObject, attributes: Seq<Attribute>) -> Seq<
    EntryModel,
> {
    Seq::new(
        attributes.len(),
        |j: int|
            EntryModel {
                key: hex_key_spec(attributes[j].tag),
                value: scanned_value(obj, attributes[j]),
            },
    )
}

/// The series record that an object gives.
pub open spec fn scanned_series(obj: DefaultDicomObject) -> SeriesModel {
    SeriesModel {
        series_uid: object_field(obj, SERIES_INSTANCE_UID),
        series_number: sort_number(object_field(obj, SERIES_NUMBER)) as u32,
        fields: scanned_fields(obj, series_attributes()),
    }
}

/// The instance record that an object gives.
pub open spec fn scanned_instance(obj: DefaultDicomObject) -> InstanceModel {
    InstanceModel {
        series_uid: object_field(obj, SERIES_INSTANCE_UID),
        sop_uid: object_field(obj, SOP_INSTANCE_UID),
        instance_number: sort_number(object_field(obj, INSTANCE_NUMBER)) as u32,
        fields: scanned_fields(obj, instance_attributes()),
    }
}

/// The text of a value that is a text; the empty text for any other value.
pub open spec fn text_of(value: JsonModel) -> Seq<char> {
    match value {
        JsonModel::Text(text) => text,
        _ => Seq::<char>::empty(),
    }
}

/// The series record with the given values of its attributes.
pub open spec fn series_from_values(values: Seq<JsonModel>) -> SeriesModel {
    SeriesModel {
        series_uid: text_of(values[SERIES_UID_AT as int]),
        series_number: sort_number(text_of(values[SERIES_NUMBER_AT as int])) as u32,
        fields: Seq::new(
            series_attributes().len(),
            |j: int| EntryModel { key: hex_key_spec(series_attributes()[j].tag), value: values[j] },
        ),
    }
}

/// The instance record of series `series_uid` with the given values of its
/// attributes.
pub open spec fn instance_from_values(series_uid: Seq<char>, values: Seq<JsonModel>) -> InstanceModel {
    InstanceModel {
        series_uid,
        sop_uid: text_of(values[SOP_UID_AT as int]),
        instance_number: sort_number(text_of(values[INSTANCE_NUMBER_AT as int])) as u32,
        fields: Seq::new(
            instance_attributes().len(),
            |j: int|
                EntryModel { key: hex_key_spec(instance_attributes()[j].tag), value: values[j] },
        ),
    }
}

/// The values of the members of a record, in their order.
pub open spec fn values_of(fields: Seq<EntryModel>) -> Seq<JsonModel> {
    Seq::new(fields.len(), |j: int| fields[j].value)
}

/// Whether the members are those of a record with the given attributes: one
/// for each attribute, in their order, under its key and of its kind.
pub open spec fn fields_match(fields: Seq<EntryModel>, attributes: Seq<Attribute>) -> bool {
    &&& fields.len() == attributes.len()
    &&& forall|j: int|
        0 <= j < fields.len() ==> (#[trigger] fields[j]).key == hex_key_spec(attributes[j].tag)
            && fits(attributes[j].kind, fields[j].value)
}

/// Whether a series record is well formed: it has the members of a series
/// record, and its series UID and series number are those of its members.
pub open spec fn series_well_formed(series: SeriesModel) -> bool {
    &&& fields_match(series.fields, series_attributes())
    &&& series == series_from_values(values_of(series.fields))
}

/// Whether an instance record is well formed: it has the members of an
/// instance record, and its SOP instance UID and instance number are those of
/// its members.
pub open spec fn instance_well_formed(instance: InstanceModel) -> bool {
    &&& fields_match(instance.fields, instance_attributes())
    &&& instance == instance_from_values(instance.series_uid, values_of(instance.fields))
}

/// The attributes of a series record.
pub fn series_attribute_list() -> (attributes: Vec<Attribute>)
    ensures
        attributes@ == series_attributes(),
{
    let attributes = vec![
        Attribute { tag: PATIENT_SEX, kind: FieldKind::Text },
        Attribute { tag: PATIENT_AGE, kind: FieldKind::Text },
        Attribute { tag: SERIES_INSTANCE_UID, kind: FieldKind::Text },
        Attribute { tag: PATIENT_NAME, kind: FieldKind::Text },
        Attribute { tag: PATIENT_ID, kind: FieldKind::Text },
        Attribute { tag: PATIENT_BIRTH_DATE, kind: FieldKind::Text },
        Attribute { tag: BODY_PART_EXAMINED, kind: FieldKind::Text },
        Attribute { tag: SERIES_NUMBER, kind: FieldKind::Text },
        Attribute { tag: STUDY_DATE, kind: FieldKind::Text },
        Attribute { tag: STUDY_TIME, kind: FieldKind::Text },
        Attribute { tag: ACCESSION_NUMBER, kind: FieldKind::Text },
        Attribute { tag: MODALITY, kind: FieldKind::Text },
        Attribute { tag: MANUFACTURER, kind: FieldKind::Text },
        Attribute { tag: INSTITUTION_ADDRESS, kind: FieldKind::Text },
        Attribute { tag: INSTITUTION_NAME, kind: FieldKind::Text },
    ];
    assert(attributes@ =~= series_attributes());
    attributes
}

/// The attributes of an instance record.
pub fn instance_attribute_list() -> (attributes: Vec<Attribute>)
    ensures
        attributes@ == instance_attributes(),
{
    let attributes = vec![
        Attribute { tag: SERIES_DESCRIPTION, kind: FieldKind::Text },
        Attribute { tag: PIXEL_SPACING, kind: FieldKind::List },
        Attribute { tag: ROWS, kind: FieldKind::Text },
        Attribute { tag: COLUMNS, kind: FieldKind::Text },
        Attribute { tag: BODY_PART_EXAMINED, kind: FieldKind::Text },
        Attribute { tag: IMAGE_TYPE, kind: FieldKind::List },
        Attribute { tag: PIXEL_REPRESENTATION, kind: FieldKind::Text },
        Attribute { tag: PATIENT_POSITION, kind: FieldKind::Text },
        Attribute { tag: IMAGE_POSITION_PATIENT, kind: FieldKind::List },
        Attribute { tag: SLICE_THICKNESS, kind: FieldKind::Text },
        Attribute { tag: INSTANCE_NUMBER, kind: FieldKind::Text },
        Attribute { tag: IMAGE_ORIENTATION_PATIENT, kind: FieldKind::List },
        Attribute { tag: SOP_INSTANCE_UID, kind: FieldKind::Text },
    ];
    assert(attributes@ =~= instance_attributes());
    attributes
}

/// The fields of a record with the given attributes.
pub fn schema_for(attributes: &Vec<Attribute>) -> (schema: Vec<FieldSpec>)
    ensures
        schema.deep_view() == schema_of(attributes@),
{
    let mut schema: Vec<FieldSpec> = Vec::new();
    let mut j: usize = 0;
    while j < attributes.len()
        invariant
            j <= attributes.len(),
            schema.len() == j,
            forall|k: int| 0 <= k < j ==> (#[trigger] schema[k])@ == schema_of(attributes@)[k],
        decreases attributes.len() - j,
    {
        schema.push(FieldSpec { key: tag_to_string(attributes[j].tag), kind: attributes[j].kind });
        j = j + 1;
    }
    assert(schema.deep_view() =~= schema_of(attributes@));
    schema
}

/// Reads the given attributes from an object. An attribute that the object
/// does not have is the empty text, or the list with the one empty text.
pub fn scan_fields(obj: &DefaultDicomObject, attributes: &Vec<Attribute>) -> (fields: Vec<Entry>)
    ensures
        fields.deep_view() == scanned_fields(*obj, attributes@),
{
    let mut fields: Vec<Entry> = Vec::new();
    let mut j: usize = 0;
    while j < attributes.len()
        invariant
            j <= attributes.len(),
            fields.len() == j,
            forall|k: int|
                0 <= k < j ==> (#[trigger] fields[k])@ == scanned_fields(*obj, attributes@)[k],
        decreases attributes.len() - j,
    {
        let attribute = attributes[j];
        let text = get_string(attribute.tag, obj);
        let key = tag_to_string(attribute.tag);
        let entry = match attribute.kind {
            FieldKind::List => Entry::list(key, split_multi(text.as_str())),
            _ => Entry::text(key, text),
        };
        fields.push(entry);
        j = j + 1;
    }
    assert(fields.deep_view() =~= scanned_fields(*obj, attributes@));
    fields
}

/// Reads from an object what the aggregate document says of its series and of
/// the instance it holds.
pub fn scan_object(obj: &DefaultDicomObject) -> (scanned: (SeriesRecord, InstanceRecord))
    ensures
        scanned.0@ == scanned_series(*obj),
        scanned.1@ == scanned_instance(*obj),
        series_well_formed(scanned.0@),
        instance_well_formed(scanned.1@),
{
    let series_uid = get_string(SERIES_INSTANCE_UID, obj);
    let series_number = get_string(SERIES_NUMBER, obj);
    let sop_uid = get_string(SOP_INSTANCE_UID, obj);
    let instance_number = get_string(INSTANCE_NUMBER, obj);
    let series = SeriesRecord {
        series_uid: series_uid.clone(),
        series_number: number_or_zero(series_number.as_str()),
        fields: scan_fields(obj, &series_attribute_list()),
    };
    let instance = InstanceRecord {
        series_uid,
        sop_uid,
        instance_number: number_or_zero(instance_number.as_str()),
        fields: scan_fields(obj, &instance_attribute_list()),
    };
    proof {
        lemma_scanned_well_formed(*obj);
    }
    (series, instance)
}

/// What an object gives are well-formed records.
pub proof fn lemma_scanned_well_formed(obj: DefaultDicomObject)
    ensures
        series_well_formed(scanned_series(obj)),
        instance_well_formed(scanned_instance(obj)),
{
    let series = scanned_series(obj);
    let instance = scanned_instance(obj);
    assert(series_attributes()[SERIES_UID_AT as int].tag == SERIES_INSTANCE_UID);
    assert(series_attributes()[SERIES_NUMBER_AT as int].tag == SERIES_NUMBER);
    assert(instance_attributes()[SOP_UID_AT as int].tag == SOP_INSTANCE_UID);
    assert(instance_attributes()[INSTANCE_NUMBER_AT as int].tag == INSTANCE_NUMBER);
    assert(series_from_values(values_of(series.fields)).fields =~= series.fields);
    assert(instance_from_values(instance.series_uid, values_of(instance.fields)).fields
        =~= instance.fields);
}

/// Scans the bytes of a file. The file is read up to its pixel data, which
/// the records do not need.
pub fn scan(bytes: &Vec<u8>) -> (result: Result<(SeriesRecord, InstanceRecord), FileError>)
    ensures
        match parsed_until(bytes@, PIXEL_DATA) {
            Some(obj) => result matches Ok(scanned) && scanned.0@ == scanned_series(obj)
                && scanned.1@ == scanned_instance(obj),
            None => result matches Err(error) && error is Open,
        },
{
    match read_object_until(bytes, PIXEL_DATA) {
        Ok(obj) => Ok(scan_object(&obj)),
        Err(error) => Err(error),
    }
}

/// Files each value under the key of its field, in the order of the fields.
pub fn file_values(schema: &Vec<FieldSpec>, values: &Vec<JsonValue>) -> (fields: Vec<Entry>)
    requires
        values.len() == schema.len(),
    ensures
        fields.deep_view() == encode_spec(schema.deep_view(), values.deep_view()),
{
    let ghost wanted = encode_spec(schema.deep_view(), values.deep_view());
    let mut fields: Vec<Entry> = Vec::new();
    let mut j: usize = 0;
    while j < schema.len()
        invariant
            j <= schema.len(),
            values.len() == schema.len(),
            wanted == encode_spec(schema.deep_view(), values.deep_view()),
            fields.len() == j,
            forall|k: int| 0 <= k < j ==> (#[trigger] fields[k])@ == wanted[k],
        decreases schema.len() - j,
    {
        fields.push(Entry { key: schema[j].key.clone(), value: values[j].duplicate() });
        j = j + 1;
    }
    assert(fields.deep_view() =~= wanted);
    fields
}

/// What a record of the aggregate document must meet beyond having its
/// members: nothing.
pub open spec fn record_rules() -> DecodeRules {
    DecodeRules { reject_duplicates: false, unknown_must_be_text: false }
}

/// No two attributes of a series record are filed under the same key, and
/// neither are two of an instance record.
pub proof fn lemma_record_keys_distinct()
    ensures
        distinct_keys(schema_of(series_attributes())),
        distinct_keys(schema_of(instance_attributes())),
{
    let series = series_attributes();
    let series_schema = schema_of(series);
    assert forall|a: int, b: int| 0 <= a < b < series_schema.len() implies (
    #[trigger] series_schema[a]).key != (#[trigger] series_schema[b]).key by {
        if series_schema[a].key == series_schema[b].key {
            lemma_hex_key_injective(series[a].tag, series[b].tag);
        }
    }
    let instance = instance_attributes();
    let instance_schema = schema_of(instance);
    assert forall|a: int, b: int| 0 <= a < b < instance_schema.len() implies (
    #[trigger] instance_schema[a]).key != (#[trigger] instance_schema[b]).key by {
        if instance_schema[a].key == instance_schema[b].key {
            lemma_hex_key_injective(instance[a].tag, instance[b].tag);
        }
    }
}

impl SeriesRecord {
    /// The members of the record, as the aggregate document writes them.
    pub fn to_entries(&self) -> (entries: Vec<Entry>)
        ensures
            entries.deep_view() == self@.fields,
    {
        copy_entries(&self.fields)
    }

    /// Reads a series record from the members of a JSON object. Every
    /// attribute of a series record must have a member with a text; members
    /// with other keys are passed over. The series UID and the series number
    /// of the record are those of its members.
    pub fn from_entries(entries: &Vec<Entry>) -> (result: Result<SeriesRecord, DecodeError>)
        ensures
            match decode_spec(schema_of(series_attributes()), record_rules(), entries.deep_view()) {
                Ok(values) => result is Ok && result.unwrap()@ == series_from_values(values),
                Err(fault) => result == Err::<SeriesRecord, DecodeError>(fault),
            },
            result is Ok ==> series_well_formed(result.unwrap()@),
    {
        let rules = DecodeRules { reject_duplicates: false, unknown_must_be_text: false };
        let schema = schema_for(&series_attribute_list());
        proof {
            lemma_record_keys_distinct();
        }
        match decode(&schema, rules, entries) {
            Ok(values) => {
                proof {
                    lemma_fitting_values(schema_of(series_attributes()), values);
                    assert(schema.deep_view().len() == schema.len());
                }
                let series_uid = text_at(&values, SERIES_UID_AT);
                let series_number = text_at(&values, SERIES_NUMBER_AT);
                let record = SeriesRecord {
                    series_uid,
                    series_number: number_or_zero(series_number.as_str()),
                    fields: file_values(&schema, &values),
                };
                proof {
                    let model = values.deep_view();
                    assert(model[SERIES_UID_AT as int] == values[SERIES_UID_AT as int]@);
                    assert(model[SERIES_NUMBER_AT as int] == values[SERIES_NUMBER_AT as int]@);
                    assert(record@.fields =~= series_from_values(model).fields);
                    assert(values_of(record@.fields) =~= model);
                    assert forall|j: int| 0 <= j < record@.fields.len() implies (
                    #[trigger] record@.fields[j]).key == hex_key_spec(series_attributes()[j].tag)
                        && fits(series_attributes()[j].kind, record@.fields[j].value) by {
                        assert(model[j] == values[j]@);
                    }
                }
                Ok(record)
            },
            Err(fault) => Err(fault),
        }
    }
}

impl InstanceRecord {
    /// The members of the record, as the aggregate document writes them.
    pub fn to_entries(&self) -> (entries: Vec<Entry>)
        ensures
            entries.deep_view() == self@.fields,
    {
        copy_entries(&self.fields)
    }

    /// Reads an instance record of the given series from the members of a
    /// JSON object. Every attribute of an instance record must have a member,
    /// with a text or, where the attribute is a list, with a list of texts;
    /// members with other keys are passed over. The SOP instance UID and the
    /// instance number of the record are those of its members.
    pub fn from_entries(series_uid: String, entries: &Vec<Entry>) -> (result: Result<
        InstanceRecord,
        DecodeError,
    >)
        ensures
            match decode_spec(
                schema_of(instance_attributes()),
                record_rules(),
                entries.deep_view(),
            ) {
                Ok(values) => result is Ok && result.unwrap()@ == instance_from_values(
                    series_uid@,
                    values,
                ),
                Err(fault) => result == Err::<InstanceRecord, DecodeError>(fault),
            },
            result is Ok ==> instance_well_formed(result.unwrap()@),
    {
        let rules = DecodeRules { reject_duplicates: false, unknown_must_be_text: false };
        let schema = schema_for(&instance_attribute_list());
        proof {
            lemma_record_keys_distinct();
        }
        match decode(&schema, rules, entries) {
            Ok(values) => {
                proof {
                    lemma_fitting_values(schema_of(instance_attributes()), values);
                    assert(schema.deep_view().len() == schema.len());
                }
                let sop_uid = text_at(&values, SOP_UID_AT);
                let instance_number = text_at(&values, INSTANCE_NUMBER_AT);
                let record = InstanceRecord {
                    series_uid,
                    sop_uid,
                    instance_number: number_or_zero(instance_number.as_str()),
                    fields: file_values(&schema, &values),
                };
                proof {
                    let model = values.deep_view();
                    assert(model[SOP_UID_AT as int] == values[SOP_UID_AT as int]@);
                    assert(model[INSTANCE_NUMBER_AT as int] == values[INSTANCE_NUMBER_AT as int]@);
                    assert(record@.fields =~= instance_from_values(series_uid@, model).fields);
                    assert(values_of(record@.fields) =~= model);
                    assert forall|j: int| 0 <= j < record@.fields.len() implies (
                    #[trigger] record@.fields[j]).key == hex_key_spec(
                        instance_attributes()[j].tag,
                    ) && fits(instance_attributes()[j].kind, record@.fields[j].value) by {
                        assert(model[j] == values[j]@);
                    }
                }
                Ok(record)
            },
            Err(fault) => Err(fault),
        }
    }
}

/// Reading the members of a well-formed series record gives the record back.
pub proof fn lemma_series_round_trip(series: SeriesModel)
    requires
        series_well_formed(series),
    ensures
        decode_spec(schema_of(series_attributes()), record_rules(), series.fields) == Ok::<
            Seq<JsonModel>,
            DecodeError,
        >(values_of(series.fields)),
        series_from_values(values_of(series.fields)) == series,
{
    let schema = schema_of(series_attributes());
    let values = values_of(series.fields);
    lemma_record_keys_distinct();
    assert(values_fit(schema, values));
    lemma_decode_encode(schema, record_rules(), values);
    assert(encode_spec(schema, values) =~= series.fields);
}

/// Reading the members of a well-formed instance record gives the record
/// back, the values of its lists as they were.
pub proof fn lemma_instance_round_trip(instance: InstanceModel)
    requires
        instance_well_formed(instance),
    ensures
        decode_spec(schema_of(instance_attributes()), record_rules(), instance.fields) == Ok::<
            Seq<JsonModel>,
            DecodeError,
        >(values_of(instance.fields)),
        instance_from_values(instance.series_uid, values_of(instance.fields)) == instance,
{
    let schema = schema_of(instance_attributes());
    let values = values_of(instance.fields);
    lemma_record_keys_distinct();
    assert(values_fit(schema, values));
    lemma_decode_encode(schema, record_rules(), values);
    assert(encode_spec(schema, values) =~= instance.fields);
}

} // verus!
