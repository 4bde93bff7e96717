//! The attributes of a patient.

use vstd::prelude::*;
use dicom_object::DefaultDicomObject;
use crate::codec::{
    decode, decode_spec, distinct_keys, encode_spec, lemma_decode_encode, lemma_fitting_values,
    text_at, text_field, values_fit, DecodeError, DecodeRules, FieldKind, FieldModel, FieldSpec,
};
use crate::dcmobj::{get_string, object_field};
use crate::json::{record_text, render_record};
use crate::record::{Entry, EntryModel, JsonModel};
use crate::tags::{
    hex_key_spec, lemma_hex_key_injective, PATIENT_AGE, PATIENT_BIRTH_DATE, PATIENT_BIRTH_TIME,
    PATIENT_ID, PATIENT_NAME, PATIENT_SEX, Tag,
};

verus! {

/// The attributes of a patient.
#[derive(Debug, Clone)]
pub struct PatientInfo {
    pub id: String,
    pub name: String,
    pub age: String,
    pub sex: String,
    pub birth_date: String,
    pub birth_time: String,
}

impl PatientInfo {
    /// The tags under whose keys the fields are filed, in the order in which a
    /// record lists them.
    pub open spec fn field_tags() -> Seq<Tag> {
        seq![
            PATIENT_ID, PATIENT_NAME, PATIENT_AGE, PATIENT_SEX, PATIENT_BIRTH_DATE,
            PATIENT_BIRTH_TIME,
        ]
    }

    /// The fields: each is filed under the key of its tag and takes a text.
    pub open spec fn schema_spec() -> Seq<FieldModel> {
        Seq::new(
            Self::field_tags().len(),
            |j: int|
                FieldModel {
                    key: hex_key_spec(Self::field_tags()[j]),
                    kind: FieldKind::Text,
                },
        )
    }

    /// What a record must meet beyond having the fields: nothing.
    pub open spec fn rules() -> DecodeRules {
        DecodeRules { reject_duplicates: false, unknown_must_be_text: false }
    }

    /// The values of the fields, in the order of the fields.
    pub open spec fn values(&self) -> Seq<JsonModel> {
        seq![
            JsonModel::Text(self.id@),
            JsonModel::Text(self.name@),
            JsonModel::Text(self.age@),
            JsonModel::Text(self.sex@),
            JsonModel::Text(self.birth_date@),
            JsonModel::Text(self.birth_time@),
        ]
    }

    /// The record: one member for each field, in the order of the fields.
    pub open spec fn record(&self) -> Seq<EntryModel> {
        encode_spec(Self::schema_spec(), self.values())
    }

    /// Reads the attributes from an object. An attribute that the object does not
    /// have is empty.
    pub fn new(obj: &DefaultDicomObject) -> (info: Self)
        ensures
            info.id@ == object_field(*obj, PATIENT_ID),
            info.name@ == object_field(*obj, PATIENT_NAME),
            info.age@ == object_field(*obj, PATIENT_AGE),
            info.sex@ == object_field(*obj, PATIENT_SEX),
            info.birth_date@ == object_field(*obj, PATIENT_BIRTH_DATE),
            info.birth_time@ == object_field(*obj, PATIENT_BIRTH_TIME),
    {
        Self {
            id: get_string(PATIENT_ID, obj),
            name: get_string(PATIENT_NAME, obj),
            age: get_string(PATIENT_AGE, obj),
            sex: get_string(PATIENT_SEX, obj),
            birth_date: get_string(PATIENT_BIRTH_DATE, obj),
            birth_time: get_string(PATIENT_BIRTH_TIME, obj),
        }
    }

    /// The tag of each field, by the index of the field.
    proof fn lemma_field_tags()
        ensures
            Self::field_tags().len() == 6,
            Self::field_tags()[0] == PATIENT_ID,
            Self::field_tags()[1] == PATIENT_NAME,
            Self::field_tags()[2] == PATIENT_AGE,
            Self::field_tags()[3] == PATIENT_SEX,
            Self::field_tags()[4] == PATIENT_BIRTH_DATE,
            Self::field_tags()[5] == PATIENT_BIRTH_TIME,
    {
    }

    /// The key under which the attribute with the given tag is filed;
    /// `unknown` for a tag that is none of the patient's.
    pub fn map_key(tag: Tag) -> (key: &'static str)
        ensures
            key@ == if Self::field_tags().contains(tag) {
                hex_key_spec(tag)
            } else {
                "unknown"@
            },
    {
        proof {
            Self::lemma_field_tags();
            reveal_strlit("00100020");
            reveal_strlit("00100010");
            reveal_strlit("00101010");
            reveal_strlit("00100040");
            reveal_strlit("00100030");
            reveal_strlit("00100032");
        }
        if tag == PATIENT_ID {
            assert(Self::field_tags()[0] == tag);
            assert("00100020"@ =~= hex_key_spec(PATIENT_ID));
            "00100020"
        } else if tag == PATIENT_NAME {
            assert(Self::field_tags()[1] == tag);
            assert("00100010"@ =~= hex_key_spec(PATIENT_NAME));
            "00100010"
        } else if tag == PATIENT_AGE {
            assert(Self::field_tags()[2] == tag);
            assert("00101010"@ =~= hex_key_spec(PATIENT_AGE));
            "00101010"
        } else if tag == PATIENT_SEX {
            assert(Self::field_tags()[3] == tag);
            assert("00100040"@ =~= hex_key_spec(PATIENT_SEX));
            "00100040"
        } else if tag == PATIENT_BIRTH_DATE {
            assert(Self::field_tags()[4] == tag);
            assert("00100030"@ =~= hex_key_spec(PATIENT_BIRTH_DATE));
            "00100030"
        } else if tag == PATIENT_BIRTH_TIME {
            assert(Self::field_tags()[5] == tag);
            assert("00100032"@ =~= hex_key_spec(PATIENT_BIRTH_TIME));
            "00100032"
        } else {
            "unknown"
        }
    }

    /// The fields of a record.
    pub fn schema() -> (schema: Vec<FieldSpec>)
        ensures
            schema.deep_view() == Self::schema_spec(),
    {
        let mut schema: Vec<FieldSpec> = Vec::new();
        schema.push(text_field(Self::map_key(PATIENT_ID)));
        schema.push(text_field(Self::map_key(PATIENT_NAME)));
        schema.push(text_field(Self::map_key(PATIENT_AGE)));
        schema.push(text_field(Self::map_key(PATIENT_SEX)));
        schema.push(text_field(Self::map_key(PATIENT_BIRTH_DATE)));
        schema.push(text_field(Self::map_key(PATIENT_BIRTH_TIME)));
        proof {
            Self::lemma_field_tags();
            assert(schema.deep_view() =~= Self::schema_spec());
        }
        schema
    }

    /// The record: one member for each field, in the order of the fields.
    pub fn to_entries(&self) -> (entries: Vec<Entry>)
        ensures
            entries.deep_view() == self.record(),
    {
        let mut entries: Vec<Entry> = Vec::new();
        entries.push(
            Entry::text(String::from_str(Self::map_key(PATIENT_ID)), self.id.clone()),
        );
        entries.push(
            Entry::text(String::from_str(Self::map_key(PATIENT_NAME)), self.name.clone()),
        );
        entries.push(
            Entry::text(String::from_str(Self::map_key(PATIENT_AGE)), self.age.clone()),
        );
        entries.push(
            Entry::text(String::from_str(Self::map_key(PATIENT_SEX)), self.sex.clone()),
        );
        entries.push(
            Entry::text(String::from_str(Self::map_key(PATIENT_BIRTH_DATE)), self.birth_date.clone()),
        );
        entries.push(
            Entry::text(String::from_str(Self::map_key(PATIENT_BIRTH_TIME)), self.birth_time.clone()),
        );
        proof {
            Self::lemma_field_tags();
            assert(entries.deep_view() =~= self.record());
        }
        entries
    }

    /// Reads the fields from a record. Every field must have a member with a
    /// value of its kind; members with other keys are passed over.
    pub fn from_entries(entries: &Vec<Entry>) -> (result: Result<Self, DecodeError>)
        ensures
            match decode_spec(Self::schema_spec(), Self::rules(), entries.deep_view()) {
                Ok(values) => result is Ok && result.unwrap().values() == values,
                Err(fault) => result == Err::<Self, DecodeError>(fault),
            },
    {
        let rules = DecodeRules { reject_duplicates: false, unknown_must_be_text: false };
        proof {
            Self::lemma_schema_distinct();
        }
        match decode(&Self::schema(), rules, entries) {
            Ok(values) => {
                proof {
                    Self::lemma_field_tags();
                    lemma_fitting_values(Self::schema_spec(), values);
                }
                let info = Self {
                    id: text_at(&values, 0),
                    name: text_at(&values, 1),
                    age: text_at(&values, 2),
                    sex: text_at(&values, 3),
                    birth_date: text_at(&values, 4),
                    birth_time: text_at(&values, 5),
                };
                assert(info.values() =~= values.deep_view());
                Ok(info)
            },
            Err(fault) => Err(fault),
        }
    }

    /// The record as JSON text.
    pub fn to_json(&self) -> (text: String)
        ensures
            text@ == record_text(self.record()),
    {
        render_record(&self.to_entries())
    }

    /// No two fields are filed under the same key.
    pub proof fn lemma_schema_distinct()
        ensures
            distinct_keys(Self::schema_spec()),
    {
        let tags = Self::field_tags();
        let schema = Self::schema_spec();
        Self::lemma_field_tags();
        assert forall|a: int, b: int| 0 <= a < b < schema.len() implies (#[trigger] schema[a]).key
            != (#[trigger] schema[b]).key by {
            if schema[a].key == schema[b].key {
                lemma_hex_key_injective(tags[a], tags[b]);
            }
        }
    }

    /// Reading the record written from the fields gives the fields back.
    pub proof fn lemma_round_trip(&self)
        ensures
            decode_spec(Self::schema_spec(), Self::rules(), self.record()) == Ok::<
                Seq<JsonModel>,
                DecodeError,
            >(self.values()),
    {
        Self::lemma_schema_distinct();
        Self::lemma_field_tags();
        assert(values_fit(Self::schema_spec(), self.values()));
        lemma_decode_encode(Self::schema_spec(), Self::rules(), self.values());
    }
}

} // verus!
