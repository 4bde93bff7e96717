//! The attributes of a study.

use vstd::prelude::*;
use dicom_object::DefaultDicomObject;
use crate::codec::{
    decode, decode_spec, distinct_keys, encode_spec, lemma_decode_encode, lemma_fitting_values,
    text_at, text_field, values_fit, DecodeError, DecodeRules, FieldKind, FieldModel, FieldSpec,
};
use crate::dcmobj::{get_string, object_field};
use crate::json::{record_text, render_record};
use crate::record::{Entry, EntryModel, JsonModel};
use crate::tags::{
    hex_key_spec, lemma_hex_key_injective, STUDY_DATE, STUDY_DESCRIPTION, STUDY_ID,
    STUDY_INSTANCE_UID, STUDY_TIME, Tag,
};

verus! {

/// The attributes of a study.
#[derive(Debug, Clone)]
pub struct StudyInfo {
    pub study_id: String,
    pub study_uid: String,
    pub study_date: String,
    pub study_time: String,
    pub study_desc: String,
}

impl StudyInfo {
    /// The tags under whose keys the fields are filed, in the order in which a
    /// record lists them.
    pub open spec fn field_tags() -> Seq<Tag> {
        seq![
            STUDY_ID, STUDY_INSTANCE_UID, STUDY_DATE, STUDY_TIME, STUDY_DESCRIPTION,
        ]
    }

    /// The fields: each is filed under the key of its tag and takes a text.
    pub open spec fn schema_spec() -> Seq<FieldModel> {
        Seq::new(
            Self::field_tags().len(),
            |j: int|
                FieldModel {
                    key: hex_key_spec(Self::field_tags()[j]),
                    kind: FieldKind::Text,
                },
        )
    }

    /// What a record must meet beyond having the fields: a member with another
    /// key must hold a text.
    pub open spec fn rules() -> DecodeRules {
        DecodeRules { reject_duplicates: false, unknown_must_be_text: true }
    }

    /// The values of the fields, in the order of the fields.
    pub open spec fn values(&self) -> Seq<JsonModel> {
        seq![
            JsonModel::Text(self.study_id@),
            JsonModel::Text(self.study_uid@),
            JsonModel::Text(self.study_date@),
            JsonModel::Text(self.study_time@),
            JsonModel::Text(self.study_desc@),
        ]
    }

    /// The record: one member for each field, in the order of the fields.
    pub open spec fn record(&self) -> Seq<EntryModel> {
        encode_spec(Self::schema_spec(), self.values())
    }

    /// Reads the attributes from an object. An attribute that the object does not
    /// have is empty.
    pub fn new(obj: &DefaultDicomObject) -> (info: Self)
        ensures
            info.study_id@ == object_field(*obj, STUDY_ID),
            info.study_uid@ == object_field(*obj, STUDY_INSTANCE_UID),
            info.study_date@ == object_field(*obj, STUDY_DATE),
            info.study_time@ == object_field(*obj, STUDY_TIME),
            info.study_desc@ == object_field(*obj, STUDY_DESCRIPTION),
    {
        Self {
            study_id: get_string(STUDY_ID, obj),
            study_uid: get_string(STUDY_INSTANCE_UID, obj),
            study_date: get_string(STUDY_DATE, obj),
            study_time: get_string(STUDY_TIME, obj),
            study_desc: get_string(STUDY_DESCRIPTION, obj),
        }
    }

    /// The tag of each field, by the index of the field.
    proof fn lemma_field_tags()
        ensures
            Self::field_tags().len() == 5,
            Self::field_tags()[0] == STUDY_ID,
            Self::field_tags()[1] == STUDY_INSTANCE_UID,
            Self::field_tags()[2] == STUDY_DATE,
            Self::field_tags()[3] == STUDY_TIME,
            Self::field_tags()[4] == STUDY_DESCRIPTION,
    {
    }

    /// The key under which the attribute with the given tag is filed;
    /// `unknown` for a tag that is none of the study's.
    pub fn map_key(tag: Tag) -> (key: &'static str)
        ensures
            key@ == if Self::field_tags().contains(tag) {
                hex_key_spec(tag)
            } else {
                "unknown"@
            },
    {
        proof {
            Self::lemma_field_tags();
            reveal_strlit("00200010");
            reveal_strlit("0020000D");
            reveal_strlit("00080020");
            reveal_strlit("00080030");
            reveal_strlit("00081030");
        }
        if tag == STUDY_ID {
            assert(Self::field_tags()[0] == tag);
            assert("00200010"@ =~= hex_key_spec(STUDY_ID));
            "00200010"
        } else if tag == STUDY_INSTANCE_UID {
            assert(Self::field_tags()[1] == tag);
            assert("0020000D"@ =~= hex_key_spec(STUDY_INSTANCE_UID));
            "0020000D"
        } else if tag == STUDY_DATE {
            assert(Self::field_tags()[2] == tag);
            assert("00080020"@ =~= hex_key_spec(STUDY_DATE));
            "00080020"
        } else if tag == STUDY_TIME {
            assert(Self::field_tags()[3] == tag);
            assert("00080030"@ =~= hex_key_spec(STUDY_TIME));
            "00080030"
        } else if tag == STUDY_DESCRIPTION {
            assert(Self::field_tags()[4] == tag);
            assert("00081030"@ =~= hex_key_spec(STUDY_DESCRIPTION));
            "00081030"
        } else {
            "unknown"
        }
    }

    /// The fields of a record.
    pub fn schema() -> (schema: Vec<FieldSpec>)
        ensures
            schema.deep_view() == Self::schema_spec(),
    {
        let mut schema: Vec<FieldSpec> = Vec::new();
        schema.push(text_field(Self::map_key(STUDY_ID)));
        schema.push(text_field(Self::map_key(STUDY_INSTANCE_UID)));
        schema.push(text_field(Self::map_key(STUDY_DATE)));
        schema.push(text_field(Self::map_key(STUDY_TIME)));
        schema.push(text_field(Self::map_key(STUDY_DESCRIPTION)));
        proof {
            Self::lemma_field_tags();
            assert(schema.deep_view() =~= Self::schema_spec());
        }
        schema
    }

    /// The record: one member for each field, in the order of the fields.
    pub fn to_entries(&self) -> (entries: Vec<Entry>)
        ensures
            entries.deep_view() == self.record(),
    {
        let mut entries: Vec<Entry> = Vec::new();
        entries.push(
            Entry::text(String::from_str(Self::map_key(STUDY_ID)), self.study_id.clone()),
        );
        entries.push(
            Entry::text(String::from_str(Self::map_key(STUDY_INSTANCE_UID)), self.study_uid.clone()),
        );
        entries.push(
            Entry::text(String::from_str(Self::map_key(STUDY_DATE)), self.study_date.clone()),
        );
        entries.push(
            Entry::text(String::from_str(Self::map_key(STUDY_TIME)), self.study_time.clone()),
        );
        entries.push(
            Entry::text(String::from_str(Self::map_key(STUDY_DESCRIPTION)), self.study_desc.clone()),
        );
        proof {
            Self::lemma_field_tags();
            assert(entries.deep_view() =~= self.record());
        }
        entries
    }

    /// Reads the fields from a record. Every field must have a member with a
    /// text; members with other keys are passed over, but they too must hold a
    /// text.
    pub fn from_entries(entries: &Vec<Entry>) -> (result: Result<Self, DecodeError>)
        ensures
            match decode_spec(Self::schema_spec(), Self::rules(), entries.deep_view()) {
                Ok(values) => result is Ok && result.unwrap().values() == values,
                Err(fault) => result == Err::<Self, DecodeError>(fault),
            },
    {
        let rules = DecodeRules { reject_duplicates: false, unknown_must_be_text: true };
        proof {
            Self::lemma_schema_distinct();
        }
        match decode(&Self::schema(), rules, entries) {
            Ok(values) => {
                proof {
                    Self::lemma_field_tags();
                    lemma_fitting_values(Self::schema_spec(), values);
                }
                let info = Self {
                    study_id: text_at(&values, 0),
                    study_uid: text_at(&values, 1),
                    study_date: text_at(&values, 2),
                    study_time: text_at(&values, 3),
                    study_desc: text_at(&values, 4),
                };
                assert(info.values() =~= values.deep_view());
                Ok(info)
            },
            Err(fault) => Err(fault),
        }
    }

    /// The record as JSON text.
    pub fn to_json(&self) -> (text: String)
        ensures
            text@ == record_text(self.record()),
    {
        render_record(&self.to_entries())
    }

    /// No two fields are filed under the same key.
    pub proof fn lemma_schema_distinct()
        ensures
            distinct_keys(Self::schema_spec()),
    {
        let tags = Self::field_tags();
        let schema = Self::schema_spec();
        Self::lemma_field_tags();
        assert forall|a: int, b: int| 0 <= a < b < schema.len() implies (#[trigger] schema[a]).key
            != (#[trigger] schema[b]).key by {
            if schema[a].key == schema[b].key {
                lemma_hex_key_injective(tags[a], tags[b]);
            }
        }
    }

    /// Reading the record written from the fields gives the fields back.
    pub proof fn lemma_round_trip(&self)
        ensures
            decode_spec(Self::schema_spec(), Self::rules(), self.record()) == Ok::<
                Seq<JsonModel>,
                DecodeError,
            >(self.values()),
    {
        Self::lemma_schema_distinct();
        Self::lemma_field_tags();
        assert(values_fit(Self::schema_spec(), self.values()));
        lemma_decode_encode(Self::schema_spec(), Self::rules(), self.values());
    }
}

} // verus!
