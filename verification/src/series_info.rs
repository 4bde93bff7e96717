//! The attributes of a series.

use vstd::prelude::*;
use dicom_object::DefaultDicomObject;
use crate::codec::{
    decode, decode_spec, distinct_keys, encode_spec, lemma_decode_encode, lemma_fitting_values,
    text_at, text_field, values_fit, DecodeError, DecodeRules, FieldKind, FieldModel, FieldSpec,
};
use crate::dcmobj::{get_string, object_field};
use crate::json::{record_text, render_record};
use crate::record::{Entry, EntryModel, JsonModel};
use crate::tags::{
    hex_key_spec, lemma_hex_key_injective, ACCESSION_NUMBER, BODY_PART_EXAMINED, IMAGE_TYPE,
    MODALITY, SERIES_DATE, SERIES_DESCRIPTION, SERIES_INSTANCE_UID, SERIES_NUMBER, SERIES_TIME,
    Tag,
};

verus! {

/// The attributes of a series.
#[derive(Debug, Clone)]
pub struct SeriesInfo {
    pub series_num: String,
    pub series_uid: String,
    pub series_date: String,
    pub series_time: String,
    pub series_desc: String,
    pub modality: String,
    pub body_part_exam: String,
    pub image_type: String,
    pub accession_number: String,
}

impl SeriesInfo {
    /// The tags under whose keys the fields are filed, in the order in which a
    /// record lists them.
    pub open spec fn field_tags() -> Seq<Tag> {
        seq![
            SERIES_NUMBER, SERIES_INSTANCE_UID, SERIES_DATE, SERIES_TIME, SERIES_DESCRIPTION,
            MODALITY, BODY_PART_EXAMINED, IMAGE_TYPE, ACCESSION_NUMBER,
        ]
    }

    /// The fields: each is filed under the key of its tag and takes a text.
    pub open spec fn schema_spec() -> Seq<FieldModel> {
        Seq::new(
            Self::field_tags().len(),
            |j: int|
                FieldModel {
                    key: hex_key_spec(Self::field_tags()[j]),
                    kind: FieldKind::Text,
                },
        )
    }

    /// What a record must meet beyond having the fields: nothing.
    pub open spec fn rules() -> DecodeRules {
        DecodeRules { reject_duplicates: false, unknown_must_be_text: false }
    }

    /// The values of the fields, in the order of the fields.
    pub open spec fn values(&self) -> Seq<JsonModel> {
        seq![
            JsonModel::Text(self.series_num@),
            JsonModel::Text(self.series_uid@),
            JsonModel::Text(self.series_date@),
            JsonModel::Text(self.series_time@),
            JsonModel::Text(self.series_desc@),
            JsonModel::Text(self.modality@),
            JsonModel::Text(self.body_part_exam@),
            JsonModel::Text(self.image_type@),
            JsonModel::Text(self.accession_number@),
        ]
    }

    /// The record: one member for each field, in the order of the fields.
    pub open spec fn record(&self) -> Seq<EntryModel> {
        encode_spec(Self::schema_spec(), self.values())
    }

    /// Reads the attributes from an object. An attribute that the object does not
    /// have is empty.
    pub fn new(obj: &DefaultDicomObject) -> (info: Self)
        ensures
            info.series_num@ == object_field(*obj, SERIES_NUMBER),
            info.series_uid@ == object_field(*obj, SERIES_INSTANCE_UID),
            info.series_date@ == object_field(*obj, SERIES_DATE),
            info.series_time@ == object_field(*obj, SERIES_TIME),
            info.series_desc@ == object_field(*obj, SERIES_DESCRIPTION),
            info.modality@ == object_field(*obj, MODALITY),
            info.body_part_exam@ == object_field(*obj, BODY_PART_EXAMINED),
            info.image_type@ == object_field(*obj, IMAGE_TYPE),
            info.accession_number@ == object_field(*obj, ACCESSION_NUMBER),
    {
        Self {
            series_num: get_string(SERIES_NUMBER, obj),
            series_uid: get_string(SERIES_INSTANCE_UID, obj),
            series_date: get_string(SERIES_DATE, obj),
            series_time: get_string(SERIES_TIME, obj),
            series_desc: get_string(SERIES_DESCRIPTION, obj),
            modality: get_string(MODALITY, obj),
            body_part_exam: get_string(BODY_PART_EXAMINED, obj),
            image_type: get_string(IMAGE_TYPE, obj),
            accession_number: get_string(ACCESSION_NUMBER, obj),
        }
    }

    /// The tag of each field, by the index of the field.
    proof fn lemma_field_tags()
        ensures
            Self::field_tags().len() == 9,
            Self::field_tags()[0] == SERIES_NUMBER,
            Self::field_tags()[1] == SERIES_INSTANCE_UID,
            Self::field_tags()[2] == SERIES_DATE,
            Self::field_tags()[3] == SERIES_TIME,
            Self::field_tags()[4] == SERIES_DESCRIPTION,
            Self::field_tags()[5] == MODALITY,
            Self::field_tags()[6] == BODY_PART_EXAMINED,
            Self::field_tags()[7] == IMAGE_TYPE,
            Self::field_tags()[8] == ACCESSION_NUMBER,
    {
    }

    /// The key under which the attribute with the given tag is filed;
    /// `unknown` for a tag that is none of the series'.
    pub fn map_key(tag: Tag) -> (key: &'static str)
        ensures
            key@ == if Self::field_tags().contains(tag) {
                hex_key_spec(tag)
            } else {
                "unknown"@
            },
    {
        proof {
            Self::lemma_field_tags();
            reveal_strlit("00200011");
            reveal_strlit("0020000E");
            reveal_strlit("00080021");
            reveal_strlit("00080031");
            reveal_strlit("0008103E");
            reveal_strlit("00080060");
            reveal_strlit("00180015");
            reveal_strlit("00080008");
            reveal_strlit("00080050");
        }
        if tag == SERIES_NUMBER {
            assert(Self::field_tags()[0] == tag);
            assert("00200011"@ =~= hex_key_spec(SERIES_NUMBER));
            "00200011"
        } else if tag == SERIES_INSTANCE_UID {
            assert(Self::field_tags()[1] == tag);
            assert("0020000E"@ =~= hex_key_spec(SERIES_INSTANCE_UID));
            "0020000E"
        } else if tag == SERIES_DATE {
            assert(Self::field_tags()[2] == tag);
            assert("00080021"@ =~= hex_key_spec(SERIES_DATE));
            "00080021"
        } else if tag == SERIES_TIME {
            assert(Self::field_tags()[3] == tag);
            assert("00080031"@ =~= hex_key_spec(SERIES_TIME));
            "00080031"
        } else if tag == SERIES_DESCRIPTION {
            assert(Self::field_tags()[4] == tag);
            assert("0008103E"@ =~= hex_key_spec(SERIES_DESCRIPTION));
            "0008103E"
        } else if tag == MODALITY {
            assert(Self::field_tags()[5] == tag);
            assert("00080060"@ =~= hex_key_spec(MODALITY));
            "00080060"
        } else if tag == BODY_PART_EXAMINED {
            assert(Self::field_tags()[6] == tag);
            assert("00180015"@ =~= hex_key_spec(BODY_PART_EXAMINED));
            "00180015"
        } else if tag == IMAGE_TYPE {
            assert(Self::field_tags()[7] == tag);
            assert("00080008"@ =~= hex_key_spec(IMAGE_TYPE));
            "00080008"
        } else if tag == ACCESSION_NUMBER {
            assert(Self::field_tags()[8] == tag);
            assert("00080050"@ =~= hex_key_spec(ACCESSION_NUMBER));
            "00080050"
        } else {
            "unknown"
        }
    }

    /// The fields of a record.
    pub fn schema() -> (schema: Vec<FieldSpec>)
        ensures
            schema.deep_view() == Self::schema_spec(),
    {
        let mut schema: Vec<FieldSpec> = Vec::new();
        schema.push(text_field(Self::map_key(SERIES_NUMBER)));
        schema.push(text_field(Self::map_key(SERIES_INSTANCE_UID)));
        schema.push(text_field(Self::map_key(SERIES_DATE)));
        schema.push(text_field(Self::map_key(SERIES_TIME)));
        schema.push(text_field(Self::map_key(SERIES_DESCRIPTION)));
        schema.push(text_field(Self::map_key(MODALITY)));
        schema.push(text_field(Self::map_key(BODY_PART_EXAMINED)));
        schema.push(text_field(Self::map_key(IMAGE_TYPE)));
        schema.push(text_field(Self::map_key(ACCESSION_NUMBER)));
        proof {
            Self::lemma_field_tags();
            assert(schema.deep_view() =~= Self::schema_spec());
        }
        schema
    }

    /// The record: one member for each field, in the order of the fields.
    pub fn to_entries(&self) -> (entries: Vec<Entry>)
        ensures
            entries.deep_view() == self.record(),
    {
        let mut entries: Vec<Entry> = Vec::new();
        entries.push(
            Entry::text(String::from_str(Self::map_key(SERIES_NUMBER)), self.series_num.clone()),
        );
        entries.push(
            Entry::text(String::from_str(Self::map_key(SERIES_INSTANCE_UID)), self.series_uid.clone()),
        );
        entries.push(
            Entry::text(String::from_str(Self::map_key(SERIES_DATE)), self.series_date.clone()),
        );
        entries.push(
            Entry::text(String::from_str(Self::map_key(SERIES_TIME)), self.series_time.clone()),
        );
        entries.push(
            Entry::text(String::from_str(Self::map_key(SERIES_DESCRIPTION)), self.series_desc.clone()),
        );
        entries.push(
            Entry::text(String::from_str(Self::map_key(MODALITY)), self.modality.clone()),
        );
        entries.push(
            Entry::text(String::from_str(Self::map_key(BODY_PART_EXAMINED)), self.body_part_exam.clone()),
        );
        entries.push(
            Entry::text(String::from_str(Self::map_key(IMAGE_TYPE)), self.image_type.clone()),
        );
        entries.push(
            Entry::text(String::from_str(Self::map_key(ACCESSION_NUMBER)), self.accession_number.clone()),
        );
        proof {
            Self::lemma_field_tags();
            assert(entries.deep_view() =~= self.record());
        }
        entries
    }

    /// Reads the fields from a record. Every field must have a member with a
    /// value of its kind; members with other keys are passed over.
    pub fn from_entries(entries: &Vec<Entry>) -> (result: Result<Self, DecodeError>)
        ensures
            match decode_spec(Self::schema_spec(), Self::rules(), entries.deep_view()) {
                Ok(values) => result is Ok && result.unwrap().values() == values,
                Err(fault) => result == Err::<Self, DecodeError>(fault),
            },
    {
        let rules = DecodeRules { reject_duplicates: false, unknown_must_be_text: false };
        proof {
            Self::lemma_schema_distinct();
        }
        match decode(&Self::schema(), rules, entries) {
            Ok(values) => {
                proof {
                    Self::lemma_field_tags();
                    lemma_fitting_values(Self::schema_spec(), values);
                }
                let info = Self {
                    series_num: text_at(&values, 0),
                    series_uid: text_at(&values, 1),
                    series_date: text_at(&values, 2),
                    series_time: text_at(&values, 3),
                    series_desc: text_at(&values, 4),
                    modality: text_at(&values, 5),
                    body_part_exam: text_at(&values, 6),
                    image_type: text_at(&values, 7),
                    accession_number: text_at(&values, 8),
                };
                assert(info.values() =~= values.deep_view());
                Ok(info)
            },
            Err(fault) => Err(fault),
        }
    }

    /// The record as JSON text.
    pub fn to_json(&self) -> (text: String)
        ensures
            text@ == record_text(self.record()),
    {
        render_record(&self.to_entries())
    }

    /// No two fields are filed under the same key.
    pub proof fn lemma_schema_distinct()
        ensures
            distinct_keys(Self::schema_spec()),
    {
        let tags = Self::field_tags();
        let schema = Self::schema_spec();
        Self::lemma_field_tags();
        assert forall|a: int, b: int| 0 <= a < b < schema.len() implies (#[trigger] schema[a]).key
            != (#[trigger] schema[b]).key by {
            if schema[a].key == schema[b].key {
                lemma_hex_key_injective(tags[a], tags[b]);
            }
        }
    }

    /// Reading the record written from the fields gives the fields back.
    pub proof fn lemma_round_trip(&self)
        ensures
            decode_spec(Self::schema_spec(), Self::rules(), self.record()) == Ok::<
                Seq<JsonModel>,
                DecodeError,
            >(self.values()),
    {
        Self::lemma_schema_distinct();
        Self::lemma_field_tags();
        assert(values_fit(Self::schema_spec(), self.values()));
        lemma_decode_encode(Self::schema_spec(), Self::rules(), self.values());
    }
}

} // verus!
