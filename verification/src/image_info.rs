//! The attributes of an image.

use vstd::prelude::*;
use dicom_object::DefaultDicomObject;
use crate::codec::{
    decode, decode_spec, distinct_keys, encode_spec, lemma_decode_encode, lemma_fitting_values,
    number_at, number_field, text_at, text_field, values_fit, DecodeError, DecodeRules, FieldKind,
    FieldModel, FieldSpec,
};
use crate::dcmobj::{get_string, get_tag_value, object_field, object_number};
use crate::json::{record_text, render_record};
use crate::record::{Entry, EntryModel, JsonModel};
use crate::tags::{
    hex_key_spec, lemma_hex_key_injective, BITS_ALLOCATED, BITS_STORED, COLUMNS, HIGH_BIT,
    IMAGE_ORIENTATION_PATIENT, IMAGE_POSITION_PATIENT, INSTANCE_NUMBER, PHOTOMETRIC_INTERPRETATION,
    PIXEL_REPRESENTATION, PIXEL_SPACING, ROWS, SAMPLES_PER_PIXEL, SLICE_LOCATION, SLICE_THICKNESS,
    SOP_INSTANCE_UID, Tag, WINDOW_CENTER, WINDOW_WIDTH,
};

verus! {

/// The attributes of an image.
#[derive(Debug, Clone)]
pub struct ImageInfo {
    pub inst_num: u16,
    pub sop_uid: String,
    pub rows: u16,
    pub cols: u16,
    pub pixel_spacing: String,
    pub slice_location: String,
    pub slice_thickness: String,
    pub image_position: String,
    pub image_orientation: String,
    pub window_center: String,
    pub window_width: String,
    pub photometric_interpretation: String,
    pub bits_allocated: u16,
    pub high_bit: u16,
    pub bit_stored: u16,
    pub samples_per_pixel: u16,
    pub pixel_representation: u16,
}

impl ImageInfo {
    /// The tags under whose keys the fields are filed, in the order in which a
    /// record lists them.
    pub open spec fn field_tags() -> Seq<Tag> {
        seq![
            INSTANCE_NUMBER, SOP_INSTANCE_UID, ROWS, COLUMNS, PIXEL_SPACING, SLICE_LOCATION,
            SLICE_THICKNESS, IMAGE_POSITION_PATIENT, IMAGE_ORIENTATION_PATIENT, WINDOW_CENTER,
            WINDOW_WIDTH, PHOTOMETRIC_INTERPRETATION, BITS_ALLOCATED, HIGH_BIT, BITS_STORED,
            SAMPLES_PER_PIXEL, PIXEL_REPRESENTATION,
        ]
    }

    /// The kinds of value that the fields take, in the order of the fields.
    pub open spec fn field_kinds() -> Seq<FieldKind> {
        seq![
            FieldKind::Number, FieldKind::Text, FieldKind::Number, FieldKind::Number,
            FieldKind::Text, FieldKind::Text, FieldKind::Text, FieldKind::Text, FieldKind::Text,
            FieldKind::Text, FieldKind::Text, FieldKind::Text, FieldKind::Number,
            FieldKind::Number, FieldKind::Number, FieldKind::Number, FieldKind::Number,
        ]
    }

    /// The fields: each is filed under the key of its tag and takes a value of
    /// its kind.
    pub open spec fn schema_spec() -> Seq<FieldModel> {
        Seq::new(
            Self::field_tags().len(),
            |j: int|
                FieldModel {
                    key: hex_key_spec(Self::field_tags()[j]),
                    kind: Self::field_kinds()[j],
                },
        )
    }

    /// What a record must meet beyond having the fields: nothing.
    pub open spec fn rules() -> DecodeRules {
        DecodeRules { reject_duplicates: false, unknown_must_be_text: false }
    }

    /// The values of the fields, in the order of the fields.
    pub open spec fn values(&self) -> Seq<JsonModel> {
        seq![
            JsonModel::Number(self.inst_num as u64),
            JsonModel::Text(self.sop_uid@),
            JsonModel::Number(self.rows as u64),
            JsonModel::Number(self.cols as u64),
            JsonModel::Text(self.pixel_spacing@),
            JsonModel::Text(self.slice_location@),
            JsonModel::Text(self.slice_thickness@),
            JsonModel::Text(self.image_position@),
            JsonModel::Text(self.image_orientation@),
            JsonModel::Text(self.window_center@),
            JsonModel::Text(self.window_width@),
            JsonModel::Text(self.photometric_interpretation@),
            JsonModel::Number(self.bits_allocated as u64),
            JsonModel::Number(self.high_bit as u64),
            JsonModel::Number(self.bit_stored as u64),
            JsonModel::Number(self.samples_per_pixel as u64),
            JsonModel::Number(self.pixel_representation as u64),
        ]
    }

    /// The record: one member for each field, in the order of the fields.
    pub open spec fn record(&self) -> Seq<EntryModel> {
        encode_spec(Self::schema_spec(), self.values())
    }

    /// Reads the attributes from an object. A text that the object does not have is
    /// empty; a number that it does not have, or that is no number, has the
    /// value usual for it.
    pub fn new(obj: &DefaultDicomObject) -> (info: Self)
        ensures
            info.inst_num == object_number(*obj, INSTANCE_NUMBER, 1),
            info.sop_uid@ == object_field(*obj, SOP_INSTANCE_UID),
            info.rows == object_number(*obj, ROWS, 0),
            info.cols == object_number(*obj, COLUMNS, 0),
            info.pixel_spacing@ == object_field(*obj, PIXEL_SPACING),
            info.slice_location@ == object_field(*obj, SLICE_LOCATION),
            info.slice_thickness@ == object_field(*obj, SLICE_THICKNESS),
            info.image_position@ == object_field(*obj, IMAGE_POSITION_PATIENT),
            info.image_orientation@ == object_field(*obj, IMAGE_ORIENTATION_PATIENT),
            info.window_center@ == object_field(*obj, WINDOW_CENTER),
            info.window_width@ == object_field(*obj, WINDOW_WIDTH),
            info.photometric_interpretation@ == object_field(*obj, PHOTOMETRIC_INTERPRETATION),
            info.bits_allocated == object_number(*obj, BITS_ALLOCATED, 8),
            info.high_bit == object_number(*obj, HIGH_BIT, 7),
            info.bit_stored == object_number(*obj, BITS_STORED, 7),
            info.samples_per_pixel == object_number(*obj, SAMPLES_PER_PIXEL, 1),
            info.pixel_representation == object_number(*obj, PIXEL_REPRESENTATION, 1),
    {
        Self {
            inst_num: get_tag_value(INSTANCE_NUMBER, obj, 1),
            sop_uid: get_string(SOP_INSTANCE_UID, obj),
            rows: get_tag_value(ROWS, obj, 0),
            cols: get_tag_value(COLUMNS, obj, 0),
            pixel_spacing: get_string(PIXEL_SPACING, obj),
            slice_location: get_string(SLICE_LOCATION, obj),
            slice_thickness: get_string(SLICE_THICKNESS, obj),
            image_position: get_string(IMAGE_POSITION_PATIENT, obj),
            image_orientation: get_string(IMAGE_ORIENTATION_PATIENT, obj),
            window_center: get_string(WINDOW_CENTER, obj),
            window_width: get_string(WINDOW_WIDTH, obj),
            photometric_interpretation: get_string(PHOTOMETRIC_INTERPRETATION, obj),
            bits_allocated: get_tag_value(BITS_ALLOCATED, obj, 8),
            high_bit: get_tag_value(HIGH_BIT, obj, 7),
            bit_stored: get_tag_value(BITS_STORED, obj, 7),
            samples_per_pixel: get_tag_value(SAMPLES_PER_PIXEL, obj, 1),
            pixel_representation: get_tag_value(PIXEL_REPRESENTATION, obj, 1),
        }
    }

    /// The tag of each field, by the index of the field.
    proof fn lemma_field_tags()
        ensures
            Self::field_tags().len() == 17,
            Self::field_tags()[0] == INSTANCE_NUMBER,
            Self::field_tags()[1] == SOP_INSTANCE_UID,
            Self::field_tags()[2] == ROWS,
            Self::field_tags()[3] == COLUMNS,
            Self::field_tags()[4] == PIXEL_SPACING,
            Self::field_tags()[5] == SLICE_LOCATION,
            Self::field_tags()[6] == SLICE_THICKNESS,
            Self::field_tags()[7] == IMAGE_POSITION_PATIENT,
            Self::field_tags()[8] == IMAGE_ORIENTATION_PATIENT,
            Self::field_tags()[9] == WINDOW_CENTER,
            Self::field_tags()[10] == WINDOW_WIDTH,
            Self::field_tags()[11] == PHOTOMETRIC_INTERPRETATION,
            Self::field_tags()[12] == BITS_ALLOCATED,
            Self::field_tags()[13] == HIGH_BIT,
            Self::field_tags()[14] == BITS_STORED,
            Self::field_tags()[15] == SAMPLES_PER_PIXEL,
            Self::field_tags()[16] == PIXEL_REPRESENTATION,
            Self::field_kinds().len() == 17,
            Self::field_kinds()[0] == FieldKind::Number,
            Self::field_kinds()[1] == FieldKind::Text,
            Self::field_kinds()[2] == FieldKind::Number,
            Self::field_kinds()[3] == FieldKind::Number,
            Self::field_kinds()[4] == FieldKind::Text,
            Self::field_kinds()[5] == FieldKind::Text,
            Self::field_kinds()[6] == FieldKind::Text,
            Self::field_kinds()[7] == FieldKind::Text,
            Self::field_kinds()[8] == FieldKind::Text,
            Self::field_kinds()[9] == FieldKind::Text,
            Self::field_kinds()[10] == FieldKind::Text,
            Self::field_kinds()[11] == FieldKind::Text,
            Self::field_kinds()[12] == FieldKind::Number,
            Self::field_kinds()[13] == FieldKind::Number,
            Self::field_kinds()[14] == FieldKind::Number,
            Self::field_kinds()[15] == FieldKind::Number,
            Self::field_kinds()[16] == FieldKind::Number,
    {
    }

    /// The key under which the attribute with the given tag is filed;
    /// `unknown` for a tag that is none of the image's.
    pub fn map_key(tag: Tag) -> (key: &'static str)
        ensures
            key@ == if Self::field_tags().contains(tag) {
                hex_key_spec(tag)
            } else {
                "unknown"@
            },
    {
        proof {
            Self::lemma_field_tags();
            reveal_strlit("00200013");
            reveal_strlit("00080018");
            reveal_strlit("00280010");
            reveal_strlit("00280011");
            reveal_strlit("00280030");
            reveal_strlit("00201041");
            reveal_strlit("00180050");
            reveal_strlit("00200032");
            reveal_strlit("00200037");
            reveal_strlit("00281050");
            reveal_strlit("00281051");
            reveal_strlit("00280004");
            reveal_strlit("00280100");
            reveal_strlit("00280102");
            reveal_strlit("00280101");
            reveal_strlit("00280002");
            reveal_strlit("00280103");
        }
        if tag == INSTANCE_NUMBER {
            assert(Self::field_tags()[0] == tag);
            assert("00200013"@ =~= hex_key_spec(INSTANCE_NUMBER));
            "00200013"
        } else if tag == SOP_INSTANCE_UID {
            assert(Self::field_tags()[1] == tag);
            assert("00080018"@ =~= hex_key_spec(SOP_INSTANCE_UID));
            "00080018"
        } else if tag == ROWS {
            assert(Self::field_tags()[2] == tag);
            assert("00280010"@ =~= hex_key_spec(ROWS));
            "00280010"
        } else if tag == COLUMNS {
            assert(Self::field_tags()[3] == tag);
            assert("00280011"@ =~= hex_key_spec(COLUMNS));
            "00280011"
        } else if tag == PIXEL_SPACING {
            assert(Self::field_tags()[4] == tag);
            assert("00280030"@ =~= hex_key_spec(PIXEL_SPACING));
            "00280030"
        } else if tag == SLICE_LOCATION {
            assert(Self::field_tags()[5] == tag);
            assert("00201041"@ =~= hex_key_spec(SLICE_LOCATION));
            "00201041"
        } else if tag == SLICE_THICKNESS {
            assert(Self::field_tags()[6] == tag);
            assert("00180050"@ =~= hex_key_spec(SLICE_THICKNESS));
            "00180050"
        } else if tag == IMAGE_POSITION_PATIENT {
            assert(Self::field_tags()[7] == tag);
            assert("00200032"@ =~= hex_key_spec(IMAGE_POSITION_PATIENT));
            "00200032"
        } else if tag == IMAGE_ORIENTATION_PATIENT {
            assert(Self::field_tags()[8] == tag);
            assert("00200037"@ =~= hex_key_spec(IMAGE_ORIENTATION_PATIENT));
            "00200037"
        } else if tag == WINDOW_CENTER {
            assert(Self::field_tags()[9] == tag);
            assert("00281050"@ =~= hex_key_spec(WINDOW_CENTER));
            "00281050"
        } else if tag == WINDOW_WIDTH {
            assert(Self::field_tags()[10] == tag);
            assert("00281051"@ =~= hex_key_spec(WINDOW_WIDTH));
            "00281051"
        } else if tag == PHOTOMETRIC_INTERPRETATION {
            assert(Self::field_tags()[11] == tag);
            assert("00280004"@ =~= hex_key_spec(PHOTOMETRIC_INTERPRETATION));
            "00280004"
        } else if tag == BITS_ALLOCATED {
            assert(Self::field_tags()[12] == tag);
            assert("00280100"@ =~= hex_key_spec(BITS_ALLOCATED));
            "00280100"
        } else if tag == HIGH_BIT {
            assert(Self::field_tags()[13] == tag);
            assert("00280102"@ =~= hex_key_spec(HIGH_BIT));
            "00280102"
        } else if tag == BITS_STORED {
            assert(Self::field_tags()[14] == tag);
            assert("00280101"@ =~= hex_key_spec(BITS_STORED));
            "00280101"
        } else if tag == SAMPLES_PER_PIXEL {
            assert(Self::field_tags()[15] == tag);
            assert("00280002"@ =~= hex_key_spec(SAMPLES_PER_PIXEL));
            "00280002"
        } else if tag == PIXEL_REPRESENTATION {
            assert(Self::field_tags()[16] == tag);
            assert("00280103"@ =~= hex_key_spec(PIXEL_REPRESENTATION));
            "00280103"
        } else {
            "unknown"
        }
    }

    /// The fields of a record.
    pub fn schema() -> (schema: Vec<FieldSpec>)
        ensures
            schema.deep_view() == Self::schema_spec(),
    {
        let mut schema: Vec<FieldSpec> = Vec::new();
        schema.push(number_field(Self::map_key(INSTANCE_NUMBER)));
        schema.push(text_field(Self::map_key(SOP_INSTANCE_UID)));
        schema.push(number_field(Self::map_key(ROWS)));
        schema.push(number_field(Self::map_key(COLUMNS)));
        schema.push(text_field(Self::map_key(PIXEL_SPACING)));
        schema.push(text_field(Self::map_key(SLICE_LOCATION)));
        schema.push(text_field(Self::map_key(SLICE_THICKNESS)));
        schema.push(text_field(Self::map_key(IMAGE_POSITION_PATIENT)));
        schema.push(text_field(Self::map_key(IMAGE_ORIENTATION_PATIENT)));
        schema.push(text_field(Self::map_key(WINDOW_CENTER)));
        schema.push(text_field(Self::map_key(WINDOW_WIDTH)));
        schema.push(text_field(Self::map_key(PHOTOMETRIC_INTERPRETATION)));
        schema.push(number_field(Self::map_key(BITS_ALLOCATED)));
        schema.push(number_field(Self::map_key(HIGH_BIT)));
        schema.push(number_field(Self::map_key(BITS_STORED)));
        schema.push(number_field(Self::map_key(SAMPLES_PER_PIXEL)));
        schema.push(number_field(Self::map_key(PIXEL_REPRESENTATION)));
        proof {
            Self::lemma_field_tags();
            assert(schema.deep_view() =~= Self::schema_spec());
        }
        schema
    }

    /// The record: one member for each field, in the order of the fields.
    pub fn to_entries(&self) -> (entries: Vec<Entry>)
        ensures
            entries.deep_view() == self.record(),
    {
        let mut entries: Vec<Entry> = Vec::new();
        entries.push(
            Entry::number(String::from_str(Self::map_key(INSTANCE_NUMBER)), self.inst_num as u64),
        );
        entries.push(
            Entry::text(String::from_str(Self::map_key(SOP_INSTANCE_UID)), self.sop_uid.clone()),
        );
        entries.push(
            Entry::number(String::from_str(Self::map_key(ROWS)), self.rows as u64),
        );
        entries.push(
            Entry::number(String::from_str(Self::map_key(COLUMNS)), self.cols as u64),
        );
        entries.push(
            Entry::text(String::from_str(Self::map_key(PIXEL_SPACING)), self.pixel_spacing.clone()),
        );
        entries.push(
            Entry::text(String::from_str(Self::map_key(SLICE_LOCATION)), self.slice_location.clone()),
        );
        entries.push(
            Entry::text(String::from_str(Self::map_key(SLICE_THICKNESS)), self.slice_thickness.clone()),
        );
        entries.push(
            Entry::text(String::from_str(Self::map_key(IMAGE_POSITION_PATIENT)), self.image_position.clone()),
        );
        entries.push(
            Entry::text(String::from_str(Self::map_key(IMAGE_ORIENTATION_PATIENT)), self.image_orientation.clone()),
        );
        entries.push(
            Entry::text(String::from_str(Self::map_key(WINDOW_CENTER)), self.window_center.clone()),
        );
        entries.push(
            Entry::text(String::from_str(Self::map_key(WINDOW_WIDTH)), self.window_width.clone()),
        );
        entries.push(
            Entry::text(String::from_str(Self::map_key(PHOTOMETRIC_INTERPRETATION)), self.photometric_interpretation.clone()),
        );
        entries.push(
            Entry::number(String::from_str(Self::map_key(BITS_ALLOCATED)), self.bits_allocated as u64),
        );
        entries.push(
            Entry::number(String::from_str(Self::map_key(HIGH_BIT)), self.high_bit as u64),
        );
        entries.push(
            Entry::number(String::from_str(Self::map_key(BITS_STORED)), self.bit_stored as u64),
        );
        entries.push(
            Entry::number(String::from_str(Self::map_key(SAMPLES_PER_PIXEL)), self.samples_per_pixel as u64),
        );
        entries.push(
            Entry::number(String::from_str(Self::map_key(PIXEL_REPRESENTATION)), self.pixel_representation as u64),
        );
        proof {
            Self::lemma_field_tags();
            assert(entries.deep_view() =~= self.record());
        }
        entries
    }

    /// Reads the fields from a record. Every field must have a member with a
    /// value of its kind; members with other keys are passed over.
    pub fn from_entries(entries: &Vec<Entry>) -> (result: Result<Self, DecodeError>)
        ensures
            match decode_spec(Self::schema_spec(), Self::rules(), entries.deep_view()) {
                Ok(values) => result is Ok && result.unwrap().values() == values,
                Err(fault) => result == Err::<Self, DecodeError>(fault),
            },
    {
        let rules = DecodeRules { reject_duplicates: false, unknown_must_be_text: false };
        proof {
            Self::lemma_schema_distinct();
        }
        match decode(&Self::schema(), rules, entries) {
            Ok(values) => {
                proof {
                    Self::lemma_field_tags();
                    lemma_fitting_values(Self::schema_spec(), values);
                }
                let info = Self {
                    inst_num: number_at(&values, 0),
                    sop_uid: text_at(&values, 1),
                    rows: number_at(&values, 2),
                    cols: number_at(&values, 3),
                    pixel_spacing: text_at(&values, 4),
                    slice_location: text_at(&values, 5),
                    slice_thickness: text_at(&values, 6),
                    image_position: text_at(&values, 7),
                    image_orientation: text_at(&values, 8),
                    window_center: text_at(&values, 9),
                    window_width: text_at(&values, 10),
                    photometric_interpretation: text_at(&values, 11),
                    bits_allocated: number_at(&values, 12),
                    high_bit: number_at(&values, 13),
                    bit_stored: number_at(&values, 14),
                    samples_per_pixel: number_at(&values, 15),
                    pixel_representation: number_at(&values, 16),
                };
                assert(info.values() =~= values.deep_view());
                Ok(info)
            },
            Err(fault) => Err(fault),
        }
    }

    /// The record as JSON text.
    pub fn to_json(&self) -> (text: String)
        ensures
            text@ == record_text(self.record()),
    {
        render_record(&self.to_entries())
    }

    /// No two fields are filed under the same key.
    pub proof fn lemma_schema_distinct()
        ensures
            distinct_keys(Self::schema_spec()),
    {
        let tags = Self::field_tags();
        let schema = Self::schema_spec();
        Self::lemma_field_tags();
        assert forall|a: int, b: int| 0 <= a < b < schema.len() implies (#[trigger] schema[a]).key
            != (#[trigger] schema[b]).key by {
            if schema[a].key == schema[b].key {
                lemma_hex_key_injective(tags[a], tags[b]);
            }
        }
    }

    /// Reading the record written from the fields gives the fields back.
    pub proof fn lemma_round_trip(&self)
        ensures
            decode_spec(Self::schema_spec(), Self::rules(), self.record()) == Ok::<
                Seq<JsonModel>,
                DecodeError,
            >(self.values()),
    {
        Self::lemma_schema_distinct();
        Self::lemma_field_tags();
        assert(values_fit(Self::schema_spec(), self.values()));
        lemma_decode_encode(Self::schema_spec(), Self::rules(), self.values());
    }
}

} // verus!
