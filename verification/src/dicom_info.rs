//! All attributes of an object that this library reads, in one data class.

use vstd::prelude::*;
use dicom_object::DefaultDicomObject;
use crate::codec::{
    decode, decode_spec, distinct_keys, encode, encode_in_order, lemma_decode_encode_in_order,
    lemma_fitting_values, lists_each_once, text_at, text_schema, text_schema_spec, values_fit,
    DecodeError, DecodeRules, FieldModel, FieldSpec,
};
use crate::dcmobj::{get_string, object_field, object_transfer_syntax, transfer_syntax};
use crate::json::{record_text, render_record};
use crate::order::positions;
use crate::record::{Entry, EntryModel, JsonModel, JsonValue};
use crate::tags::{
    lemma_hex_key_injective, ACCESSION_NUMBER, BITS_ALLOCATED, BITS_STORED, BODY_PART_EXAMINED,
    COLUMNS, ETHNIC_GROUP, HIGH_BIT, IMAGE_ORIENTATION_PATIENT, IMAGE_POSITION_PATIENT, IMAGE_TYPE,
    INSTANCE_NUMBER, MODALITY, OCCUPATION, PATIENT_AGE, PATIENT_BIRTH_DATE, PATIENT_BIRTH_TIME,
    PATIENT_ID, PATIENT_NAME, PATIENT_SEX, PATIENT_SIZE, PATIENT_WEIGHT,
    PHOTOMETRIC_INTERPRETATION, PIXEL_REPRESENTATION, PIXEL_SPACING, RESCALE_INTERCEPT,
    RESCALE_SLOPE, RESCALE_TYPE, ROWS, SAMPLES_PER_PIXEL, SERIES_DATE, SERIES_DESCRIPTION,
    SERIES_INSTANCE_UID, SERIES_NUMBER, SERIES_TIME, SLICE_LOCATION, SLICE_THICKNESS,
    SOP_CLASS_UID, SOP_INSTANCE_UID, SPECIFIC_CHARACTER_SET, STUDY_DATE, STUDY_DESCRIPTION,
    STUDY_ID, STUDY_INSTANCE_UID, STUDY_TIME, TRANSFER_SYNTAX_UID, WINDOW_CENTER, WINDOW_WIDTH,
    Tag,
};

verus! {

/// All attributes of an object that this library reads.
#[derive(Debug, Clone)]
pub struct DicomInfo {
    pub transfer_syntax_uid: String,
    pub specific_character_set: String,
    pub sop_class_uid: String,
    pub sop_instance_uid: String,
    pub image_type: String,
    pub study_uid: String,
    pub series_uid: String,
    pub patient_id: String,
    pub patient_name: String,
    pub patient_sex: String,
    pub patient_age: String,
    pub patient_size: String,
    pub patient_weight: String,
    pub patient_birth_date: String,
    pub patient_birth_time: String,
    pub patient_ethnic_group: String,
    pub patient_occupation: String,
    pub instance_number: String,
    pub rows: String,
    pub columns: String,
    pub pixel_spacing: String,
    pub slice_thickness: String,
    pub slice_location: String,
    pub window_center: String,
    pub window_width: String,
    pub rescale_intercept: String,
    pub rescale_slope: String,
    pub rescale_type: String,
    pub image_position_patient: String,
    pub image_orientation_patient: String,
    pub bits_allocated: String,
    pub bits_stored: String,
    pub high_bit: String,
    pub pixel_representation: String,
    pub samples_per_pixel: String,
    pub photometric_interpretation: String,
    pub modality: String,
    pub body_part_examined: String,
    pub series_description: String,
    pub series_number: String,
    pub series_date: String,
    pub series_time: String,
    pub study_description: String,
    pub study_id: String,
    pub study_date: String,
    pub study_time: String,
    pub accession_number: String,
}

impl DicomInfo {
    /// The tags of the fields, in the order of the fields.
    pub open spec fn field_tags() -> Seq<Tag> {
        seq![
            TRANSFER_SYNTAX_UID, SPECIFIC_CHARACTER_SET, SOP_CLASS_UID, SOP_INSTANCE_UID,
            IMAGE_TYPE, STUDY_INSTANCE_UID, SERIES_INSTANCE_UID, PATIENT_ID, PATIENT_NAME,
            PATIENT_SEX, PATIENT_AGE, PATIENT_SIZE, PATIENT_WEIGHT, PATIENT_BIRTH_DATE,
            PATIENT_BIRTH_TIME, ETHNIC_GROUP, OCCUPATION, INSTANCE_NUMBER, ROWS, COLUMNS,
            PIXEL_SPACING, SLICE_THICKNESS, SLICE_LOCATION, WINDOW_CENTER, WINDOW_WIDTH,
            RESCALE_INTERCEPT, RESCALE_SLOPE, RESCALE_TYPE, IMAGE_POSITION_PATIENT,
            IMAGE_ORIENTATION_PATIENT, BITS_ALLOCATED, BITS_STORED, HIGH_BIT, PIXEL_REPRESENTATION,
            SAMPLES_PER_PIXEL, PHOTOMETRIC_INTERPRETATION, MODALITY, BODY_PART_EXAMINED,
            SERIES_DESCRIPTION, SERIES_NUMBER, SERIES_DATE, SERIES_TIME, STUDY_DESCRIPTION,
            STUDY_ID, STUDY_DATE, STUDY_TIME, ACCESSION_NUMBER,
        ]
    }

    /// The fields: each is filed under the key of its tag and takes a text.
    pub open spec fn schema_spec() -> Seq<FieldModel> {
        text_schema_spec(Self::field_tags())
    }

    /// What a record must meet beyond having the fields: no field has two
    /// members.
    pub open spec fn rules() -> DecodeRules {
        DecodeRules { reject_duplicates: true, unknown_must_be_text: false }
    }

    /// The order in which a record lists the fields: for each member the index of
    /// its field.
    pub open spec fn record_order() -> Seq<int> {
        seq![
            0int, 2int, 3int, 1int, 4int, 5int, 6int, 7int, 8int, 9int, 10int, 13int, 14int, 11int,
            12int, 15int, 16int, 17int, 18int, 19int, 20int, 21int, 22int, 23int, 24int, 25int,
            26int, 27int, 28int, 29int, 30int, 31int, 32int, 33int, 34int, 35int, 36int, 37int,
            38int, 39int, 40int, 41int, 42int, 43int, 44int, 45int, 46int,
        ]
    }

    /// The values of the fields, in the order of the fields.
    pub open spec fn values(&self) -> Seq<JsonModel> {
        seq![
            JsonModel::Text(self.transfer_syntax_uid@),
            JsonModel::Text(self.specific_character_set@),
            JsonModel::Text(self.sop_class_uid@),
            JsonModel::Text(self.sop_instance_uid@),
            JsonModel::Text(self.image_type@),
            JsonModel::Text(self.study_uid@),
            JsonModel::Text(self.series_uid@),
            JsonModel::Text(self.patient_id@),
            JsonModel::Text(self.patient_name@),
            JsonModel::Text(self.patient_sex@),
            JsonModel::Text(self.patient_age@),
            JsonModel::Text(self.patient_size@),
            JsonModel::Text(self.patient_weight@),
            JsonModel::Text(self.patient_birth_date@),
            JsonModel::Text(self.patient_birth_time@),
            JsonModel::Text(self.patient_ethnic_group@),
            JsonModel::Text(self.patient_occupation@),
            JsonModel::Text(self.instance_number@),
            JsonModel::Text(self.rows@),
            JsonModel::Text(self.columns@),
            JsonModel::Text(self.pixel_spacing@),
            JsonModel::Text(self.slice_thickness@),
            JsonModel::Text(self.slice_location@),
            JsonModel::Text(self.window_center@),
            JsonModel::Text(self.window_width@),
            JsonModel::Text(self.rescale_intercept@),
            JsonModel::Text(self.rescale_slope@),
            JsonModel::Text(self.rescale_type@),
            JsonModel::Text(self.image_position_patient@),
            JsonModel::Text(self.image_orientation_patient@),
            JsonModel::Text(self.bits_allocated@),
            JsonModel::Text(self.bits_stored@),
            JsonModel::Text(self.high_bit@),
            JsonModel::Text(self.pixel_representation@),
            JsonModel::Text(self.samples_per_pixel@),
            JsonModel::Text(self.photometric_interpretation@),
            JsonModel::Text(self.modality@),
            JsonModel::Text(self.body_part_examined@),
            JsonModel::Text(self.series_description@),
            JsonModel::Text(self.series_number@),
            JsonModel::Text(self.series_date@),
            JsonModel::Text(self.series_time@),
            JsonModel::Text(self.study_description@),
            JsonModel::Text(self.study_id@),
            JsonModel::Text(self.study_date@),
            JsonModel::Text(self.study_time@),
            JsonModel::Text(self.accession_number@),
        ]
    }

    /// The record: one member for each field, in the order in which a record
    /// lists them.
    pub open spec fn record(&self) -> Seq<EntryModel> {
        encode_in_order(Self::schema_spec(), self.values(), Self::record_order())
    }

    /// Reads the attributes from an object: the transfer syntax from its file
    /// meta group, everything else from its data set. An attribute that the
    /// data set does not have is empty.
    pub fn new(obj: &DefaultDicomObject) -> (info: Self)
        ensures
            info.transfer_syntax_uid@ == object_transfer_syntax(*obj),
            info.specific_character_set@ == object_field(*obj, SPECIFIC_CHARACTER_SET),
            info.sop_class_uid@ == object_field(*obj, SOP_CLASS_UID),
            info.sop_instance_uid@ == object_field(*obj, SOP_INSTANCE_UID),
            info.image_type@ == object_field(*obj, IMAGE_TYPE),
            info.study_uid@ == object_field(*obj, STUDY_INSTANCE_UID),
            info.series_uid@ == object_field(*obj, SERIES_INSTANCE_UID),
            info.patient_id@ == object_field(*obj, PATIENT_ID),
            info.patient_name@ == object_field(*obj, PATIENT_NAME),
            info.patient_sex@ == object_field(*obj, PATIENT_SEX),
            info.patient_age@ == object_field(*obj, PATIENT_AGE),
            info.patient_size@ == object_field(*obj, PATIENT_SIZE),
            info.patient_weight@ == object_field(*obj, PATIENT_WEIGHT),
            info.patient_birth_date@ == object_field(*obj, PATIENT_BIRTH_DATE),
            info.patient_birth_time@ == object_field(*obj, PATIENT_BIRTH_TIME),
            info.patient_ethnic_group@ == object_field(*obj, ETHNIC_GROUP),
            info.patient_occupation@ == object_field(*obj, OCCUPATION),
            info.instance_number@ == object_field(*obj, INSTANCE_NUMBER),
            info.rows@ == object_field(*obj, ROWS),
            info.columns@ == object_field(*obj, COLUMNS),
            info.pixel_spacing@ == object_field(*obj, PIXEL_SPACING),
            info.slice_thickness@ == object_field(*obj, SLICE_THICKNESS),
            info.slice_location@ == object_field(*obj, SLICE_LOCATION),
            info.window_center@ == object_field(*obj, WINDOW_CENTER),
            info.window_width@ == object_field(*obj, WINDOW_WIDTH),
            info.rescale_intercept@ == object_field(*obj, RESCALE_INTERCEPT),
            info.rescale_slope@ == object_field(*obj, RESCALE_SLOPE),
            info.rescale_type@ == object_field(*obj, RESCALE_TYPE),
            info.image_position_patient@ == object_field(*obj, IMAGE_POSITION_PATIENT),
            info.image_orientation_patient@ == object_field(*obj, IMAGE_ORIENTATION_PATIENT),
            info.bits_allocated@ == object_field(*obj, BITS_ALLOCATED),
            info.bits_stored@ == object_field(*obj, BITS_STORED),
            info.high_bit@ == object_field(*obj, HIGH_BIT),
            info.pixel_representation@ == object_field(*obj, PIXEL_REPRESENTATION),
            info.samples_per_pixel@ == object_field(*obj, SAMPLES_PER_PIXEL),
            info.photometric_interpretation@ == object_field(*obj, PHOTOMETRIC_INTERPRETATION),
            info.modality@ == object_field(*obj, MODALITY),
            info.body_part_examined@ == object_field(*obj, BODY_PART_EXAMINED),
            info.series_description@ == object_field(*obj, SERIES_DESCRIPTION),
            info.series_number@ == object_field(*obj, SERIES_NUMBER),
            info.series_date@ == object_field(*obj, SERIES_DATE),
            info.series_time@ == object_field(*obj, SERIES_TIME),
            info.study_description@ == object_field(*obj, STUDY_DESCRIPTION),
            info.study_id@ == object_field(*obj, STUDY_ID),
            info.study_date@ == object_field(*obj, STUDY_DATE),
            info.study_time@ == object_field(*obj, STUDY_TIME),
            info.accession_number@ == object_field(*obj, ACCESSION_NUMBER),
    {
        Self {
            transfer_syntax_uid: transfer_syntax(obj),
            specific_character_set: get_string(SPECIFIC_CHARACTER_SET, obj),
            sop_class_uid: get_string(SOP_CLASS_UID, obj),
            sop_instance_uid: get_string(SOP_INSTANCE_UID, obj),
            image_type: get_string(IMAGE_TYPE, obj),
            study_uid: get_string(STUDY_INSTANCE_UID, obj),
            series_uid: get_string(SERIES_INSTANCE_UID, obj),
            patient_id: get_string(PATIENT_ID, obj),
            patient_name: get_string(PATIENT_NAME, obj),
            patient_sex: get_string(PATIENT_SEX, obj),
            patient_age: get_string(PATIENT_AGE, obj),
            patient_size: get_string(PATIENT_SIZE, obj),
            patient_weight: get_string(PATIENT_WEIGHT, obj),
            patient_birth_date: get_string(PATIENT_BIRTH_DATE, obj),
            patient_birth_time: get_string(PATIENT_BIRTH_TIME, obj),
            patient_ethnic_group: get_string(ETHNIC_GROUP, obj),
            patient_occupation: get_string(OCCUPATION, obj),
            instance_number: get_string(INSTANCE_NUMBER, obj),
            rows: get_string(ROWS, obj),
            columns: get_string(COLUMNS, obj),
            pixel_spacing: get_string(PIXEL_SPACING, obj),
            slice_thickness: get_string(SLICE_THICKNESS, obj),
            slice_location: get_string(SLICE_LOCATION, obj),
            window_center: get_string(WINDOW_CENTER, obj),
            window_width: get_string(WINDOW_WIDTH, obj),
            rescale_intercept: get_string(RESCALE_INTERCEPT, obj),
            rescale_slope: get_string(RESCALE_SLOPE, obj),
            rescale_type: get_string(RESCALE_TYPE, obj),
            image_position_patient: get_string(IMAGE_POSITION_PATIENT, obj),
            image_orientation_patient: get_string(IMAGE_ORIENTATION_PATIENT, obj),
            bits_allocated: get_string(BITS_ALLOCATED, obj),
            bits_stored: get_string(BITS_STORED, obj),
            high_bit: get_string(HIGH_BIT, obj),
            pixel_representation: get_string(PIXEL_REPRESENTATION, obj),
            samples_per_pixel: get_string(SAMPLES_PER_PIXEL, obj),
            photometric_interpretation: get_string(PHOTOMETRIC_INTERPRETATION, obj),
            modality: get_string(MODALITY, obj),
            body_part_examined: get_string(BODY_PART_EXAMINED, obj),
            series_description: get_string(SERIES_DESCRIPTION, obj),
            series_number: get_string(SERIES_NUMBER, obj),
            series_date: get_string(SERIES_DATE, obj),
            series_time: get_string(SERIES_TIME, obj),
            study_description: get_string(STUDY_DESCRIPTION, obj),
            study_id: get_string(STUDY_ID, obj),
            study_date: get_string(STUDY_DATE, obj),
            study_time: get_string(STUDY_TIME, obj),
            accession_number: get_string(ACCESSION_NUMBER, obj),
        }
    }

    /// The tag of each field by the index of the field, and the field of each
    /// member of a record by the position of the member.
    proof fn lemma_field_tags()
        ensures
            Self::field_tags().len() == 47,
            Self::field_tags()[0] == TRANSFER_SYNTAX_UID,
            Self::field_tags()[1] == SPECIFIC_CHARACTER_SET,
            Self::field_tags()[2] == SOP_CLASS_UID,
            Self::field_tags()[3] == SOP_INSTANCE_UID,
            Self::field_tags()[4] == IMAGE_TYPE,
            Self::field_tags()[5] == STUDY_INSTANCE_UID,
            Self::field_tags()[6] == SERIES_INSTANCE_UID,
            Self::field_tags()[7] == PATIENT_ID,
            Self::field_tags()[8] == PATIENT_NAME,
            Self::field_tags()[9] == PATIENT_SEX,
            Self::field_tags()[10] == PATIENT_AGE,
            Self::field_tags()[11] == PATIENT_SIZE,
            Self::field_tags()[12] == PATIENT_WEIGHT,
            Self::field_tags()[13] == PATIENT_BIRTH_DATE,
            Self::field_tags()[14] == PATIENT_BIRTH_TIME,
            Self::field_tags()[15] == ETHNIC_GROUP,
            Self::field_tags()[16] == OCCUPATION,
            Self::field_tags()[17] == INSTANCE_NUMBER,
            Self::field_tags()[18] == ROWS,
            Self::field_tags()[19] == COLUMNS,
            Self::field_tags()[20] == PIXEL_SPACING,
            Self::field_tags()[21] == SLICE_THICKNESS,
            Self::field_tags()[22] == SLICE_LOCATION,
            Self::field_tags()[23] == WINDOW_CENTER,
            Self::field_tags()[24] == WINDOW_WIDTH,
            Self::field_tags()[25] == RESCALE_INTERCEPT,
            Self::field_tags()[26] == RESCALE_SLOPE,
            Self::field_tags()[27] == RESCALE_TYPE,
            Self::field_tags()[28] == IMAGE_POSITION_PATIENT,
            Self::field_tags()[29] == IMAGE_ORIENTATION_PATIENT,
            Self::field_tags()[30] == BITS_ALLOCATED,
            Self::field_tags()[31] == BITS_STORED,
            Self::field_tags()[32] == HIGH_BIT,
            Self::field_tags()[33] == PIXEL_REPRESENTATION,
            Self::field_tags()[34] == SAMPLES_PER_PIXEL,
            Self::field_tags()[35] == PHOTOMETRIC_INTERPRETATION,
            Self::field_tags()[36] == MODALITY,
            Self::field_tags()[37] == BODY_PART_EXAMINED,
            Self::field_tags()[38] == SERIES_DESCRIPTION,
            Self::field_tags()[39] == SERIES_NUMBER,
            Self::field_tags()[40] == SERIES_DATE,
            Self::field_tags()[41] == SERIES_TIME,
            Self::field_tags()[42] == STUDY_DESCRIPTION,
            Self::field_tags()[43] == STUDY_ID,
            Self::field_tags()[44] == STUDY_DATE,
            Self::field_tags()[45] == STUDY_TIME,
            Self::field_tags()[46] == ACCESSION_NUMBER,
            Self::record_order().len() == 47,
            Self::record_order()[0] == 0,
            Self::record_order()[1] == 2,
            Self::record_order()[2] == 3,
            Self::record_order()[3] == 1,
            Self::record_order()[4] == 4,
            Self::record_order()[5] == 5,
            Self::record_order()[6] == 6,
            Self::record_order()[7] == 7,
            Self::record_order()[8] == 8,
            Self::record_order()[9] == 9,
            Self::record_order()[10] == 10,
            Self::record_order()[11] == 13,
            Self::record_order()[12] == 14,
            Self::record_order()[13] == 11,
            Self::record_order()[14] == 12,
            Self::record_order()[15] == 15,
            Self::record_order()[16] == 16,
            Self::record_order()[17] == 17,
            Self::record_order()[18] == 18,
            Self::record_order()[19] == 19,
            Self::record_order()[20] == 20,
            Self::record_order()[21] == 21,
            Self::record_order()[22] == 22,
            Self::record_order()[23] == 23,
            Self::record_order()[24] == 24,
            Self::record_order()[25] == 25,
            Self::record_order()[26] == 26,
            Self::record_order()[27] == 27,
            Self::record_order()[28] == 28,
            Self::record_order()[29] == 29,
            Self::record_order()[30] == 30,
            Self::record_order()[31] == 31,
            Self::record_order()[32] == 32,
            Self::record_order()[33] == 33,
            Self::record_order()[34] == 34,
            Self::record_order()[35] == 35,
            Self::record_order()[36] == 36,
            Self::record_order()[37] == 37,
            Self::record_order()[38] == 38,
            Self::record_order()[39] == 39,
            Self::record_order()[40] == 40,
            Self::record_order()[41] == 41,
            Self::record_order()[42] == 42,
            Self::record_order()[43] == 43,
            Self::record_order()[44] == 44,
            Self::record_order()[45] == 45,
            Self::record_order()[46] == 46,
    {
    }

    /// The fields of a record.
    pub fn schema() -> (schema: Vec<FieldSpec>)
        ensures
            schema.deep_view() == Self::schema_spec(),
    {
        let tags = vec![
            TRANSFER_SYNTAX_UID, SPECIFIC_CHARACTER_SET, SOP_CLASS_UID, SOP_INSTANCE_UID,
            IMAGE_TYPE, STUDY_INSTANCE_UID, SERIES_INSTANCE_UID, PATIENT_ID, PATIENT_NAME,
            PATIENT_SEX, PATIENT_AGE, PATIENT_SIZE, PATIENT_WEIGHT, PATIENT_BIRTH_DATE,
            PATIENT_BIRTH_TIME, ETHNIC_GROUP, OCCUPATION, INSTANCE_NUMBER, ROWS, COLUMNS,
            PIXEL_SPACING, SLICE_THICKNESS, SLICE_LOCATION, WINDOW_CENTER, WINDOW_WIDTH,
            RESCALE_INTERCEPT, RESCALE_SLOPE, RESCALE_TYPE, IMAGE_POSITION_PATIENT,
            IMAGE_ORIENTATION_PATIENT, BITS_ALLOCATED, BITS_STORED, HIGH_BIT, PIXEL_REPRESENTATION,
            SAMPLES_PER_PIXEL, PHOTOMETRIC_INTERPRETATION, MODALITY, BODY_PART_EXAMINED,
            SERIES_DESCRIPTION, SERIES_NUMBER, SERIES_DATE, SERIES_TIME, STUDY_DESCRIPTION,
            STUDY_ID, STUDY_DATE, STUDY_TIME, ACCESSION_NUMBER,
        ];
        let schema = text_schema(&tags);
        proof {
            assert(tags@ =~= Self::field_tags());
            assert(schema.deep_view() =~= Self::schema_spec());
        }
        schema
    }

    /// The values of the fields, in the order of the fields.
    pub fn to_values(&self) -> (values: Vec<JsonValue>)
        ensures
            values.deep_view() == self.values(),
    {
        let mut values: Vec<JsonValue> = Vec::new();
        values.push(JsonValue::Text(self.transfer_syntax_uid.clone()));
        values.push(JsonValue::Text(self.specific_character_set.clone()));
        values.push(JsonValue::Text(self.sop_class_uid.clone()));
        values.push(JsonValue::Text(self.sop_instance_uid.clone()));
        values.push(JsonValue::Text(self.image_type.clone()));
        values.push(JsonValue::Text(self.study_uid.clone()));
        values.push(JsonValue::Text(self.series_uid.clone()));
        values.push(JsonValue::Text(self.patient_id.clone()));
        values.push(JsonValue::Text(self.patient_name.clone()));
        values.push(JsonValue::Text(self.patient_sex.clone()));
        values.push(JsonValue::Text(self.patient_age.clone()));
        values.push(JsonValue::Text(self.patient_size.clone()));
        values.push(JsonValue::Text(self.patient_weight.clone()));
        values.push(JsonValue::Text(self.patient_birth_date.clone()));
        values.push(JsonValue::Text(self.patient_birth_time.clone()));
        values.push(JsonValue::Text(self.patient_ethnic_group.clone()));
        values.push(JsonValue::Text(self.patient_occupation.clone()));
        values.push(JsonValue::Text(self.instance_number.clone()));
        values.push(JsonValue::Text(self.rows.clone()));
        values.push(JsonValue::Text(self.columns.clone()));
        values.push(JsonValue::Text(self.pixel_spacing.clone()));
        values.push(JsonValue::Text(self.slice_thickness.clone()));
        values.push(JsonValue::Text(self.slice_location.clone()));
        values.push(JsonValue::Text(self.window_center.clone()));
        values.push(JsonValue::Text(self.window_width.clone()));
        values.push(JsonValue::Text(self.rescale_intercept.clone()));
        values.push(JsonValue::Text(self.rescale_slope.clone()));
        values.push(JsonValue::Text(self.rescale_type.clone()));
        values.push(JsonValue::Text(self.image_position_patient.clone()));
        values.push(JsonValue::Text(self.image_orientation_patient.clone()));
        values.push(JsonValue::Text(self.bits_allocated.clone()));
        values.push(JsonValue::Text(self.bits_stored.clone()));
        values.push(JsonValue::Text(self.high_bit.clone()));
        values.push(JsonValue::Text(self.pixel_representation.clone()));
        values.push(JsonValue::Text(self.samples_per_pixel.clone()));
        values.push(JsonValue::Text(self.photometric_interpretation.clone()));
        values.push(JsonValue::Text(self.modality.clone()));
        values.push(JsonValue::Text(self.body_part_examined.clone()));
        values.push(JsonValue::Text(self.series_description.clone()));
        values.push(JsonValue::Text(self.series_number.clone()));
        values.push(JsonValue::Text(self.series_date.clone()));
        values.push(JsonValue::Text(self.series_time.clone()));
        values.push(JsonValue::Text(self.study_description.clone()));
        values.push(JsonValue::Text(self.study_id.clone()));
        values.push(JsonValue::Text(self.study_date.clone()));
        values.push(JsonValue::Text(self.study_time.clone()));
        values.push(JsonValue::Text(self.accession_number.clone()));
        assert(values.deep_view() =~= self.values());
        values
    }

    /// The record: one member for each field, in the order in which a record
    /// lists them.
    pub fn to_entries(&self) -> (entries: Vec<Entry>)
        ensures
            entries.deep_view() == self.record(),
    {
        let order: Vec<usize> = vec![
            0, 2, 3, 1, 4, 5, 6, 7, 8, 9, 10, 13, 14, 11, 12, 15, 16, 17, 18, 19, 20, 21, 22, 23,
            24, 25, 26, 27, 28, 29, 30, 31, 32, 33, 34, 35, 36, 37, 38, 39, 40, 41, 42, 43, 44, 45,
            46,
        ];
        let schema = Self::schema();
        let values = self.to_values();
        proof {
            Self::lemma_field_tags();
            Self::lemma_record_order();
            assert(positions(order@) =~= Self::record_order());
            assert(schema.deep_view().len() == schema.len());
            assert(values.deep_view().len() == values.len());
            assert forall|i: int| 0 <= i < order.len() implies order[i] < schema.len() by {
                assert(positions(order@)[i] == order[i]);
            }
        }
        encode(&schema, &values, &order)
    }

    /// Reads the fields from a record. Every field must have one member, with a
    /// text; members with other keys are passed over.
    pub fn from_entries(entries: &Vec<Entry>) -> (result: Result<Self, DecodeError>)
        ensures
            match decode_spec(Self::schema_spec(), Self::rules(), entries.deep_view()) {
                Ok(values) => result is Ok && result.unwrap().values() == values,
                Err(fault) => result == Err::<Self, DecodeError>(fault),
            },
    {
        let rules = DecodeRules { reject_duplicates: true, unknown_must_be_text: false };
        proof {
            Self::lemma_schema_distinct();
        }
        match decode(&Self::schema(), rules, entries) {
            Ok(values) => {
                proof {
                    Self::lemma_field_tags();
                    lemma_fitting_values(Self::schema_spec(), values);
                }
                let info = Self {
                    transfer_syntax_uid: text_at(&values, 0),
                    specific_character_set: text_at(&values, 1),
                    sop_class_uid: text_at(&values, 2),
                    sop_instance_uid: text_at(&values, 3),
                    image_type: text_at(&values, 4),
                    study_uid: text_at(&values, 5),
                    series_uid: text_at(&values, 6),
                    patient_id: text_at(&values, 7),
                    patient_name: text_at(&values, 8),
                    patient_sex: text_at(&values, 9),
                    patient_age: text_at(&values, 10),
                    patient_size: text_at(&values, 11),
                    patient_weight: text_at(&values, 12),
                    patient_birth_date: text_at(&values, 13),
                    patient_birth_time: text_at(&values, 14),
                    patient_ethnic_group: text_at(&values, 15),
                    patient_occupation: text_at(&values, 16),
                    instance_number: text_at(&values, 17),
                    rows: text_at(&values, 18),
                    columns: text_at(&values, 19),
                    pixel_spacing: text_at(&values, 20),
                    slice_thickness: text_at(&values, 21),
                    slice_location: text_at(&values, 22),
                    window_center: text_at(&values, 23),
                    window_width: text_at(&values, 24),
                    rescale_intercept: text_at(&values, 25),
                    rescale_slope: text_at(&values, 26),
                    rescale_type: text_at(&values, 27),
                    image_position_patient: text_at(&values, 28),
                    image_orientation_patient: text_at(&values, 29),
                    bits_allocated: text_at(&values, 30),
                    bits_stored: text_at(&values, 31),
                    high_bit: text_at(&values, 32),
                    pixel_representation: text_at(&values, 33),
                    samples_per_pixel: text_at(&values, 34),
                    photometric_interpretation: text_at(&values, 35),
                    modality: text_at(&values, 36),
                    body_part_examined: text_at(&values, 37),
                    series_description: text_at(&values, 38),
                    series_number: text_at(&values, 39),
                    series_date: text_at(&values, 40),
                    series_time: text_at(&values, 41),
                    study_description: text_at(&values, 42),
                    study_id: text_at(&values, 43),
                    study_date: text_at(&values, 44),
                    study_time: text_at(&values, 45),
                    accession_number: text_at(&values, 46),
                };
                assert(info.values() =~= values.deep_view());
                Ok(info)
            },
            Err(fault) => Err(fault),
        }
    }

    /// The record as JSON text.
    pub fn to_json(&self) -> (text: String)
        ensures
            text@ == record_text(self.record()),
    {
        render_record(&self.to_entries())
    }

    /// No two fields are filed under the same key.
    pub proof fn lemma_schema_distinct()
        ensures
            distinct_keys(Self::schema_spec()),
    {
        let tags = Self::field_tags();
        let schema = Self::schema_spec();
        Self::lemma_field_tags();
        assert forall|a: int, b: int| 0 <= a < b < schema.len() implies (#[trigger] schema[a]).key
            != (#[trigger] schema[b]).key by {
            if schema[a].key == schema[b].key {
                lemma_hex_key_injective(tags[a], tags[b]);
            }
        }
    }

    /// A record lists each field once.
    pub proof fn lemma_record_order()
        ensures
            lists_each_once(Self::record_order(), Self::schema_spec().len() as int),
    {
        let order = Self::record_order();
        Self::lemma_field_tags();
        assert forall|j: int| 0 <= j < 47 implies order.contains(j) by {
            let at = Self::written_at(j);
            assert(order[at] == j);
        }
    }

    /// The position in a record of the member of the field with index `j`.
    pub open spec fn written_at(j: int) -> int {
        if j == 1 {
            3
        } else if j == 2 {
            1
        } else if j == 3 {
            2
        } else if j == 11 {
            13
        } else if j == 12 {
            14
        } else if j == 13 {
            11
        } else if j == 14 {
            12
        } else {
            j
        }
    }

    /// Reading the record written from the fields gives the fields back.
    pub proof fn lemma_round_trip(&self)
        ensures
            decode_spec(Self::schema_spec(), Self::rules(), self.record()) == Ok::<
                Seq<JsonModel>,
                DecodeError,
            >(self.values()),
    {
        Self::lemma_schema_distinct();
        Self::lemma_record_order();
        Self::lemma_field_tags();
        assert(values_fit(Self::schema_spec(), self.values()));
        lemma_decode_encode_in_order(
            Self::schema_spec(),
            Self::rules(),
            self.values(),
            Self::record_order(),
        );
    }
}

} // verus!
