use dicom_batch::tags;
use dicom_batch::tags::{json_key, tag_element, tag_group, tag_to_string};
use dicom_core::Tag;
use dicom_dictionary_std::tags as std_tags;

fn code(tag: Tag) -> u32 {
    ((tag.group() as u32) << 16) | tag.element() as u32
}

#[test]
fn tags_are_those_of_the_standard_dictionary() {
    assert_eq!(tags::SPECIFIC_CHARACTER_SET, code(std_tags::SPECIFIC_CHARACTER_SET));
    assert_eq!(tags::IMAGE_TYPE, code(std_tags::IMAGE_TYPE));
    assert_eq!(tags::SOP_CLASS_UID, code(std_tags::SOP_CLASS_UID));
    assert_eq!(tags::SOP_INSTANCE_UID, code(std_tags::SOP_INSTANCE_UID));
    assert_eq!(tags::STUDY_DATE, code(std_tags::STUDY_DATE));
    assert_eq!(tags::SERIES_DATE, code(std_tags::SERIES_DATE));
    assert_eq!(tags::STUDY_TIME, code(std_tags::STUDY_TIME));
    assert_eq!(tags::SERIES_TIME, code(std_tags::SERIES_TIME));
    assert_eq!(tags::ACCESSION_NUMBER, code(std_tags::ACCESSION_NUMBER));
    assert_eq!(tags::MODALITY, code(std_tags::MODALITY));
    assert_eq!(tags::MANUFACTURER, code(std_tags::MANUFACTURER));
    assert_eq!(tags::INSTITUTION_NAME, code(std_tags::INSTITUTION_NAME));
    assert_eq!(tags::INSTITUTION_ADDRESS, code(std_tags::INSTITUTION_ADDRESS));
    assert_eq!(tags::STUDY_DESCRIPTION, code(std_tags::STUDY_DESCRIPTION));
    assert_eq!(tags::SERIES_DESCRIPTION, code(std_tags::SERIES_DESCRIPTION));
    assert_eq!(tags::PATIENT_NAME, code(std_tags::PATIENT_NAME));
    assert_eq!(tags::PATIENT_ID, code(std_tags::PATIENT_ID));
    assert_eq!(tags::PATIENT_BIRTH_DATE, code(std_tags::PATIENT_BIRTH_DATE));
    assert_eq!(tags::PATIENT_BIRTH_TIME, code(std_tags::PATIENT_BIRTH_TIME));
    assert_eq!(tags::PATIENT_SEX, code(std_tags::PATIENT_SEX));
    assert_eq!(tags::PATIENT_AGE, code(std_tags::PATIENT_AGE));
    assert_eq!(tags::PATIENT_SIZE, code(std_tags::PATIENT_SIZE));
    assert_eq!(tags::PATIENT_WEIGHT, code(std_tags::PATIENT_WEIGHT));
    assert_eq!(tags::ETHNIC_GROUP, code(std_tags::ETHNIC_GROUP));
    assert_eq!(tags::OCCUPATION, code(std_tags::OCCUPATION));
    assert_eq!(tags::BODY_PART_EXAMINED, code(std_tags::BODY_PART_EXAMINED));
    assert_eq!(tags::SLICE_THICKNESS, code(std_tags::SLICE_THICKNESS));
    assert_eq!(tags::PATIENT_POSITION, code(std_tags::PATIENT_POSITION));
    assert_eq!(tags::STUDY_INSTANCE_UID, code(std_tags::STUDY_INSTANCE_UID));
    assert_eq!(tags::SERIES_INSTANCE_UID, code(std_tags::SERIES_INSTANCE_UID));
    assert_eq!(tags::STUDY_ID, code(std_tags::STUDY_ID));
    assert_eq!(tags::SERIES_NUMBER, code(std_tags::SERIES_NUMBER));
    assert_eq!(tags::INSTANCE_NUMBER, code(std_tags::INSTANCE_NUMBER));
    assert_eq!(tags::IMAGE_POSITION_PATIENT, code(std_tags::IMAGE_POSITION_PATIENT));
    assert_eq!(tags::IMAGE_ORIENTATION_PATIENT, code(std_tags::IMAGE_ORIENTATION_PATIENT));
    assert_eq!(tags::SLICE_LOCATION, code(std_tags::SLICE_LOCATION));
    assert_eq!(tags::SAMPLES_PER_PIXEL, code(std_tags::SAMPLES_PER_PIXEL));
    assert_eq!(tags::PHOTOMETRIC_INTERPRETATION, code(std_tags::PHOTOMETRIC_INTERPRETATION));
    assert_eq!(tags::ROWS, code(std_tags::ROWS));
    assert_eq!(tags::COLUMNS, code(std_tags::COLUMNS));
    assert_eq!(tags::PIXEL_SPACING, code(std_tags::PIXEL_SPACING));
    assert_eq!(tags::BITS_ALLOCATED, code(std_tags::BITS_ALLOCATED));
    assert_eq!(tags::BITS_STORED, code(std_tags::BITS_STORED));
    assert_eq!(tags::HIGH_BIT, code(std_tags::HIGH_BIT));
    assert_eq!(tags::PIXEL_REPRESENTATION, code(std_tags::PIXEL_REPRESENTATION));
    assert_eq!(tags::WINDOW_CENTER, code(std_tags::WINDOW_CENTER));
    assert_eq!(tags::WINDOW_WIDTH, code(std_tags::WINDOW_WIDTH));
    assert_eq!(tags::RESCALE_INTERCEPT, code(std_tags::RESCALE_INTERCEPT));
    assert_eq!(tags::RESCALE_SLOPE, code(std_tags::RESCALE_SLOPE));
    assert_eq!(tags::RESCALE_TYPE, code(std_tags::RESCALE_TYPE));
    assert_eq!(tags::TRANSFER_SYNTAX_UID, code(std_tags::TRANSFER_SYNTAX_UID));
    assert_eq!(tags::PIXEL_DATA, code(std_tags::PIXEL_DATA));
}

#[test]
fn keys_are_eight_upper_case_hex_digits() {
    assert_eq!(tag_to_string(tags::SERIES_INSTANCE_UID), "0020000E");
    assert_eq!(tag_to_string(tags::SERIES_DESCRIPTION), "0008103E");
    assert_eq!(tag_to_string(0x0000_0000), "00000000");
    assert_eq!(tag_to_string(0xFFFF_FFFF), "FFFFFFFF");
    assert_eq!(tag_to_string(0x7FE0_0010), "7FE00010");
    assert_eq!(tag_to_string(0x1234_ABCD), "1234ABCD");
    assert_eq!(tag_to_string(0x0009_A0F1), "0009A0F1");
    assert_eq!(json_key(tags::PATIENT_ID), "00100020");
    assert_eq!(json_key(tags::STUDY_INSTANCE_UID), "0020000D");
    assert_eq!(json_key(0xABCD_EF01), "ABCDEF01");
}

#[test]
fn keys_agree_with_the_format_of_the_tag() {
    for tag in [0u32, 1, 0x10, 0x0010_0020, 0x7FE0_0010, 0x00FF_FF00, 0xDEAD_BEEF, u32::MAX] {
        let group = tag_group(tag);
        let element = tag_element(tag);
        assert_eq!(tag_to_string(tag), format!("{:04X}{:04X}", group, element));
        assert_eq!(json_key(tag), format!("{:04X}{:04X}", group, element));
        assert_eq!(((group as u32) << 16) | element as u32, tag);
    }
}

#[test]
fn halves_of_a_tag() {
    assert_eq!(tag_group(tags::PATIENT_ID), 0x0010);
    assert_eq!(tag_element(tags::PATIENT_ID), 0x0020);
    assert_eq!(tag_group(tags::PIXEL_DATA), 0x7FE0);
    assert_eq!(tag_element(tags::SERIES_INSTANCE_UID), 0x000E);
}
