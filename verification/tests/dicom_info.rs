use dicom_batch::codec::DecodeError;
use dicom_batch::dicom_info::DicomInfo;
use dicom_batch::record::{Entry, JsonValue};
use dicom_core::{DataElement, PrimitiveValue, VR};
use dicom_dictionary_std::{tags, uids};
use dicom_object::{
    DefaultDicomObject, FileMetaTableBuilder, IMPLEMENTATION_CLASS_UID,
    IMPLEMENTATION_VERSION_NAME,
};
use serde_json::Value;

fn entries_of(text: &str) -> Vec<Entry> {
    let value: Value = serde_json::from_str(text).unwrap();
    let mut entries = Vec::new();
    for (key, value) in value.as_object().unwrap() {
        let value = match value {
            Value::String(text) => JsonValue::Text(text.clone()),
            _ => JsonValue::Other,
        };
        entries.push(Entry { key: key.clone(), value });
    }
    entries
}

fn create_test_dicom_object() -> DefaultDicomObject {
    let sop_instance_uid = "2.25.60156688944589400766024286894543900794";
    let meta = FileMetaTableBuilder::new()
        .media_storage_sop_class_uid(uids::CT_IMAGE_STORAGE)
        .media_storage_sop_instance_uid(sop_instance_uid)
        .transfer_syntax(dicom_transfer_syntax_registry::entries::EXPLICIT_VR_LITTLE_ENDIAN.uid())
        .implementation_class_uid(IMPLEMENTATION_CLASS_UID)
        .implementation_version_name(IMPLEMENTATION_VERSION_NAME)
        .build()
        .unwrap();

    let mut obj = DefaultDicomObject::new_empty_with_meta(meta);

    obj.put(DataElement::new(
        tags::SPECIFIC_CHARACTER_SET,
        VR::CS,
        PrimitiveValue::from("ISO_IR 100"),
    ));
    obj.put(DataElement::new(
        tags::IMAGE_TYPE,
        VR::CS,
        PrimitiveValue::from("ORIGINAL\\PRIMARY\\AXIAL"),
    ));
    obj.put(DataElement::new(tags::INSTANCE_NUMBER, VR::IS, PrimitiveValue::from("123")));
    obj.put(DataElement::new(tags::PATIENT_ID, VR::LO, PrimitiveValue::from("P1234567")));
    obj.put(DataElement::new(tags::PATIENT_NAME, VR::PN, PrimitiveValue::from("Doe^John")));
    obj.put(DataElement::new(tags::PATIENT_AGE, VR::AS, PrimitiveValue::from("045Y")));
    obj.put(DataElement::new(tags::PATIENT_SEX, VR::CS, PrimitiveValue::from("M")));
    obj.put(DataElement::new(
        tags::STUDY_INSTANCE_UID,
        VR::UI,
        PrimitiveValue::from("1.2.3.4.5.6.7.8"),
    ));
    obj.put(DataElement::new(
        tags::SERIES_INSTANCE_UID,
        VR::UI,
        PrimitiveValue::from("1.2.3.4.5.6.7.8.1"),
    ));
    obj.put(DataElement::new(tags::ROWS, VR::US, PrimitiveValue::from(512u16)));
    obj.put(DataElement::new(tags::COLUMNS, VR::US, PrimitiveValue::from(512u16)));
    obj.put(DataElement::new(tags::WINDOW_CENTER, VR::DS, PrimitiveValue::from("40")));
    obj.put(DataElement::new(tags::WINDOW_WIDTH, VR::DS, PrimitiveValue::from("400")));
    obj.put(DataElement::new(tags::MODALITY, VR::CS, PrimitiveValue::from("CT")));
    obj.put(DataElement::new(tags::BODY_PART_EXAMINED, VR::CS, PrimitiveValue::from("CHEST")));

    let _c = vec!["0.5", "0.5"];
    obj.put(DataElement::new(
        tags::PIXEL_SPACING,
        VR::DS,
        PrimitiveValue::from(_c.join("\\")),
    ));

    obj.put(DataElement::new(tags::SLICE_THICKNESS, VR::DS, PrimitiveValue::from("5.0")));
    obj.put(DataElement::new(tags::RESCALE_SLOPE, VR::DS, PrimitiveValue::from("1.0")));
    obj.put(DataElement::new(tags::RESCALE_INTERCEPT, VR::DS, PrimitiveValue::from("-1000")));

    obj
}

#[test]
fn dicom_info_test_serialize_deserialize_all_fields() {
    let obj = create_test_dicom_object();
    let info = DicomInfo::new(&obj);

    let serialized = info.to_json();

    let deserialized = DicomInfo::from_entries(&entries_of(&serialized)).unwrap();

    assert_eq!(info.transfer_syntax_uid, deserialized.transfer_syntax_uid);
    assert_eq!(info.specific_character_set, deserialized.specific_character_set);
    assert_eq!(info.sop_class_uid, deserialized.sop_class_uid);
    assert_eq!(info.sop_instance_uid, deserialized.sop_instance_uid);
    assert_eq!(info.image_type, deserialized.image_type);
    assert_eq!(info.study_uid, deserialized.study_uid);
    assert_eq!(info.series_uid, deserialized.series_uid);
    assert_eq!(info.patient_id, deserialized.patient_id);
    assert_eq!(info.patient_name, deserialized.patient_name);
    assert_eq!(info.patient_sex, deserialized.patient_sex);
    assert_eq!(info.patient_age, deserialized.patient_age);
    assert_eq!(info.patient_size, deserialized.patient_size);
    assert_eq!(info.patient_weight, deserialized.patient_weight);
    assert_eq!(info.patient_birth_date, deserialized.patient_birth_date);
    assert_eq!(info.patient_birth_time, deserialized.patient_birth_time);
    assert_eq!(info.patient_ethnic_group, deserialized.patient_ethnic_group);
    assert_eq!(info.patient_occupation, deserialized.patient_occupation);
    assert_eq!(info.instance_number, deserialized.instance_number);
    assert_eq!(info.rows, deserialized.rows);
    assert_eq!(info.columns, deserialized.columns);
    assert_eq!(info.pixel_spacing, deserialized.pixel_spacing);
    assert_eq!(info.slice_thickness, deserialized.slice_thickness);
    assert_eq!(info.slice_location, deserialized.slice_location);
    assert_eq!(info.window_center, deserialized.window_center);
    assert_eq!(info.window_width, deserialized.window_width);
    assert_eq!(info.rescale_intercept, deserialized.rescale_intercept);
    assert_eq!(info.rescale_slope, deserialized.rescale_slope);
    assert_eq!(info.rescale_type, deserialized.rescale_type);
    assert_eq!(info.image_position_patient, deserialized.image_position_patient);
    assert_eq!(info.image_orientation_patient, deserialized.image_orientation_patient);
    assert_eq!(info.bits_allocated, deserialized.bits_allocated);
    assert_eq!(info.bits_stored, deserialized.bits_stored);
    assert_eq!(info.high_bit, deserialized.high_bit);
    assert_eq!(info.pixel_representation, deserialized.pixel_representation);
    assert_eq!(info.samples_per_pixel, deserialized.samples_per_pixel);
    assert_eq!(info.photometric_interpretation, deserialized.photometric_interpretation);
    assert_eq!(info.modality, deserialized.modality);
    assert_eq!(info.body_part_examined, deserialized.body_part_examined);
    assert_eq!(info.series_description, deserialized.series_description);
    assert_eq!(info.series_number, deserialized.series_number);
    assert_eq!(info.series_date, deserialized.series_date);
    assert_eq!(info.series_time, deserialized.series_time);
    assert_eq!(info.study_description, deserialized.study_description);
    assert_eq!(info.study_id, deserialized.study_id);
    assert_eq!(info.study_date, deserialized.study_date);
    assert_eq!(info.study_time, deserialized.study_time);
    assert_eq!(info.accession_number, deserialized.accession_number);
}

#[test]
fn dicom_info_reads_what_the_object_holds() {
    let obj = create_test_dicom_object();
    let info = DicomInfo::new(&obj);
    assert_eq!(info.transfer_syntax_uid, "1.2.840.10008.1.2.1");
    assert_eq!(info.specific_character_set, "ISO_IR 100");
    assert_eq!(info.image_type, "ORIGINAL\\PRIMARY\\AXIAL");
    assert_eq!(info.instance_number, "123");
    assert_eq!(info.patient_id, "P1234567");
    assert_eq!(info.patient_name, "Doe^John");
    assert_eq!(info.rows, "512");
    assert_eq!(info.columns, "512");
    assert_eq!(info.pixel_spacing, "0.5\\0.5");
    assert_eq!(info.rescale_intercept, "-1000");
    assert_eq!(info.modality, "CT");
    assert_eq!(info.body_part_examined, "CHEST");
    assert_eq!(info.study_id, "");
    assert_eq!(info.accession_number, "");
}

#[test]
fn dicom_info_record_order() {
    let info = DicomInfo::new(&create_test_dicom_object());
    let entries = info.to_entries();
    assert_eq!(entries.len(), 47);
    let keys: Vec<&str> = entries.iter().map(|entry| entry.key.as_str()).collect();
    assert_eq!(
        &keys[..5],
        &["00020010", "00080016", "00080018", "00080005", "00080008"]
    );
    assert_eq!(&keys[10..15], &["00101010", "00100030", "00100032", "00101020", "00101030"]);
    assert_eq!(keys[46], "00080050");
    assert!(matches!(&entries[3].value, JsonValue::Text(text) if text == "ISO_IR 100"));
}

#[test]
fn dicom_info_second_member_of_a_field_is_refused() {
    let info = DicomInfo::new(&create_test_dicom_object());
    let mut entries = info.to_entries();
    entries.push(Entry { key: "00100020".to_string(), value: JsonValue::Text("again".to_string()) });
    assert_eq!(
        DicomInfo::from_entries(&entries).err(),
        Some(DecodeError::Duplicate { position: 47 })
    );
}

#[test]
fn dicom_info_missing_fields_are_reported_in_the_order_of_the_fields() {
    let info = DicomInfo::new(&create_test_dicom_object());
    let mut entries = info.to_entries();
    // the character set is the second field, and the fourth member of a record
    entries.remove(3);
    // the patient's size is the twelfth field
    entries.retain(|entry| entry.key != "00101020");
    assert_eq!(
        DicomInfo::from_entries(&entries).err(),
        Some(DecodeError::Missing { field: 1 })
    );
    entries.insert(0, Entry { key: "00080005".to_string(), value: JsonValue::Text(String::new()) });
    assert_eq!(
        DicomInfo::from_entries(&entries).err(),
        Some(DecodeError::Missing { field: 11 })
    );
}
