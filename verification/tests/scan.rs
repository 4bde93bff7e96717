use dicom_batch::aggregate::{InstanceRecord, SeriesRecord};
use dicom_batch::codec::DecodeError;
use dicom_batch::dcmobj::{
    find_number, find_string, get_string, get_tag_value, object_to_bytes, read_object,
    read_object_until, transfer_syntax,
};
use dicom_batch::error::FileError;
use dicom_batch::json::render_record;
use dicom_batch::record::{Entry, JsonValue};
use dicom_batch::scan::{scan, scan_object};
use dicom_batch::tags::{
    BITS_ALLOCATED, INSTANCE_NUMBER, PATIENT_ID, PATIENT_NAME, PIXEL_DATA, ROWS, SERIES_NUMBER,
    STUDY_DATE,
};
use dicom_core::{DataElement, PrimitiveValue, VR};
use dicom_dictionary_std::{tags, uids};
use dicom_object::{DefaultDicomObject, FileMetaTableBuilder, InMemDicomObject};
use serde_json::Value;

fn full_object() -> DefaultDicomObject {
    let mut obj = InMemDicomObject::new_empty();
    let texts = [
        (tags::SOP_CLASS_UID, VR::UI, uids::CT_IMAGE_STORAGE),
        (tags::SOP_INSTANCE_UID, VR::UI, "1.2.3.4.5"),
        (tags::IMAGE_TYPE, VR::CS, "ORIGINAL\\PRIMARY\\AXIAL"),
        (tags::STUDY_DATE, VR::DA, "20240102"),
        (tags::STUDY_TIME, VR::TM, "101112"),
        (tags::ACCESSION_NUMBER, VR::SH, "ACC1"),
        (tags::MODALITY, VR::CS, "MR"),
        (tags::MANUFACTURER, VR::LO, "Maker "),
        (tags::INSTITUTION_NAME, VR::LO, "Hospital"),
        (tags::INSTITUTION_ADDRESS, VR::ST, "Street 1"),
        (tags::SERIES_DESCRIPTION, VR::LO, "T1 axial"),
        (tags::PATIENT_NAME, VR::PN, "Doe^Jane"),
        (tags::PATIENT_ID, VR::LO, "P42"),
        (tags::PATIENT_BIRTH_DATE, VR::DA, "19800101"),
        (tags::PATIENT_SEX, VR::CS, "F"),
        (tags::PATIENT_AGE, VR::AS, "044Y"),
        (tags::BODY_PART_EXAMINED, VR::CS, "HEAD"),
        (tags::SLICE_THICKNESS, VR::DS, "1.5"),
        (tags::PATIENT_POSITION, VR::CS, "HFS"),
        (tags::SERIES_INSTANCE_UID, VR::UI, "1.2.3.4"),
        (tags::SERIES_NUMBER, VR::IS, "12"),
        (tags::INSTANCE_NUMBER, VR::IS, "34"),
        (tags::IMAGE_POSITION_PATIENT, VR::DS, "-1.0\\2.5\\30"),
        (tags::IMAGE_ORIENTATION_PATIENT, VR::DS, "1\\0\\0\\0\\1\\0"),
        (tags::PIXEL_SPACING, VR::DS, "0.5\\0.25"),
    ];
    for (tag, vr, text) in texts {
        obj.put(DataElement::new(tag, vr, PrimitiveValue::from(text)));
    }
    obj.put(DataElement::new(tags::ROWS, VR::US, PrimitiveValue::from(4u16)));
    obj.put(DataElement::new(tags::COLUMNS, VR::US, PrimitiveValue::from(2u16)));
    obj.put(DataElement::new(tags::BITS_ALLOCATED, VR::US, PrimitiveValue::from(8u16)));
    obj.put(DataElement::new(tags::PIXEL_REPRESENTATION, VR::US, PrimitiveValue::from(0u16)));
    obj.put(DataElement::new(
        tags::PIXEL_DATA,
        VR::OB,
        PrimitiveValue::from(vec![1u8, 2, 3, 4, 5, 6, 7, 8]),
    ));
    obj.with_meta(FileMetaTableBuilder::new().transfer_syntax(uids::EXPLICIT_VR_LITTLE_ENDIAN))
        .unwrap()
}

fn bytes_of(obj: &DefaultDicomObject) -> Vec<u8> {
    let mut bytes = Vec::new();
    obj.write_all(&mut bytes).unwrap();
    bytes
}

fn text_of(fields: &[Entry], key: &str) -> String {
    let entry = fields.iter().find(|entry| entry.key == key).unwrap();
    match &entry.value {
        JsonValue::Text(text) => text.clone(),
        _ => panic!("{} holds no text", key),
    }
}

fn list_of(fields: &[Entry], key: &str) -> Vec<String> {
    let entry = fields.iter().find(|entry| entry.key == key).unwrap();
    match &entry.value {
        JsonValue::List(items) => items.clone(),
        _ => panic!("{} holds no list", key),
    }
}

fn entries_of(text: &str) -> Vec<Entry> {
    let value: Value = serde_json::from_str(text).unwrap();
    let mut entries = Vec::new();
    for (key, value) in value.as_object().unwrap() {
        let value = match value {
            Value::String(text) => JsonValue::Text(text.clone()),
            Value::Array(items) => JsonValue::List(
                items.iter().map(|item| item.as_str().unwrap().to_string()).collect(),
            ),
            _ => JsonValue::Other,
        };
        entries.push(Entry { key: key.clone(), value });
    }
    entries
}

#[test]
fn scan_reads_series_and_instance_records() {
    let (series, instance) = scan(&bytes_of(&full_object())).ok().unwrap();
    assert_eq!(series.series_uid, "1.2.3.4");
    assert_eq!(series.series_number, 12);
    let keys: Vec<&str> = series.fields.iter().map(|entry| entry.key.as_str()).collect();
    assert_eq!(
        keys,
        vec![
            "00100040", "00101010", "0020000E", "00100010", "00100020", "00100030", "00180015",
            "00200011", "00080020", "00080030", "00080050", "00080060", "00080070", "00080081",
            "00080080",
        ]
    );
    assert_eq!(text_of(&series.fields, "00100040"), "F");
    assert_eq!(text_of(&series.fields, "00101010"), "044Y");
    assert_eq!(text_of(&series.fields, "0020000E"), "1.2.3.4");
    assert_eq!(text_of(&series.fields, "00100010"), "Doe^Jane");
    assert_eq!(text_of(&series.fields, "00100020"), "P42");
    assert_eq!(text_of(&series.fields, "00100030"), "19800101");
    assert_eq!(text_of(&series.fields, "00180015"), "HEAD");
    assert_eq!(text_of(&series.fields, "00200011"), "12");
    assert_eq!(text_of(&series.fields, "00080020"), "20240102");
    assert_eq!(text_of(&series.fields, "00080030"), "101112");
    assert_eq!(text_of(&series.fields, "00080050"), "ACC1");
    assert_eq!(text_of(&series.fields, "00080060"), "MR");
    assert_eq!(text_of(&series.fields, "00080070"), "Maker");
    assert_eq!(text_of(&series.fields, "00080081"), "Street 1");
    assert_eq!(text_of(&series.fields, "00080080"), "Hospital");

    assert_eq!(instance.series_uid, "1.2.3.4");
    assert_eq!(instance.sop_uid, "1.2.3.4.5");
    assert_eq!(instance.instance_number, 34);
    let keys: Vec<&str> = instance.fields.iter().map(|entry| entry.key.as_str()).collect();
    assert_eq!(
        keys,
        vec![
            "0008103E", "00280030", "00280010", "00280011", "00180015", "00080008", "00280103",
            "00185100", "00200032", "00180050", "00200013", "00200037", "00080018",
        ]
    );
    assert_eq!(text_of(&instance.fields, "0008103E"), "T1 axial");
    assert_eq!(list_of(&instance.fields, "00280030"), vec!["0.5", "0.25"]);
    assert_eq!(text_of(&instance.fields, "00280010"), "4");
    assert_eq!(text_of(&instance.fields, "00280011"), "2");
    assert_eq!(text_of(&instance.fields, "00180015"), "HEAD");
    assert_eq!(list_of(&instance.fields, "00080008"), vec!["ORIGINAL", "PRIMARY", "AXIAL"]);
    assert_eq!(text_of(&instance.fields, "00280103"), "0");
    assert_eq!(text_of(&instance.fields, "00185100"), "HFS");
    assert_eq!(list_of(&instance.fields, "00200032"), vec!["-1.0", "2.5", "30"]);
    assert_eq!(text_of(&instance.fields, "00180050"), "1.5");
    assert_eq!(text_of(&instance.fields, "00200013"), "34");
    assert_eq!(list_of(&instance.fields, "00200037"), vec!["1", "0", "0", "0", "1", "0"]);
    assert_eq!(text_of(&instance.fields, "00080018"), "1.2.3.4.5");
}

#[test]
fn scan_of_an_object_gives_what_scan_of_its_bytes_gives() {
    let obj = full_object();
    let (series, instance) = scan_object(&obj);
    let (from_bytes, instance_from_bytes) = scan(&bytes_of(&obj)).ok().unwrap();
    assert_eq!(render_record(&series.fields), render_record(&from_bytes.fields));
    assert_eq!(render_record(&instance.fields), render_record(&instance_from_bytes.fields));
    assert_eq!(series.series_number, from_bytes.series_number);
    assert_eq!(instance.sop_uid, instance_from_bytes.sop_uid);
}

#[test]
fn scan_of_an_object_with_nothing_in_it() {
    let obj = InMemDicomObject::new_empty()
        .with_meta(
            FileMetaTableBuilder::new()
                .transfer_syntax(uids::EXPLICIT_VR_LITTLE_ENDIAN)
                .media_storage_sop_class_uid(uids::CT_IMAGE_STORAGE)
                .media_storage_sop_instance_uid("1.2"),
        )
        .unwrap();
    let (series, instance) = scan_object(&obj);
    assert_eq!(series.series_uid, "");
    assert_eq!(series.series_number, 0);
    assert_eq!(series.fields.len(), 15);
    assert_eq!(text_of(&series.fields, "00100020"), "");
    assert_eq!(instance.sop_uid, "");
    assert_eq!(instance.instance_number, 0);
    assert_eq!(instance.fields.len(), 13);
    assert_eq!(list_of(&instance.fields, "00280030"), vec![""]);
}

#[test]
fn scan_refuses_bytes_that_are_no_object() {
    assert!(matches!(scan(&Vec::new()), Err(FileError::Open(_))));
    assert!(matches!(scan(&vec![0u8; 200]), Err(FileError::Open(_))));
    assert!(matches!(scan(&b"DICM and then nothing of use".to_vec()), Err(FileError::Open(_))));
    let mut cut = bytes_of(&full_object());
    cut.truncate(140);
    assert!(matches!(scan(&cut), Err(FileError::Open(_))));
    match read_object(&vec![1u8, 2, 3]) {
        Err(FileError::Open(words)) => assert!(!words.is_empty()),
        _ => panic!("three bytes are no object"),
    }
}

#[test]
fn reading_up_to_the_pixel_data_leaves_it_out() {
    let bytes = bytes_of(&full_object());
    let whole = read_object(&bytes).ok().unwrap();
    let head = read_object_until(&bytes, PIXEL_DATA).ok().unwrap();
    assert!(whole.element_opt(tags::PIXEL_DATA).unwrap().is_some());
    assert!(head.element_opt(tags::PIXEL_DATA).unwrap().is_none());
    assert_eq!(get_string(PATIENT_ID, &head), "P42");
    assert_eq!(get_string(ROWS, &head), "4");
    let early = read_object_until(&bytes, PATIENT_NAME).ok().unwrap();
    assert_eq!(get_string(STUDY_DATE, &early), "20240102");
    assert_eq!(get_string(PATIENT_NAME, &early), "");
    assert_eq!(get_string(PATIENT_ID, &early), "");
}

#[test]
fn object_written_and_read_again_holds_the_same() {
    let obj = full_object();
    let bytes = object_to_bytes(&obj).ok().unwrap();
    assert_eq!(bytes, bytes_of(&obj));
    assert_eq!(&bytes[128..132], b"DICM");
    let back = read_object(&bytes).ok().unwrap();
    assert_eq!(get_string(PATIENT_NAME, &back), "Doe^Jane");
    assert_eq!(transfer_syntax(&back), "1.2.840.10008.1.2.1");
    assert_eq!(transfer_syntax(&obj), "1.2.840.10008.1.2.1");
}

#[test]
fn object_with_an_unknown_transfer_syntax_cannot_be_written() {
    let obj = InMemDicomObject::new_empty()
        .with_meta(
            FileMetaTableBuilder::new()
                .transfer_syntax("1.2.3.4.5.6.7.8.9.0")
                .media_storage_sop_class_uid(uids::CT_IMAGE_STORAGE)
                .media_storage_sop_instance_uid("1.2"),
        )
        .unwrap();
    match object_to_bytes(&obj) {
        Err(FileError::Encode(words)) => assert!(!words.is_empty()),
        _ => panic!("an object with an unknown transfer syntax was written"),
    }
}

#[test]
fn attributes_of_an_object() {
    let obj = full_object();
    assert_eq!(get_string(PATIENT_ID, &obj), "P42");
    assert_eq!(get_string(0x0008_0070, &obj), "Maker");
    assert_eq!(get_string(0x0010_1040, &obj), "");
    assert_eq!(find_string(PATIENT_ID, &obj), Some("P42".to_string()));
    assert_eq!(find_string(0x0010_1040, &obj), None);
    assert_eq!(get_tag_value(ROWS, &obj, 9), 4);
    assert_eq!(get_tag_value(INSTANCE_NUMBER, &obj, 9), 34);
    assert_eq!(get_tag_value(SERIES_NUMBER, &obj, 9), 12);
    assert_eq!(get_tag_value(PATIENT_ID, &obj, 9), 9);
    assert_eq!(get_tag_value(0x0010_1040, &obj, 7), 7);
    assert_eq!(find_number(BITS_ALLOCATED, &obj), Some(8));
    assert_eq!(find_number(SERIES_NUMBER, &obj), Some(12));
    assert_eq!(find_number(PATIENT_ID, &obj), None);
    assert_eq!(find_number(0x0010_1040, &obj), None);
}

#[test]
fn series_record_round_trip_through_json_text() {
    let (series, _) = scan_object(&full_object());
    let text = render_record(&series.to_entries());
    let back = SeriesRecord::from_entries(&entries_of(&text)).unwrap();
    assert_eq!(back.series_uid, series.series_uid);
    assert_eq!(back.series_number, series.series_number);
    assert_eq!(render_record(&back.fields), text);
}

#[test]
fn instance_record_round_trip_through_json_text() {
    let (_, instance) = scan_object(&full_object());
    let text = render_record(&instance.to_entries());
    let back = InstanceRecord::from_entries("1.2.3.4".to_string(), &entries_of(&text)).unwrap();
    assert_eq!(back.series_uid, "1.2.3.4");
    assert_eq!(back.sop_uid, instance.sop_uid);
    assert_eq!(back.instance_number, instance.instance_number);
    assert_eq!(list_of(&back.fields, "00200032"), vec!["-1.0", "2.5", "30"]);
    assert_eq!(render_record(&back.fields), text);
}

#[test]
fn record_with_a_member_missing_or_of_the_wrong_kind_is_refused() {
    let (series, instance) = scan_object(&full_object());
    let mut entries = series.to_entries();
    entries.remove(2);
    assert_eq!(
        SeriesRecord::from_entries(&entries).err(),
        Some(DecodeError::Missing { field: 2 })
    );
    let mut entries = instance.to_entries();
    entries[1] = Entry { key: "00280030".to_string(), value: JsonValue::Text("0.5\\0.25".to_string()) };
    assert_eq!(
        InstanceRecord::from_entries(String::new(), &entries).err(),
        Some(DecodeError::Unexpected { position: 1 })
    );
}
