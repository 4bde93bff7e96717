use dicom_batch::codec::DecodeError;
use dicom_batch::record::{Entry, JsonValue};
use dicom_batch::study_info::StudyInfo;
use dicom_batch::tags::{PATIENT_ID, STUDY_INSTANCE_UID};
use serde_json::Value;

fn entries_of(text: &str) -> Vec<Entry> {
    let value: Value = serde_json::from_str(text).unwrap();
    let mut entries = Vec::new();
    for (key, value) in value.as_object().unwrap() {
        let value = match value {
            Value::String(text) => JsonValue::Text(text.clone()),
            Value::Number(number) => match number.as_u64() {
                Some(number) => JsonValue::Number(number),
                None => JsonValue::Other,
            },
            _ => JsonValue::Other,
        };
        entries.push(Entry { key: key.clone(), value });
    }
    entries
}

fn dummy_study_info() -> StudyInfo {
    StudyInfo {
        study_id: "12345".to_string(),
        study_uid: "1234567890".to_string(),
        study_date: "20240101".to_string(),
        study_time: "120103".to_string(),
        study_desc: "Study Description".to_string(),
    }
}

#[test]
fn test_serialize_study_info() {
    let study = dummy_study_info();
    let json = study.to_json();
    let expected_json = r#"{"00200010":"12345","0020000D":"1234567890","00080020":"20240101","00080030":"120103","00081030":"Study Description"}"#;
    assert_eq!(json, expected_json);
}

#[test]
fn test_deserialize_study_info() {
    let json = r#"{"00200010":"12345","0020000D":"1234567890","00080020":"20240101","00080030":"120103","00081030":"Study Description"}"#;
    let study = StudyInfo::from_entries(&entries_of(json)).unwrap();
    assert_eq!(study.study_id, "12345");
    assert_eq!(study.study_uid, "1234567890");
    assert_eq!(study.study_date, "20240101");
    assert_eq!(study.study_time, "120103");
    assert_eq!(study.study_desc, "Study Description");
}

#[test]
fn study_info_unknown_member_must_hold_a_text() {
    let mut entries = dummy_study_info().to_entries();
    entries.insert(2, Entry { key: "note".to_string(), value: JsonValue::Text("fine".to_string()) });
    assert!(StudyInfo::from_entries(&entries).is_ok());
    entries.insert(4, Entry { key: "count".to_string(), value: JsonValue::Number(3) });
    assert_eq!(
        StudyInfo::from_entries(&entries).err(),
        Some(DecodeError::Unexpected { position: 4 })
    );
}

#[test]
fn study_info_keys() {
    assert_eq!(StudyInfo::map_key(STUDY_INSTANCE_UID), "0020000D");
    assert_eq!(StudyInfo::map_key(PATIENT_ID), "unknown");
}

#[test]
fn study_info_first_missing_field_is_reported() {
    let entries = vec![
        Entry { key: "00200010".to_string(), value: JsonValue::Text("id".to_string()) },
        Entry { key: "00081030".to_string(), value: JsonValue::Text("desc".to_string()) },
    ];
    assert_eq!(
        StudyInfo::from_entries(&entries).err(),
        Some(DecodeError::Missing { field: 1 })
    );
}
