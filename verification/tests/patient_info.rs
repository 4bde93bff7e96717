use dicom_batch::codec::DecodeError;
use dicom_batch::patient_info::PatientInfo;
use dicom_batch::record::{Entry, JsonValue};
use dicom_batch::tags::{PATIENT_ID, PATIENT_NAME, SERIES_NUMBER};
use serde_json::Value;

fn json_value(value: &Value) -> JsonValue {
    match value {
        Value::String(text) => JsonValue::Text(text.clone()),
        Value::Number(number) => match number.as_u64() {
            Some(number) => JsonValue::Number(number),
            None => JsonValue::Other,
        },
        Value::Array(items) => {
            let mut texts = Vec::new();
            for item in items {
                match item.as_str() {
                    Some(text) => texts.push(text.to_string()),
                    None => return JsonValue::Other,
                }
            }
            JsonValue::List(texts)
        }
        _ => JsonValue::Other,
    }
}

fn entries_of(text: &str) -> Vec<Entry> {
    let value: Value = serde_json::from_str(text).unwrap();
    let mut entries = Vec::new();
    for (key, value) in value.as_object().unwrap() {
        entries.push(Entry { key: key.clone(), value: json_value(value) });
    }
    entries
}

fn dummy_patient_info() -> PatientInfo {
    PatientInfo {
        id: "12345".to_string(),
        name: "张三".to_string(),
        age: "30Y".to_string(),
        sex: "M".to_string(),
        birth_date: "19950101".to_string(),
        birth_time: "120000".to_string(),
    }
}

#[test]
fn test_serialize_patient_info() {
    let patient = dummy_patient_info();
    let json = patient.to_json();
    let expected_json = r#"{"00100020":"12345","00100010":"张三","00101010":"30Y","00100040":"M","00100030":"19950101","00100032":"120000"}"#;
    assert_eq!(json, expected_json);
}

#[test]
fn test_deserialize_patient_info() {
    let json = r#"{"00100020":"12345","00100010":"张三","00101010":"30Y","00100040":"M","00100030":"19950101","00100032":"120000"}"#;
    let patient = PatientInfo::from_entries(&entries_of(json)).unwrap();
    assert_eq!(patient.id, "12345");
    assert_eq!(patient.name, "张三");
    assert_eq!(patient.age, "30Y");
    assert_eq!(patient.sex, "M");
    assert_eq!(patient.birth_date, "19950101");
    assert_eq!(patient.birth_time, "120000");
}

#[test]
fn patient_info_round_trip_through_json_text() {
    let patient = PatientInfo {
        id: "a \"quoted\" id".to_string(),
        name: "back\\slash\nnewline".to_string(),
        age: String::new(),
        sex: "F".to_string(),
        birth_date: "20000229".to_string(),
        birth_time: "\u{1}control".to_string(),
    };
    let text = patient.to_json();
    let back = PatientInfo::from_entries(&entries_of(&text)).unwrap();
    assert_eq!(back.id, patient.id);
    assert_eq!(back.name, patient.name);
    assert_eq!(back.age, patient.age);
    assert_eq!(back.sex, patient.sex);
    assert_eq!(back.birth_date, patient.birth_date);
    assert_eq!(back.birth_time, patient.birth_time);
}

#[test]
fn patient_info_keys() {
    assert_eq!(PatientInfo::map_key(PATIENT_ID), "00100020");
    assert_eq!(PatientInfo::map_key(PATIENT_NAME), "00100010");
    assert_eq!(PatientInfo::map_key(SERIES_NUMBER), "unknown");
}

#[test]
fn patient_info_to_entries_lists_fields_in_order() {
    let entries = dummy_patient_info().to_entries();
    let keys: Vec<&str> = entries.iter().map(|entry| entry.key.as_str()).collect();
    assert_eq!(
        keys,
        vec!["00100020", "00100010", "00101010", "00100040", "00100030", "00100032"]
    );
    assert!(matches!(&entries[1].value, JsonValue::Text(text) if text == "张三"));
}

#[test]
fn patient_info_missing_field_is_named() {
    let json = r#"{"00100020":"12345","00100010":"n","00100040":"M","00100030":"d"}"#;
    let result = PatientInfo::from_entries(&entries_of(json));
    assert_eq!(result.err(), Some(DecodeError::Missing { field: 2 }));
}

#[test]
fn patient_info_wrong_kind_is_refused_where_it_stands() {
    let entries = vec![
        Entry { key: "00100020".to_string(), value: JsonValue::Text("1".to_string()) },
        Entry { key: "00100010".to_string(), value: JsonValue::Number(7) },
        Entry { key: "00101010".to_string(), value: JsonValue::Other },
    ];
    let result = PatientInfo::from_entries(&entries);
    assert_eq!(result.err(), Some(DecodeError::Unexpected { position: 1 }));
}

#[test]
fn patient_info_unknown_members_are_passed_over_and_last_member_counts() {
    let entries = vec![
        Entry { key: "00100020".to_string(), value: JsonValue::Text("first".to_string()) },
        Entry { key: "extra".to_string(), value: JsonValue::Other },
        Entry { key: "00100010".to_string(), value: JsonValue::Text("n".to_string()) },
        Entry { key: "00101010".to_string(), value: JsonValue::Text("a".to_string()) },
        Entry { key: "00100040".to_string(), value: JsonValue::Text("s".to_string()) },
        Entry { key: "00100030".to_string(), value: JsonValue::Text("d".to_string()) },
        Entry { key: "00100032".to_string(), value: JsonValue::Text("t".to_string()) },
        Entry { key: "00100020".to_string(), value: JsonValue::Text("second".to_string()) },
    ];
    let patient = PatientInfo::from_entries(&entries).unwrap();
    assert_eq!(patient.id, "second");
    assert_eq!(patient.name, "n");
}
