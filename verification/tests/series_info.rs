use dicom_batch::record::{Entry, JsonValue};
use dicom_batch::series_info::SeriesInfo;
use dicom_batch::tags::{BODY_PART_EXAMINED, PATIENT_ID, SERIES_INSTANCE_UID};
use serde_json::Value;

fn entries_of(text: &str) -> Vec<Entry> {
    let value: Value = serde_json::from_str(text).unwrap();
    let mut entries = Vec::new();
    for (key, value) in value.as_object().unwrap() {
        let value = match value {
            Value::String(text) => JsonValue::Text(text.clone()),
            _ => JsonValue::Other,
        };
        entries.push(Entry { key: key.clone(), value });
    }
    entries
}

fn dummy_series_info() -> SeriesInfo {
    SeriesInfo {
        series_num: "1".to_string(),
        series_uid: "1.2.840.113619.2.1.20230101.123456.123".to_string(),
        series_date: "20230101".to_string(),
        series_time: "120000".to_string(),
        series_desc: "CT ABDOMEN".to_string(),
        modality: "CT".to_string(),
        body_part_exam: "ABDOMEN".to_string(),
        image_type: "ORIGINAL\\PRIMARY\\AXIAL".to_string(),
        accession_number: "ACC123456".to_string(),
    }
}

#[test]
fn test_serialize_series_info() {
    let series = dummy_series_info();
    let json = series.to_json();

    let expected_json = r#"
{
  "00200011": "1",
  "0020000E": "1.2.840.113619.2.1.20230101.123456.123",
  "00080021": "20230101",
  "00080031": "120000",
  "0008103E": "CT ABDOMEN",
  "00080060": "CT",
  "00180015": "ABDOMEN",
  "00080008": "ORIGINAL\\PRIMARY\\AXIAL",
  "00080050": "ACC123456"
}"#
    .replace("\n", "")
    .replace(" ", "");

    let actual_json = json.replace(" ", "");
    assert_eq!(actual_json, expected_json);
}

#[test]
fn test_deserialize_series_info() {
    let json = r#"
{
  "00200011": "1",
  "0020000E": "1.2.840.113619.2.1.20230101.123456.123",
  "00080021": "20230101",
  "00080031": "120000",
  "0008103E": "CT ABDOMEN",
  "00080060": "CT",
  "00180015": "ABDOMEN",
  "00080008": "ORIGINAL\\PRIMARY\\AXIAL",
  "00080050": "ACC123456"
}"#;

    let series = SeriesInfo::from_entries(&entries_of(json)).unwrap();

    assert_eq!(series.series_num, "1");
    assert_eq!(series.series_uid, "1.2.840.113619.2.1.20230101.123456.123");
    assert_eq!(series.series_date, "20230101");
    assert_eq!(series.series_time, "120000");
    assert_eq!(series.series_desc, "CT ABDOMEN");
    assert_eq!(series.modality, "CT");
    assert_eq!(series.body_part_exam, "ABDOMEN");
    assert_eq!(series.image_type, "ORIGINAL\\PRIMARY\\AXIAL");
    assert_eq!(series.accession_number, "ACC123456");
}

#[test]
fn series_info_keys() {
    assert_eq!(SeriesInfo::map_key(SERIES_INSTANCE_UID), "0020000E");
    assert_eq!(SeriesInfo::map_key(BODY_PART_EXAMINED), "00180015");
    assert_eq!(SeriesInfo::map_key(0x0008_0024), "unknown");
    assert_eq!(SeriesInfo::map_key(PATIENT_ID), "unknown");
}
