use dicom_batch::codec::DecodeError;
use dicom_batch::image_info::ImageInfo;
use dicom_batch::record::{Entry, JsonValue};
use dicom_batch::tags::{BITS_STORED, HIGH_BIT, INSTANCE_NUMBER, PATIENT_ID};
use serde_json::Value;

fn entries_of(text: &str) -> Vec<Entry> {
    let value: Value = serde_json::from_str(text).unwrap();
    let mut entries = Vec::new();
    for (key, value) in value.as_object().unwrap() {
        let value = match value {
            Value::String(text) => JsonValue::Text(text.clone()),
            Value::Number(number) => match number.as_u64() {
                Some(number) => JsonValue::Number(number),
                None => JsonValue::Other,
            },
            _ => JsonValue::Other,
        };
        entries.push(Entry { key: key.clone(), value });
    }
    entries
}

fn dummy_image_info() -> ImageInfo {
    ImageInfo {
        inst_num: 123,
        sop_uid: "1.2.840.113619.2.1.20230101.123456.123".to_string(),
        rows: 512,
        cols: 512,
        pixel_spacing: "0.5\\0.5".to_string(),
        slice_location: "-100.0".to_string(),
        slice_thickness: "5.0".to_string(),
        image_position: "10.0\\20.0\\30.0".to_string(),
        image_orientation: "1\\0\\0\\0\\1\\0".to_string(),
        window_center: "40".to_string(),
        window_width: "400".to_string(),
        photometric_interpretation: "MONOCHROME2".to_string(),
        bits_allocated: 16,
        high_bit: 15,
        bit_stored: 15,
        samples_per_pixel: 1,
        pixel_representation: 0,
    }
}

#[test]
fn test_serialize_image_info() {
    let image = dummy_image_info();
    let json = image.to_json();

    let expected_json = r#"
{
  "00200013":123,
  "00080018":"1.2.840.113619.2.1.20230101.123456.123",
  "00280010":512,
  "00280011":512,
  "00280030":"0.5\\0.5",
  "00201041":"-100.0",
  "00180050":"5.0",
  "00200032":"10.0\\20.0\\30.0",
  "00200037":"1\\0\\0\\0\\1\\0",
  "00281050":"40",
  "00281051":"400",
  "00280004":"MONOCHROME2",
  "00280100":16,
  "00280102":15,
  "00280101":15,
  "00280002":1,
  "00280103":0
}"#
    .replace("\n", "")
    .replace(" ", "");

    let actual_json = json.replace(" ", "");
    assert_eq!(actual_json, expected_json);
}

#[test]
fn test_deserialize_image_info() {
    let json = r#"
{
  "00200013":123,
  "00080018":"1.2.840.113619.2.1.20230101.123456.123",
  "00280010":512,
  "00280011":512,
  "00280030":"0.5\\0.5",
  "00201041":"-100.0",
  "00180050":"5.0",
  "00200032":"10.0\\20.0\\30.0",
  "00200037":"1\\0\\0\\0\\1\\0",
  "00281050":"40",
  "00281051":"400",
  "00280004":"MONOCHROME2",
  "00280100":16,
  "00280102":15,
  "00280101":15,
  "00280002":1,
  "00280103":0
}"#;

    let image = ImageInfo::from_entries(&entries_of(json)).unwrap();

    assert_eq!(image.inst_num, 123);
    assert_eq!(image.sop_uid, "1.2.840.113619.2.1.20230101.123456.123");
    assert_eq!(image.rows, 512);
    assert_eq!(image.cols, 512);
    assert_eq!(image.pixel_spacing, "0.5\\0.5");
    assert_eq!(image.slice_location, "-100.0");
    assert_eq!(image.slice_thickness, "5.0");
    assert_eq!(image.image_position, "10.0\\20.0\\30.0");
    assert_eq!(image.image_orientation, "1\\0\\0\\0\\1\\0");
    assert_eq!(image.window_center, "40");
    assert_eq!(image.window_width, "400");
    assert_eq!(image.photometric_interpretation, "MONOCHROME2");
    assert_eq!(image.bits_allocated, 16);
    assert_eq!(image.high_bit, 15);
    assert_eq!(image.bit_stored, 15);
    assert_eq!(image.samples_per_pixel, 1);
    assert_eq!(image.pixel_representation, 0);
}

#[test]
fn image_info_high_bit_and_bits_stored_stand_under_their_own_tags() {
    let mut image = dummy_image_info();
    image.high_bit = 11;
    image.bit_stored = 12;
    let text = image.to_json();
    assert!(text.contains("\"00280102\":11"));
    assert!(text.contains("\"00280101\":12"));
    let back = ImageInfo::from_entries(&entries_of(&text)).unwrap();
    assert_eq!(back.high_bit, 11);
    assert_eq!(back.bit_stored, 12);
    assert_eq!(ImageInfo::map_key(HIGH_BIT), "00280102");
    assert_eq!(ImageInfo::map_key(BITS_STORED), "00280101");
    assert_eq!(ImageInfo::map_key(INSTANCE_NUMBER), "00200013");
    assert_eq!(ImageInfo::map_key(PATIENT_ID), "unknown");
}

#[test]
fn image_info_number_out_of_range_is_refused() {
    let mut entries = dummy_image_info().to_entries();
    entries[2] = Entry { key: "00280010".to_string(), value: JsonValue::Number(65536) };
    assert_eq!(
        ImageInfo::from_entries(&entries).err(),
        Some(DecodeError::Unexpected { position: 2 })
    );
    entries[2] = Entry { key: "00280010".to_string(), value: JsonValue::Number(65535) };
    assert_eq!(ImageInfo::from_entries(&entries).unwrap().rows, 65535);
    entries[2] = Entry { key: "00280010".to_string(), value: JsonValue::Text("512".to_string()) };
    assert_eq!(
        ImageInfo::from_entries(&entries).err(),
        Some(DecodeError::Unexpected { position: 2 })
    );
}
