use dicom_batch::aggregate::{
    aggregate, AggregateDocument, InstanceRecord, SeriesRecord, AGGREGATE_OUTPUT_PATH,
};
use dicom_batch::json::render_document;
use dicom_batch::record::{Entry, JsonValue};
use dicom_batch::scan::{scan, scan_object};
use dicom_core::{DataElement, PrimitiveValue, VR};
use dicom_dictionary_std::{tags, uids};
use dicom_object::{DefaultDicomObject, FileMetaTableBuilder, InMemDicomObject};
use serde_json::Value;

fn object(series_uid: &str, series_number: &str, sop_uid: &str, instance_number: &str) -> DefaultDicomObject {
    let mut obj = InMemDicomObject::new_empty();
    obj.put(DataElement::new(tags::SOP_CLASS_UID, VR::UI, PrimitiveValue::from(uids::CT_IMAGE_STORAGE)));
    obj.put(DataElement::new(tags::SOP_INSTANCE_UID, VR::UI, PrimitiveValue::from(sop_uid)));
    obj.put(DataElement::new(tags::SERIES_INSTANCE_UID, VR::UI, PrimitiveValue::from(series_uid)));
    obj.put(DataElement::new(tags::SERIES_NUMBER, VR::IS, PrimitiveValue::from(series_number)));
    obj.put(DataElement::new(tags::INSTANCE_NUMBER, VR::IS, PrimitiveValue::from(instance_number)));
    obj.put(DataElement::new(tags::PATIENT_ID, VR::LO, PrimitiveValue::from("PAT1")));
    obj.put(DataElement::new(tags::MODALITY, VR::CS, PrimitiveValue::from("CT")));
    obj.put(DataElement::new(tags::PIXEL_SPACING, VR::DS, PrimitiveValue::from("0.5\\0.25")));
    obj.with_meta(FileMetaTableBuilder::new().transfer_syntax(uids::EXPLICIT_VR_LITTLE_ENDIAN))
        .unwrap()
}

fn scanned(files: &[(&str, &str, &str, &str)]) -> (Vec<SeriesRecord>, Vec<InstanceRecord>) {
    let mut series = Vec::new();
    let mut instances = Vec::new();
    for (series_uid, series_number, sop_uid, instance_number) in files {
        let obj = object(series_uid, series_number, sop_uid, instance_number);
        let mut bytes = Vec::new();
        obj.write_all(&mut bytes).unwrap();
        let (one_series, one_instance) = scan(&bytes).ok().unwrap();
        series.push(one_series);
        instances.push(one_instance);
    }
    (series, instances)
}

fn series_record(uid: &str, number: u32, note: &str) -> SeriesRecord {
    SeriesRecord {
        series_uid: uid.to_string(),
        series_number: number,
        fields: vec![Entry { key: "note".to_string(), value: JsonValue::Text(note.to_string()) }],
    }
}

fn instance_record(series_uid: &str, sop_uid: &str, number: u32, note: &str) -> InstanceRecord {
    InstanceRecord {
        series_uid: series_uid.to_string(),
        sop_uid: sop_uid.to_string(),
        instance_number: number,
        fields: vec![Entry { key: "note".to_string(), value: JsonValue::Text(note.to_string()) }],
    }
}

fn shape(doc: &AggregateDocument) -> Vec<(String, Vec<String>)> {
    doc.series_data
        .iter()
        .map(|entry| {
            (
                entry.series.series_uid.clone(),
                entry.instances.iter().map(|instance| instance.sop_uid.clone()).collect(),
            )
        })
        .collect()
}

fn note(fields: &[Entry]) -> String {
    match &fields[0].value {
        JsonValue::Text(text) => text.clone(),
        _ => panic!("no note"),
    }
}

fn named(pairs: &[(&str, &[&str])]) -> Vec<(String, Vec<String>)> {
    pairs
        .iter()
        .map(|(uid, sops)| (uid.to_string(), sops.iter().map(|sop| sop.to_string()).collect()))
        .collect()
}

#[test]
fn two_series_two_instances_each_come_out_in_order() {
    let (series, instances) = scanned(&[
        ("1.2.100", "2", "1.2.100.2", "2"),
        ("1.2.100", "2", "1.2.100.1", "1"),
        ("1.2.200", "1", "1.2.200.1", "1"),
        ("1.2.200", "1", "1.2.200.2", "2"),
    ]);
    let doc = aggregate(&series, &instances);
    assert_eq!(
        shape(&doc),
        named(&[
            ("1.2.200", &["1.2.200.1", "1.2.200.2"]),
            ("1.2.100", &["1.2.100.1", "1.2.100.2"]),
        ])
    );
    assert_eq!(doc.series_data[0].series.series_number, 1);
    assert_eq!(doc.series_data[1].series.series_number, 2);
    let numbers: Vec<u32> =
        doc.series_data[1].instances.iter().map(|instance| instance.instance_number).collect();
    assert_eq!(numbers, vec![1, 2]);
}

#[test]
fn series_number_that_is_no_number_sorts_as_zero() {
    let (series, instances) = scanned(&[
        ("1.2.7", "7", "1.2.7.1", "1"),
        ("1.2.0", "", "1.2.0.1", "1"),
        ("1.2.3", "3", "1.2.3.1", "1"),
    ]);
    assert_eq!(series[1].series_number, 0);
    let doc = aggregate(&series, &instances);
    assert_eq!(
        shape(&doc),
        named(&[("1.2.0", &["1.2.0.1"]), ("1.2.3", &["1.2.3.1"]), ("1.2.7", &["1.2.7.1"])])
    );
    let text = render_document(&doc);
    let empty_number = text.find("\"00200011\":\"\"").unwrap();
    let three = text.find("\"00200011\":\"3\"").unwrap();
    let seven = text.find("\"00200011\":\"7\"").unwrap();
    assert!(empty_number < three && three < seven);
}

#[test]
fn instance_number_that_is_no_number_sorts_as_zero() {
    let (series, instances) = scanned(&[
        ("1.2.1", "1", "1.2.1.5", "5"),
        ("1.2.1", "1", "1.2.1.x", "x"),
        ("1.2.1", "1", "1.2.1.2", "2"),
    ]);
    assert_eq!(instances[1].instance_number, 0);
    let doc = aggregate(&series, &instances);
    assert_eq!(shape(&doc), named(&[("1.2.1", &["1.2.1.x", "1.2.1.2", "1.2.1.5"])]));
}

#[test]
fn every_order_of_the_files_gives_the_same_text() {
    let files = [
        ("1.2.100", "2", "1.2.100.2", "2"),
        ("1.2.100", "2", "1.2.100.1", "1"),
        ("1.2.200", "1", "1.2.200.1", "1"),
        ("1.2.200", "1", "1.2.200.2", "2"),
    ];
    let (series, instances) = scanned(&files);
    let expected = render_document(&aggregate(&series, &instances));
    let orders: [[usize; 4]; 6] =
        [[0, 1, 2, 3], [3, 2, 1, 0], [1, 3, 0, 2], [2, 0, 3, 1], [0, 2, 1, 3], [3, 0, 2, 1]];
    for order in orders {
        let permuted: Vec<(&str, &str, &str, &str)> = order.iter().map(|&i| files[i]).collect();
        let (series, instances) = scanned(&permuted);
        assert_eq!(render_document(&aggregate(&series, &instances)), expected);
    }
}

#[test]
fn first_record_of_a_series_wins() {
    let series = vec![
        series_record("A", 5, "first of A"),
        series_record("B", 1, "first of B"),
        series_record("A", 0, "second of A"),
    ];
    let instances = vec![instance_record("A", "a1", 1, "a1"), instance_record("B", "b1", 1, "b1")];
    let doc = aggregate(&series, &instances);
    assert_eq!(shape(&doc), named(&[("B", &["b1"]), ("A", &["a1"])]));
    assert_eq!(note(&doc.series_data[1].series.fields), "first of A");
    assert_eq!(doc.series_data[1].series.series_number, 5);
}

#[test]
fn last_record_of_an_instance_wins() {
    let series = vec![series_record("A", 1, "A")];
    let instances = vec![
        instance_record("A", "a1", 9, "first a1"),
        instance_record("A", "a2", 5, "a2"),
        instance_record("A", "a1", 2, "second a1"),
    ];
    let doc = aggregate(&series, &instances);
    assert_eq!(shape(&doc), named(&[("A", &["a1", "a2"])]));
    assert_eq!(note(&doc.series_data[0].instances[0].fields), "second a1");
    assert_eq!(doc.series_data[0].instances[0].instance_number, 2);
}

#[test]
fn equal_numbers_keep_the_order_of_the_records() {
    let series = vec![
        series_record("C", 1, "C"),
        series_record("A", 1, "A"),
        series_record("B", 0, "B"),
        series_record("D", 1, "D"),
    ];
    let instances = vec![
        instance_record("A", "z", 3, "z"),
        instance_record("A", "y", 3, "y"),
        instance_record("A", "x", 1, "x"),
        instance_record("A", "w", 3, "w"),
    ];
    let doc = aggregate(&series, &instances);
    assert_eq!(
        shape(&doc),
        named(&[("B", &[]), ("C", &[]), ("A", &["x", "z", "y", "w"]), ("D", &[])])
    );
}

#[test]
fn instance_without_a_series_record_is_left_out() {
    let series = vec![series_record("A", 1, "A")];
    let instances = vec![instance_record("A", "a1", 1, "a1"), instance_record("Z", "z1", 1, "z1")];
    let doc = aggregate(&series, &instances);
    assert_eq!(shape(&doc), named(&[("A", &["a1"])]));
}

#[test]
fn nothing_gives_the_empty_document() {
    let doc = aggregate(&Vec::new(), &Vec::new());
    assert!(doc.series_data.is_empty());
    assert_eq!(
        render_document(&doc),
        r#"{"seriesData":[],"hiscode":"89269","expires":"2025-06-20T13-05-16","token":"cbcbc2c203fe3877737c0befd6a769fa"}"#
    );
    assert_eq!(AGGREGATE_OUTPUT_PATH, "./tst22.json");
}

#[test]
fn series_without_instances_has_an_empty_list() {
    let doc = aggregate(&vec![series_record("A", 1, "a \"note\"")], &Vec::new());
    assert_eq!(
        render_document(&doc),
        r#"{"seriesData":[{"note":"a \"note\"","sopData":[]}],"hiscode":"89269","expires":"2025-06-20T13-05-16","token":"cbcbc2c203fe3877737c0befd6a769fa"}"#
    );
}

fn value_of(entry: &Entry) -> Value {
    match &entry.value {
        JsonValue::Text(text) => Value::String(text.clone()),
        JsonValue::Number(number) => Value::from(*number),
        JsonValue::List(items) => {
            Value::Array(items.iter().map(|item| Value::String(item.clone())).collect())
        }
        JsonValue::Other => Value::Null,
    }
}

#[test]
fn text_of_the_document_is_what_serde_json_writes_for_it() {
    let (series, instances) = scanned(&[
        ("1.2.100", "2", "1.2.100.2", "2"),
        ("1.2.100", "2", "1.2.100.1", "1"),
        ("1.2.200", "1", "1.2.200.1", "1"),
    ]);
    let doc = aggregate(&series, &instances);
    let mut series_data = Vec::new();
    for entry in &doc.series_data {
        let mut object = serde_json::Map::new();
        for field in &entry.series.fields {
            object.insert(field.key.clone(), value_of(field));
        }
        let mut sop_data = Vec::new();
        for instance in &entry.instances {
            let mut sop = serde_json::Map::new();
            for field in &instance.fields {
                sop.insert(field.key.clone(), value_of(field));
            }
            sop_data.push(Value::Object(sop));
        }
        object.insert("sopData".to_string(), Value::Array(sop_data));
        series_data.push(Value::Object(object));
    }
    let mut document = serde_json::Map::new();
    document.insert("seriesData".to_string(), Value::Array(series_data));
    document.insert("hiscode".to_string(), Value::String("89269".to_string()));
    document.insert("expires".to_string(), Value::String("2025-06-20T13-05-16".to_string()));
    document.insert(
        "token".to_string(),
        Value::String("cbcbc2c203fe3877737c0befd6a769fa".to_string()),
    );
    assert_eq!(render_document(&doc), Value::Object(document).to_string());
}

#[test]
fn text_of_one_scanned_file() {
    let obj = object("1.2.100", "2", "1.2.100.1", "1");
    let (series, instance) = scan_object(&obj);
    let doc = aggregate(&vec![series], &vec![instance]);
    let expected = concat_all(&[
        r#"{"seriesData":[{"#,
        r#""00100040":"","00101010":"","0020000E":"1.2.100","00100010":"","00100020":"PAT1","#,
        r#""00100030":"","00180015":"","00200011":"2","00080020":"","00080030":"","#,
        r#""00080050":"","00080060":"CT","00080070":"","00080081":"","00080080":"","#,
        r#""sopData":[{"0008103E":"","00280030":["0.5","0.25"],"00280010":"","#,
        r#""00280011":"","00180015":"","00080008":[""],"00280103":"","00185100":"","#,
        r#""00200032":[""],"00180050":"","00200013":"1","00200037":[""],"#,
        r#""00080018":"1.2.100.1"}]}],"#,
        r#""hiscode":"89269","expires":"2025-06-20T13-05-16","#,
        r#""token":"cbcbc2c203fe3877737c0befd6a769fa"}"#,
    ]);
    assert_eq!(render_document(&doc), expected);
}

fn concat_all(parts: &[&str]) -> String {
    let mut text = String::new();
    for part in parts {
        text.push_str(part);
    }
    text
}
