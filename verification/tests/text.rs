use dicom_batch::text::{
    append_decimal, join_multi, number_or_zero, parse_u16, parse_u32, split_multi,
};

#[test]
fn numbers_are_read_as_the_standard_library_reads_them() {
    let texts = [
        "", "0", "1", "007", "+5", "+", "-", "-1", "+-1", "++1", " 1", "1 ", "1.0", "12a", "a12",
        "4294967295", "4294967296", "42949672950", "99999999999999999999999", "+4294967295",
        "+0000000000000000000001", "65535", "65536", "١٢٣", "1_000", "0x10", "\u{0}", "１２",
    ];
    for text in texts {
        assert_eq!(parse_u32(text), text.parse::<u32>().ok(), "{:?}", text);
        assert_eq!(parse_u16(text), text.parse::<u16>().ok(), "{:?}", text);
        assert_eq!(number_or_zero(text), text.parse::<u32>().unwrap_or(0), "{:?}", text);
    }
}

#[test]
fn number_edges() {
    assert_eq!(parse_u32("4294967295"), Some(u32::MAX));
    assert_eq!(parse_u32("4294967296"), None);
    assert_eq!(parse_u16("65535"), Some(u16::MAX));
    assert_eq!(parse_u16("65536"), None);
    assert_eq!(parse_u32("+"), None);
    assert_eq!(parse_u32(""), None);
    assert_eq!(number_or_zero(""), 0);
    assert_eq!(number_or_zero("12"), 12);
    assert_eq!(number_or_zero("twelve"), 0);
}

#[test]
fn texts_are_split_as_the_standard_library_splits_them() {
    let texts = [
        "", "a", "\\", "a\\b", "a\\", "\\a", "\\\\", "0.5\\0.5", "1\\0\\0\\0\\1\\0",
        "ORIGINAL\\PRIMARY\\AXIAL", "张\\三", "a\\\\b", "no delimiter / here",
    ];
    for text in texts {
        let expected: Vec<String> = text.split('\\').map(|part| part.to_string()).collect();
        assert_eq!(split_multi(text), expected, "{:?}", text);
        assert_eq!(join_multi(&split_multi(text)), text, "{:?}", text);
    }
}

#[test]
fn split_examples() {
    assert_eq!(split_multi(""), vec![""]);
    assert_eq!(split_multi("0.5\\0.5"), vec!["0.5", "0.5"]);
    assert_eq!(split_multi("10.0\\20.0\\30.0"), vec!["10.0", "20.0", "30.0"]);
    assert_eq!(split_multi("a\\"), vec!["a", ""]);
}

#[test]
fn join_examples() {
    assert_eq!(join_multi(&vec![]), "");
    assert_eq!(join_multi(&vec!["a".to_string()]), "a");
    assert_eq!(join_multi(&vec!["a".to_string(), "".to_string(), "b".to_string()]), "a\\\\b");
    let parts = vec!["1".to_string(), "0".to_string(), "0".to_string()];
    assert_eq!(split_multi(&join_multi(&parts)), parts);
}

#[test]
fn decimal_text() {
    for number in [0u64, 1, 9, 10, 11, 99, 100, 65535, 4294967295, u64::MAX] {
        let mut text = String::from("n=");
        append_decimal(&mut text, number);
        assert_eq!(text, format!("n={}", number));
    }
}
