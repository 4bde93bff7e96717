//! Attribute tags and the text keys under which their values are filed.
//!
//! A tag is the 32-bit number whose upper half is the group and whose lower
//! half is the element: `0x0010_0020` is (0010,0020), the patient's ID.

use vstd::prelude::*;

verus! {

/// A tag: group in the upper 16 bits, element in the lower 16.
pub type Tag = u32;

pub const SPECIFIC_CHARACTER_SET: Tag = 0x0008_0005;
pub const IMAGE_TYPE: Tag = 0x0008_0008;
pub const SOP_CLASS_UID: Tag = 0x0008_0016;
pub const SOP_INSTANCE_UID: Tag = 0x0008_0018;
pub const STUDY_DATE: Tag = 0x0008_0020;
pub const SERIES_DATE: Tag = 0x0008_0021;
pub const STUDY_TIME: Tag = 0x0008_0030;
pub const SERIES_TIME: Tag = 0x0008_0031;
pub const ACCESSION_NUMBER: Tag = 0x0008_0050;
pub const MODALITY: Tag = 0x0008_0060;
pub const MANUFACTURER: Tag = 0x0008_0070;
pub const INSTITUTION_NAME: Tag = 0x0008_0080;
pub const INSTITUTION_ADDRESS: Tag = 0x0008_0081;
pub const STUDY_DESCRIPTION: Tag = 0x0008_1030;
pub const SERIES_DESCRIPTION: Tag = 0x0008_103E;
pub const PATIENT_NAME: Tag = 0x0010_0010;
pub const PATIENT_ID: Tag = 0x0010_0020;
pub const PATIENT_BIRTH_DATE: Tag = 0x0010_0030;
pub const PATIENT_BIRTH_TIME: Tag = 0x0010_0032;
pub const PATIENT_SEX: Tag = 0x0010_0040;
pub const PATIENT_AGE: Tag = 0x0010_1010;
pub const PATIENT_SIZE: Tag = 0x0010_1020;
pub const PATIENT_WEIGHT: Tag = 0x0010_1030;
pub const ETHNIC_GROUP: Tag = 0x0010_2160;
pub const OCCUPATION: Tag = 0x0010_2180;
pub const BODY_PART_EXAMINED: Tag = 0x0018_0015;
pub const SLICE_THICKNESS: Tag = 0x0018_0050;
pub const PATIENT_POSITION: Tag = 0x0018_5100;
pub const STUDY_INSTANCE_UID: Tag = 0x0020_000D;
pub const SERIES_INSTANCE_UID: Tag = 0x0020_000E;
pub const STUDY_ID: Tag = 0x0020_0010;
pub const SERIES_NUMBER: Tag = 0x0020_0011;
pub const INSTANCE_NUMBER: Tag = 0x0020_0013;
pub const IMAGE_POSITION_PATIENT: Tag = 0x0020_0032;
pub const IMAGE_ORIENTATION_PATIENT: Tag = 0x0020_0037;
pub const SLICE_LOCATION: Tag = 0x0020_1041;
pub const SAMPLES_PER_PIXEL: Tag = 0x0028_0002;
pub const PHOTOMETRIC_INTERPRETATION: Tag = 0x0028_0004;
pub const ROWS: Tag = 0x0028_0010;
pub const COLUMNS: Tag = 0x0028_0011;
pub const PIXEL_SPACING: Tag = 0x0028_0030;
pub const BITS_ALLOCATED: Tag = 0x0028_0100;
pub const BITS_STORED: Tag = 0x0028_0101;
pub const HIGH_BIT: Tag = 0x0028_0102;
pub const PIXEL_REPRESENTATION: Tag = 0x0028_0103;
pub const WINDOW_CENTER: Tag = 0x0028_1050;
pub const WINDOW_WIDTH: Tag = 0x0028_1051;
pub const RESCALE_INTERCEPT: Tag = 0x0028_1052;
pub const RESCALE_SLOPE: Tag = 0x0028_1053;
pub const RESCALE_TYPE: Tag = 0x0028_1054;
pub const TRANSFER_SYNTAX_UID: Tag = 0x0002_0010;
pub const PIXEL_DATA: Tag = 0x7FE0_0010;

/// The group half of a tag.
pub open spec fn group_of(tag: Tag) -> u16 {
    (tag / 0x1_0000) as u16
}

/// The element half of a tag.
pub open spec fn element_of(tag: Tag) -> u16 {
    (tag % 0x1_0000) as u16
}

/// The tag with the given halves.
pub open spec fn tag_of(group: u16, element: u16) -> Tag {
    (group * 0x1_0000 + element) as u32
}

/// The upper-case hexadecimal digit for a value below 16.
pub open spec fn hex_digit(d: int) -> char {
    if d == 0 {
        '0'
    } else if d == 1 {
        '1'
    } else if d == 2 {
        '2'
    } else if d == 3 {
        '3'
    } else if d == 4 {
        '4'
    } else if d == 5 {
        '5'
    } else if d == 6 {
        '6'
    } else if d == 7 {
        '7'
    } else if d == 8 {
        '8'
    } else if d == 9 {
        '9'
    } else if d == 10 {
        'A'
    } else if d == 11 {
        'B'
    } else if d == 12 {
        'C'
    } else if d == 13 {
        'D'
    } else if d == 14 {
        'E'
    } else {
        'F'
    }
}

/// The key of a tag: its eight hexadecimal digits, group first, upper case.
pub open spec fn hex_key_spec(tag: Tag) -> Seq<char> {
    seq![
        hex_digit(tag as int / 0x1000_0000 % 16),
        hex_digit(tag as int / 0x100_0000 % 16),
        hex_digit(tag as int / 0x10_0000 % 16),
        hex_digit(tag as int / 0x1_0000 % 16),
        hex_digit(tag as int / 0x1000 % 16),
        hex_digit(tag as int / 0x100 % 16),
        hex_digit(tag as int / 0x10 % 16),
        hex_digit(tag as int % 16),
    ]
}

/// The group half of a tag.
pub fn tag_group(tag: Tag) -> (group: u16)
    ensures
        group == group_of(tag),
{
    (tag / 0x1_0000) as u16
}

/// The element half of a tag.
pub fn tag_element(tag: Tag) -> (element: u16)
    ensures
        element == element_of(tag),
{
    (tag % 0x1_0000) as u16
}

/// Splitting a tag and putting it together again gives the tag back, and
/// the other way round.
pub proof fn lemma_tag_halves(tag: Tag, group: u16, element: u16)
    ensures
        tag_of(group_of(tag), element_of(tag)) == tag,
        group_of(tag_of(group, element)) == group,
        element_of(tag_of(group, element)) == element,
{
}

/// The upper-case hexadecimal digit for a value below 16, as a text.
fn hex_digit_str(d: u32) -> (s: &'static str)
    requires
        d < 16,
    ensures
        s@ == seq![hex_digit(d as int)],
{
    proof {
        reveal_strlit("0");
        reveal_strlit("1");
        reveal_strlit("2");
        reveal_strlit("3");
        reveal_strlit("4");
        reveal_strlit("5");
        reveal_strlit("6");
        reveal_strlit("7");
        reveal_strlit("8");
        reveal_strlit("9");
        reveal_strlit("A");
        reveal_strlit("B");
        reveal_strlit("C");
        reveal_strlit("D");
        reveal_strlit("E");
        reveal_strlit("F");
    }
    let s = if d == 0 {
        "0"
    } else if d == 1 {
        "1"
    } else if d == 2 {
        "2"
    } else if d == 3 {
        "3"
    } else if d == 4 {
        "4"
    } else if d == 5 {
        "5"
    } else if d == 6 {
        "6"
    } else if d == 7 {
        "7"
    } else if d == 8 {
        "8"
    } else if d == 9 {
        "9"
    } else if d == 10 {
        "A"
    } else if d == 11 {
        "B"
    } else if d == 12 {
        "C"
    } else if d == 13 {
        "D"
    } else if d == 14 {
        "E"
    } else {
        "F"
    };
    assert(s@ =~= seq![hex_digit(d as int)]);
    s
}

/// Appends the eight hexadecimal digits of a tag.
fn append_hex_key(out: &mut String, tag: Tag)
    ensures
        final(out)@ == old(out)@ + hex_key_spec(tag),
{
    out.append(hex_digit_str(tag / 0x1000_0000 % 16));
    out.append(hex_digit_str(tag / 0x100_0000 % 16));
    out.append(hex_digit_str(tag / 0x10_0000 % 16));
    out.append(hex_digit_str(tag / 0x1_0000 % 16));
    out.append(hex_digit_str(tag / 0x1000 % 16));
    out.append(hex_digit_str(tag / 0x100 % 16));
    out.append(hex_digit_str(tag / 0x10 % 16));
    out.append(hex_digit_str(tag % 16));
    assert(out@ =~= old(out)@ + hex_key_spec(tag));
}

/// The key of a tag.
pub fn tag_to_string(tag: Tag) -> (key: String)
    ensures
        key@ == hex_key_spec(tag),
{
    let mut key = String::new();
    append_hex_key(&mut key, tag);
    assert(key@ =~= hex_key_spec(tag));
    key
}

/// The key under which the value of a tag stands in a JSON object: the key
/// of the tag.
pub fn json_key(tag: Tag) -> (key: String)
    ensures
        key@ == hex_key_spec(tag),
{
    tag_to_string(tag)
}

/// A number below 2^32 is the sum of its eight hexadecimal digits, each
/// weighted by its place.
pub proof fn lemma_hex_places(t: int)
    requires
        0 <= t < 0x1_0000_0000,
    ensures
        t == (t / 0x1000_0000 % 16) * 0x1000_0000 + (t / 0x100_0000 % 16) * 0x100_0000 + (t
            / 0x10_0000 % 16) * 0x10_0000 + (t / 0x1_0000 % 16) * 0x1_0000 + (t / 0x1000 % 16)
            * 0x1000 + (t / 0x100 % 16) * 0x100 + (t / 0x10 % 16) * 0x10 + t % 16,
{
    let q1 = t / 0x10;
    let q2 = t / 0x100;
    let q3 = t / 0x1000;
    let q4 = t / 0x1_0000;
    let q5 = t / 0x10_0000;
    let q6 = t / 0x100_0000;
    let q7 = t / 0x1000_0000;
    assert(q2 == q1 / 16);
    assert(q3 == q2 / 16);
    assert(q4 == q3 / 16);
    assert(q5 == q4 / 16);
    assert(q6 == q5 / 16);
    assert(q7 == q6 / 16);
    assert(q7 < 16);
    assert(t == q1 * 16 + t % 16);
    assert(q1 == q2 * 16 + q1 % 16);
    assert(q2 == q3 * 16 + q2 % 16);
    assert(q3 == q4 * 16 + q3 % 16);
    assert(q4 == q5 * 16 + q4 % 16);
    assert(q5 == q6 * 16 + q5 % 16);
    assert(q6 == q7 * 16 + q6 % 16);
}

/// Two tags have the same key only if they are the same tag.
pub proof fn lemma_hex_key_injective(a: Tag, b: Tag)
    requires
        hex_key_spec(a) == hex_key_spec(b),
    ensures
        a == b,
{
    let ka = hex_key_spec(a);
    let kb = hex_key_spec(b);
    assert(ka[0] == kb[0] && ka[1] == kb[1] && ka[2] == kb[2] && ka[3] == kb[3]);
    assert(ka[4] == kb[4] && ka[5] == kb[5] && ka[6] == kb[6] && ka[7] == kb[7]);
    lemma_hex_digit_injective(a as int / 0x1000_0000 % 16, b as int / 0x1000_0000 % 16);
    lemma_hex_digit_injective(a as int / 0x100_0000 % 16, b as int / 0x100_0000 % 16);
    lemma_hex_digit_injective(a as int / 0x10_0000 % 16, b as int / 0x10_0000 % 16);
    lemma_hex_digit_injective(a as int / 0x1_0000 % 16, b as int / 0x1_0000 % 16);
    lemma_hex_digit_injective(a as int / 0x1000 % 16, b as int / 0x1000 % 16);
    lemma_hex_digit_injective(a as int / 0x100 % 16, b as int / 0x100 % 16);
    lemma_hex_digit_injective(a as int / 0x10 % 16, b as int / 0x10 % 16);
    lemma_hex_digit_injective(a as int % 16, b as int % 16);
    lemma_hex_places(a as int);
    lemma_hex_places(b as int);
}

/// Two values below 16 have the same digit only if they are equal.
pub proof fn lemma_hex_digit_injective(x: int, y: int)
    requires
        0 <= x < 16,
        0 <= y < 16,
        hex_digit(x) == hex_digit(y),
    ensures
        x == y,
{
}

} // verus!
