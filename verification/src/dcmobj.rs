//! Parsed objects: reading attributes out of them, parsing them from the
//! bytes of a file and writing them back to bytes.
//!
//! The objects are those of `dicom_object`. What this module says of them
//! rests on that crate and is not proved here.

use vstd::prelude::*;
use dicom_object::DefaultDicomObject;
use crate::error::FileError;
use crate::tags::{lemma_tag_halves, tag_element, tag_group, tag_of, Tag};
use crate::text::{parse_u16, parse_unsigned};

verus! {

#[verifier::external_type_specification]
#[verifier::external_body]
#[verifier::reject_recursive_types(O)]
pub struct ExFileDicomObject<O>(dicom_object::FileDicomObject<O>);

#[verifier::external_type_specification]
#[verifier::external_body]
#[verifier::reject_recursive_types(D)]
pub struct ExInMemDicomObject<D>(dicom_object::InMemDicomObject<D>);

#[verifier::external_type_specification]
#[verifier::external_body]
pub struct ExStandardDataDictionary(dicom_object::StandardDataDictionary);

#[verifier::external_type_specification]
#[verifier::external_body]
pub struct ExReadError(dicom_object::ReadError);

#[verifier::external_type_specification]
#[verifier::external_body]
pub struct ExWriteError(dicom_object::WriteError);

/// The text of each element of the object's main data set that holds a
/// primitive value, by tag: the value as one string, without trailing
/// spaces and NUL characters, several values joined by backslashes.
pub uninterp spec fn object_text(obj: DefaultDicomObject) -> Map<Tag, Seq<char>>;

/// The number of each element of the object's main data set whose value
/// converts to an unsigned 16-bit number, by tag.
pub uninterp spec fn object_numbers(obj: DefaultDicomObject) -> Map<Tag, u16>;

/// The transfer syntax UID in the object's file meta group, without trailing
/// white space and NUL characters.
pub uninterp spec fn object_transfer_syntax(obj: DefaultDicomObject) -> Seq<char>;

/// The bytes of the file that holds the object: preamble, magic code, file
/// meta group and data set; `None` where the object cannot be written.
pub uninterp spec fn object_bytes(obj: DefaultDicomObject) -> Option<Seq<u8>>;

/// The object that the bytes of a file hold; `None` where the bytes do not
/// parse.
pub uninterp spec fn parsed_object(bytes: Seq<u8>) -> Option<DefaultDicomObject>;

/// The object that the bytes of a file hold, read up to the first element
/// whose tag is not below `stop`; `None` where the bytes do not parse.
pub uninterp spec fn parsed_until(bytes: Seq<u8>, stop: Tag) -> Option<DefaultDicomObject>;

/// Looks an element up with `InMemDicomObject::element_opt` and converts it
/// with `DataElement::to_str`. The result is `None` where the data set has no
/// element with this tag or the element holds no primitive value.
#[verifier::external_body]
fn element_text(obj: &DefaultDicomObject, group: u16, element: u16) -> (text: Option<String>)
    ensures
        match text {
            Some(found) => object_text(*obj).contains_key(tag_of(group, element)) && object_text(
                *obj,
            )[tag_of(group, element)] == found@,
            None => !object_text(*obj).contains_key(tag_of(group, element)),
        },
{
    match obj.element_opt(dicom_core::Tag(group, element)) {
        Ok(Some(found)) => match found.to_str() {
            Ok(text) => Some(text.into_owned()),
            Err(_) => None,
        },
        _ => None,
    }
}

/// Looks an element up with `InMemDicomObject::element` and converts it with
/// `DataElement::to_int`. The result is `None` where the data set has no
/// element with this tag or its value gives no unsigned 16-bit number.
#[verifier::external_body]
fn element_number(obj: &DefaultDicomObject, group: u16, element: u16) -> (number: Option<u16>)
    ensures
        match number {
            Some(found) => object_numbers(*obj).contains_key(tag_of(group, element))
                && object_numbers(*obj)[tag_of(group, element)] == found,
            None => !object_numbers(*obj).contains_key(tag_of(group, element)),
        },
{
    match obj.element(dicom_core::Tag(group, element)) {
        Ok(found) => match found.to_int::<u16>() {
            Ok(number) => Some(number),
            Err(_) => None,
        },
        Err(_) => None,
    }
}

/// Reads `FileMetaTable::transfer_syntax` from the object's file meta group.
#[verifier::external_body]
fn meta_transfer_syntax(obj: &DefaultDicomObject) -> (uid: String)
    ensures
        uid@ == object_transfer_syntax(*obj),
{
    obj.meta().transfer_syntax().to_string()
}

/// Parses the bytes of a file with `dicom_object::from_reader`: the preamble
/// is skipped where there is one, then file meta group and data set are read.
#[verifier::external_body]
fn parse_all(bytes: &Vec<u8>) -> (parsed: Result<DefaultDicomObject, dicom_object::ReadError>)
    ensures
        match parsed {
            Ok(obj) => parsed_object(bytes@) == Some(obj),
            Err(_) => parsed_object(bytes@) is None,
        },
{
    dicom_object::from_reader(bytes.as_slice())
}

/// Parses the bytes of a file with `OpenFileOptions::read_until` and
/// `OpenFileOptions::from_reader`: as `dicom_object::from_reader`, but reading
/// of the data set ends before the first element whose tag is not below the
/// given one.
#[verifier::external_body]
fn parse_until(bytes: &Vec<u8>, group: u16, element: u16) -> (parsed: Result<
    DefaultDicomObject,
    dicom_object::ReadError,
>)
    ensures
        match parsed {
            Ok(obj) => parsed_until(bytes@, tag_of(group, element)) == Some(obj),
            Err(_) => parsed_until(bytes@, tag_of(group, element)) is None,
        },
{
    let options = dicom_object::OpenFileOptions::new();
    options.read_until(dicom_core::Tag(group, element)).from_reader(bytes.as_slice())
}

/// Writes the object with `FileDicomObject::write_all` into a buffer.
#[verifier::external_body]
fn write_all(obj: &DefaultDicomObject) -> (written: Result<Vec<u8>, dicom_object::WriteError>)
    ensures
        match written {
            Ok(bytes) => object_bytes(*obj) == Some(bytes@),
            Err(_) => object_bytes(*obj) is None,
        },
{
    let mut buffer = Vec::new();
    match obj.write_all(&mut buffer) {
        Ok(()) => Ok(buffer),
        Err(error) => Err(error),
    }
}

/// The words of a `ReadError`, as its `Display` gives them.
#[verifier::external_body]
fn read_error_words(error: &dicom_object::ReadError) -> (words: String) {
    format!("{}", error)
}

/// The words of a `WriteError`, as its `Display` gives them.
#[verifier::external_body]
fn write_error_words(error: &dicom_object::WriteError) -> (words: String) {
    format!("{}", error)
}

/// The text of an attribute of an object: the text of its element, and the
/// empty text where the object has none.
pub open spec fn object_field(obj: DefaultDicomObject, tag: Tag) -> Seq<char> {
    if object_text(obj).contains_key(tag) {
        object_text(obj)[tag]
    } else {
        Seq::<char>::empty()
    }
}

/// The number of an attribute of an object: what the text of its element
/// means as an unsigned 16-bit number, and `default` where the object has no
/// such element or its text is no such number.
pub open spec fn object_number(obj: DefaultDicomObject, tag: Tag, default: u16) -> u16 {
    if object_text(obj).contains_key(tag) {
        match parse_unsigned(object_text(obj)[tag], u16::MAX as nat) {
            Some(n) => n as u16,
            None => default,
        }
    } else {
        default
    }
}

/// The text of an attribute, if the object has it.
pub fn find_string(tag: Tag, obj: &DefaultDicomObject) -> (text: Option<String>)
    ensures
        match text {
            Some(found) => object_text(*obj).contains_key(tag) && object_text(*obj)[tag]
                == found@,
            None => !object_text(*obj).contains_key(tag),
        },
{
    proof {
        lemma_tag_halves(tag, 0, 0);
    }
    element_text(obj, tag_group(tag), tag_element(tag))
}

/// The text of an attribute, empty where the object does not have it.
pub fn get_string(tag: Tag, obj: &DefaultDicomObject) -> (text: String)
    ensures
        text@ == object_field(*obj, tag),
{
    match find_string(tag, obj) {
        Some(found) => found,
        None => String::new(),
    }
}

/// The number of an attribute, `def_value` where the object does not have it
/// or its text is no unsigned 16-bit number.
pub fn get_tag_value(tag: Tag, obj: &DefaultDicomObject, def_value: u16) -> (number: u16)
    ensures
        number == object_number(*obj, tag, def_value),
{
    match find_string(tag, obj) {
        Some(found) => match parse_u16(found.as_str()) {
            Some(number) => number,
            None => def_value,
        },
        None => def_value,
    }
}

/// The number that the value of an attribute converts to, if it does.
pub fn find_number(tag: Tag, obj: &DefaultDicomObject) -> (number: Option<u16>)
    ensures
        match number {
            Some(found) => object_numbers(*obj).contains_key(tag) && object_numbers(*obj)[tag]
                == found,
            None => !object_numbers(*obj).contains_key(tag),
        },
{
    proof {
        lemma_tag_halves(tag, 0, 0);
    }
    element_number(obj, tag_group(tag), tag_element(tag))
}

/// The transfer syntax UID of the object's file meta group.
pub fn transfer_syntax(obj: &DefaultDicomObject) -> (uid: String)
    ensures
        uid@ == object_transfer_syntax(*obj),
{
    meta_transfer_syntax(obj)
}

/// Parses the bytes of a file.
pub fn read_object(bytes: &Vec<u8>) -> (read: Result<DefaultDicomObject, FileError>)
    ensures
        match read {
            Ok(obj) => parsed_object(bytes@) == Some(obj),
            Err(error) => parsed_object(bytes@) is None && error is Open,
        },
{
    match parse_all(bytes) {
        Ok(obj) => Ok(obj),
        Err(error) => Err(FileError::Open(read_error_words(&error))),
    }
}

/// Parses the bytes of a file up to the first element whose tag is not below
/// `stop`; that element is left out with all that follows it.
pub fn read_object_until(bytes: &Vec<u8>, stop: Tag) -> (read: Result<
    DefaultDicomObject,
    FileError,
>)
    ensures
        match read {
            Ok(obj) => parsed_until(bytes@, stop) == Some(obj),
            Err(error) => parsed_until(bytes@, stop) is None && error is Open,
        },
{
    proof {
        lemma_tag_halves(stop, 0, 0);
    }
    match parse_until(bytes, tag_group(stop), tag_element(stop)) {
        Ok(obj) => Ok(obj),
        Err(error) => Err(FileError::Open(read_error_words(&error))),
    }
}

/// The bytes of the file that holds the object.
pub fn object_to_bytes(obj: &DefaultDicomObject) -> (written: Result<Vec<u8>, FileError>)
    ensures
        match written {
            Ok(bytes) => object_bytes(*obj) == Some(bytes@),
            Err(error) => object_bytes(*obj) is None && error is Encode,
        },
{
    match write_all(obj) {
        Ok(bytes) => Ok(bytes),
        Err(error) => Err(FileError::Encode(write_error_words(&error))),
    }
}

} // verus!
