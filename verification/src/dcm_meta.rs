//! Small data classes read from an object: what identifies it, and the bit
//! depth of its pixels.

use vstd::prelude::*;
use dicom_object::DefaultDicomObject;
use crate::codec::{
    decode, decode_spec, distinct_keys, encode_spec, lemma_decode_encode, lemma_fitting_values,
    number_at, number_field, values_fit, DecodeError, DecodeRules, FieldKind, FieldModel,
    FieldSpec,
};
use crate::dcmobj::{
    find_number, get_string, object_field, object_numbers, object_transfer_syntax,
    transfer_syntax,
};
use crate::json::{record_text, render_record};
use crate::record::{Entry, EntryModel, JsonModel};
use crate::tags::{
    hex_key_spec, lemma_hex_key_injective, tag_to_string, Tag, BITS_ALLOCATED, BITS_STORED,
    HIGH_BIT, IMAGE_TYPE, SOP_CLASS_UID, SOP_INSTANCE_UID, SPECIFIC_CHARACTER_SET,
};

verus! {

/// What identifies an object and says how it is encoded.
#[derive(Debug, Clone)]
pub struct DcmMeta {
    pub transfer_syntax: String,
    pub character_set: String,
    pub sop_class_uid: String,
    pub sop_instance_uid: String,
    pub image_type: String,
}

impl DcmMeta {
    /// The tag of the character set.
    pub fn character_set_tag() -> (tag: Tag)
        ensures
            tag == SPECIFIC_CHARACTER_SET,
    {
        SPECIFIC_CHARACTER_SET
    }

    /// The tag of the SOP class UID.
    pub fn sop_class_uid_tag() -> (tag: Tag)
        ensures
            tag == SOP_CLASS_UID,
    {
        SOP_CLASS_UID
    }

    /// The tag of the SOP instance UID.
    pub fn sop_instance_uid_tag() -> (tag: Tag)
        ensures
            tag == SOP_INSTANCE_UID,
    {
        SOP_INSTANCE_UID
    }

    /// The tag of the image type.
    pub fn image_type_tag() -> (tag: Tag)
        ensures
            tag == IMAGE_TYPE,
    {
        IMAGE_TYPE
    }

    /// Reads the attributes from an object: the transfer syntax from its file
    /// meta group, the others from its data set. An attribute that the data
    /// set does not have is empty.
    pub fn new(obj: &DefaultDicomObject) -> (meta: Self)
        ensures
            meta.transfer_syntax@ == object_transfer_syntax(*obj),
            meta.character_set@ == object_field(*obj, SPECIFIC_CHARACTER_SET),
            meta.sop_class_uid@ == object_field(*obj, SOP_CLASS_UID),
            meta.sop_instance_uid@ == object_field(*obj, SOP_INSTANCE_UID),
            meta.image_type@ == object_field(*obj, IMAGE_TYPE),
    {
        Self {
            transfer_syntax: transfer_syntax(obj),
            character_set: get_string(DcmMeta::character_set_tag(), obj),
            sop_class_uid: get_string(DcmMeta::sop_class_uid_tag(), obj),
            sop_instance_uid: get_string(DcmMeta::sop_instance_uid_tag(), obj),
            image_type: get_string(DcmMeta::image_type_tag(), obj),
        }
    }
}

/// Whether an object gives the three numbers of a bit depth.
pub open spec fn has_bit_depth(obj: DefaultDicomObject) -> bool {
    &&& object_numbers(obj).contains_key(BITS_ALLOCATED)
    &&& object_numbers(obj).contains_key(BITS_STORED)
    &&& object_numbers(obj).contains_key(HIGH_BIT)
}

/// The bit depth of the pixels: how many bits each sample occupies, how many
/// of them carry data, and the position of the most significant one.
#[derive(Debug, Clone)]
pub struct DcmMapMeta {
    pub bit_allocated: u16,
    pub bits_stored: u16,
    pub high_bit: u16,
}

impl DcmMapMeta {
    /// The tag of the bits allocated.
    pub fn bit_allocated_tag() -> (tag: Tag)
        ensures
            tag == BITS_ALLOCATED,
    {
        BITS_ALLOCATED
    }

    /// The tag of the bits stored.
    pub fn bits_stored_tag() -> (tag: Tag)
        ensures
            tag == BITS_STORED,
    {
        BITS_STORED
    }

    /// The tag of the high bit.
    pub fn high_bit_tag() -> (tag: Tag)
        ensures
            tag == HIGH_BIT,
    {
        HIGH_BIT
    }

    /// Reads the bit depth from an object that gives all three numbers.
    pub fn new(obj: &DefaultDicomObject) -> (meta: Self)
        requires
            has_bit_depth(*obj),
        ensures
            meta.bit_allocated == object_numbers(*obj)[BITS_ALLOCATED],
            meta.bits_stored == object_numbers(*obj)[BITS_STORED],
            meta.high_bit == object_numbers(*obj)[HIGH_BIT],
    {
        Self {
            bit_allocated: find_number(DcmMapMeta::bit_allocated_tag(), obj).unwrap(),
            bits_stored: find_number(DcmMapMeta::bits_stored_tag(), obj).unwrap(),
            high_bit: find_number(DcmMapMeta::high_bit_tag(), obj).unwrap(),
        }
    }

    /// Reads the bit depth from an object; `None` where the object does not
    /// give all three numbers.
    pub fn try_new(obj: &DefaultDicomObject) -> (meta: Option<Self>)
        ensures
            meta is Some <==> has_bit_depth(*obj),
            meta matches Some(found) ==> {
                &&& found.bit_allocated == object_numbers(*obj)[BITS_ALLOCATED]
                &&& found.bits_stored == object_numbers(*obj)[BITS_STORED]
                &&& found.high_bit == object_numbers(*obj)[HIGH_BIT]
            },
    {
        let bit_allocated = find_number(BITS_ALLOCATED, obj);
        let bits_stored = find_number(BITS_STORED, obj);
        let high_bit = find_number(HIGH_BIT, obj);
        if bit_allocated.is_some() && bits_stored.is_some() && high_bit.is_some() {
            Some(DcmMapMeta::new(obj))
        } else {
            None
        }
    }

    /// Which rule a bit depth breaks: the message of the first rule that it
    /// does not meet, in the order in which the rules are tested; `None`
    /// where it meets them all.
    pub open spec fn bits_fault(&self) -> Option<Seq<char>> {
        if self.bit_allocated == 0 || self.bit_allocated > 32 {
            Some("bit_allocated is between (0,32]"@)
        } else if self.bit_allocated % 8 != 0 {
            Some("bit_allocated must be a multiple of 8"@)
        } else if self.bit_allocated < self.bits_stored {
            Some("bit_allocated must be >= bits_stored"@)
        } else if self.high_bit >= self.bits_stored {
            Some("high_bit must be < bits_stored"@)
        } else {
            None
        }
    }

    /// A bit depth is valid when 8, 16, 24 or 32 bits are allocated, the bits
    /// stored fit in them, and the high bit lies within the bits stored.
    pub open spec fn valid_bits(&self) -> bool {
        &&& 0 < self.bit_allocated <= 32
        &&& self.bit_allocated % 8 == 0
        &&& self.bits_stored <= self.bit_allocated
        &&& self.high_bit < self.bits_stored
    }

    /// Tests the rules of a bit depth and names the first that is broken.
    pub fn validate_bits(&self) -> (result: Result<(), String>)
        ensures
            result is Ok <==> self.valid_bits(),
            match result {
                Ok(_) => self.bits_fault() is None,
                Err(message) => self.bits_fault() == Some(message@),
            },
    {
        if self.bit_allocated == 0 || self.bit_allocated > 32 {
            return Err(String::from_str("bit_allocated is between (0,32]"));
        }
        if self.bit_allocated % 8 != 0 {
            return Err(String::from_str("bit_allocated must be a multiple of 8"));
        }
        if self.bit_allocated < self.bits_stored {
            return Err(String::from_str("bit_allocated must be >= bits_stored"));
        }
        if self.high_bit >= self.bits_stored {
            return Err(String::from_str("high_bit must be < bits_stored"));
        }
        Ok(())
    }

    /// Whether the bit depth is valid.
    pub fn check_valid(&self) -> (valid: bool)
        ensures
            valid == self.valid_bits(),
    {
        self.validate_bits().is_ok()
    }
}

/// The bit depth of the pixels, as a record with the plain keys of the tags.
#[derive(Debug, Clone)]
pub struct DcmEntityBaseMeta {
    pub bit_allocated: u16,
    pub bits_stored: u16,
    pub high_bit: u16,
}

impl DcmEntityBaseMeta {
    /// The tag of the bits allocated.
    pub const BIT_ALLOCATED_TAG: Tag = BITS_ALLOCATED;

    /// The tag of the bits stored.
    pub const BITS_STORED_TAG: Tag = BITS_STORED;

    /// The tag of the high bit.
    pub const HIGH_BIT_TAG: Tag = HIGH_BIT;

    /// The tags of the fields, in the order in which a record lists them.
    pub open spec fn field_tags() -> Seq<Tag> {
        seq![BITS_ALLOCATED, BITS_STORED, HIGH_BIT]
    }

    /// The fields: each is filed under the eight digits of its tag and takes
    /// a number.
    pub open spec fn schema_spec() -> Seq<FieldModel> {
        Seq::new(
            Self::field_tags().len(),
            |j: int| FieldModel { key: hex_key_spec(Self::field_tags()[j]), kind: FieldKind::Number },
        )
    }

    /// What a record must meet beyond having the fields: nothing.
    pub open spec fn rules() -> DecodeRules {
        DecodeRules { reject_duplicates: false, unknown_must_be_text: false }
    }

    /// The values of the fields, in the order of the fields.
    pub open spec fn values(&self) -> Seq<JsonModel> {
        seq![
            JsonModel::Number(self.bit_allocated as u64),
            JsonModel::Number(self.bits_stored as u64),
            JsonModel::Number(self.high_bit as u64),
        ]
    }

    /// The record: one member for each field, in the order of the fields.
    pub open spec fn record(&self) -> Seq<EntryModel> {
        encode_spec(Self::schema_spec(), self.values())
    }

    /// Reads the bit depth from an object that gives all three numbers.
    pub fn new(obj: &DefaultDicomObject) -> (meta: Self)
        requires
            has_bit_depth(*obj),
        ensures
            meta.bit_allocated == object_numbers(*obj)[BITS_ALLOCATED],
            meta.bits_stored == object_numbers(*obj)[BITS_STORED],
            meta.high_bit == object_numbers(*obj)[HIGH_BIT],
    {
        Self {
            bit_allocated: find_number(BITS_ALLOCATED, obj).unwrap(),
            bits_stored: find_number(BITS_STORED, obj).unwrap(),
            high_bit: find_number(HIGH_BIT, obj).unwrap(),
        }
    }

    /// Reads the bit depth from an object; `None` where the object does not
    /// give all three numbers.
    pub fn try_new(obj: &DefaultDicomObject) -> (meta: Option<Self>)
        ensures
            meta is Some <==> has_bit_depth(*obj),
            meta matches Some(found) ==> {
                &&& found.bit_allocated == object_numbers(*obj)[BITS_ALLOCATED]
                &&& found.bits_stored == object_numbers(*obj)[BITS_STORED]
                &&& found.high_bit == object_numbers(*obj)[HIGH_BIT]
            },
    {
        let bit_allocated = find_number(BITS_ALLOCATED, obj);
        let bits_stored = find_number(BITS_STORED, obj);
        let high_bit = find_number(HIGH_BIT, obj);
        if bit_allocated.is_some() && bits_stored.is_some() && high_bit.is_some() {
            Some(DcmEntityBaseMeta::new(obj))
        } else {
            None
        }
    }

    /// The fields of a record.
    pub fn schema() -> (schema: Vec<FieldSpec>)
        ensures
            schema.deep_view() == Self::schema_spec(),
    {
        let mut schema: Vec<FieldSpec> = Vec::new();
        schema.push(number_field(tag_to_string(BITS_ALLOCATED).as_str()));
        schema.push(number_field(tag_to_string(BITS_STORED).as_str()));
        schema.push(number_field(tag_to_string(HIGH_BIT).as_str()));
        assert(schema.deep_view() =~= Self::schema_spec());
        schema
    }

    /// The record: one member for each field, in the order of the fields.
    pub fn to_entries(&self) -> (entries: Vec<Entry>)
        ensures
            entries.deep_view() == self.record(),
    {
        let mut entries: Vec<Entry> = Vec::new();
        entries.push(Entry::number(tag_to_string(BITS_ALLOCATED), self.bit_allocated as u64));
        entries.push(Entry::number(tag_to_string(BITS_STORED), self.bits_stored as u64));
        entries.push(Entry::number(tag_to_string(HIGH_BIT), self.high_bit as u64));
        assert(entries.deep_view() =~= self.record());
        entries
    }

    /// Reads the fields from a record. Every field must have a member with a
    /// number from 0 to 65535; members with other keys are passed over.
    pub fn from_entries(entries: &Vec<Entry>) -> (result: Result<Self, DecodeError>)
        ensures
            match decode_spec(Self::schema_spec(), Self::rules(), entries.deep_view()) {
                Ok(values) => result is Ok && result.unwrap().values() == values,
                Err(fault) => result == Err::<Self, DecodeError>(fault),
            },
    {
        let rules = DecodeRules { reject_duplicates: false, unknown_must_be_text: false };
        proof {
            Self::lemma_schema_distinct();
        }
        match decode(&Self::schema(), rules, entries) {
            Ok(values) => {
                proof {
                    lemma_fitting_values(Self::schema_spec(), values);
                }
                let meta = Self {
                    bit_allocated: number_at(&values, 0),
                    bits_stored: number_at(&values, 1),
                    high_bit: number_at(&values, 2),
                };
                assert(meta.values() =~= values.deep_view());
                Ok(meta)
            },
            Err(fault) => Err(fault),
        }
    }

    /// The record as JSON text.
    pub fn to_json(&self) -> (text: String)
        ensures
            text@ == record_text(self.record()),
    {
        render_record(&self.to_entries())
    }

    /// No two fields are filed under the same key.
    pub proof fn lemma_schema_distinct()
        ensures
            distinct_keys(Self::schema_spec()),
    {
        let tags = Self::field_tags();
        let schema = Self::schema_spec();
        assert forall|a: int, b: int| 0 <= a < b < schema.len() implies (#[trigger] schema[a]).key
            != (#[trigger] schema[b]).key by {
            if schema[a].key == schema[b].key {
                lemma_hex_key_injective(tags[a], tags[b]);
            }
        }
    }

    /// Reading the record written from the fields gives the fields back.
    pub proof fn lemma_round_trip(&self)
        ensures
            decode_spec(Self::schema_spec(), Self::rules(), self.record()) == Ok::<
                Seq<JsonModel>,
                DecodeError,
            >(self.values()),
    {
        Self::lemma_schema_distinct();
        assert(values_fit(Self::schema_spec(), self.values()));
        lemma_decode_encode(Self::schema_spec(), Self::rules(), self.values());
    }
}

} // verus!
