//! Packing of the little-endian `propertyArrays` byte buffers that the CAS
//! BACnet Stack's client-role `Send*` calls consume (ReadProperty,
//! WriteProperty, CreateObject, WriteGroup, SubscribeCOVPropertyMultiple).
//!
//! Every multi-byte field is little-endian. A numeric field that would not fit
//! its wire field is refused with an error message that names the offending
//! element, rather than truncated.
//!
//! Values in [`WriteElement::value`] are TEXT (a Real 72.5 is the four bytes
//! `"72.5"`), while [`WriteGroupChangeListEntry::value`] and
//! [`CreateObjectInitialValue::value`] are raw binary; this module copies
//! whatever bytes it is given and does not look at them.
use vstd::prelude::*;
use vstd::string::*;

use crate::text::{dec_int, dec_nat, push_decimal_i64, push_decimal_u64};
use crate::wire::{
    concat_records, lemma_concat_records_append, lemma_concat_records_fixed_size,
    lemma_concat_records_single, lemma_concat_records_take_step, le_u16,
    le_u32, lemma_le_u16_read_back, lemma_le_u32_read_back, lemma_subrange_fields, push_bytes,
    push_le_u16, push_le_u32, read_le_u16, read_le_u32,
};

verus! {

/// Highest BACnet primitive application datatype tag accepted by the write/create paths.
pub const WRITABLE_TAG_MAX: u8 = 12;

/// Highest BACnet write priority (cl. 19.2). 1..16 are valid; 0 means "no priority".
pub const WRITE_PRIORITY_MAX: u8 = 16;

const UINT32_MAX: u64 = 0xFFFF_FFFF;

const UINT16_MAX_LEN: usize = 0xFFFF;

// ---------------------------------------------------------------------------
// Error messages
// ---------------------------------------------------------------------------

/// The message for a datatype tag that is not a primitive application tag.
pub open spec fn tag_message(tag: u8) -> Seq<char> {
    "datatype tag "@ + dec_nat(tag as nat)
        + " is not a BACnet primitive application type (0.."@ + dec_nat(12)
        + "); constructed/complex types are not supported by the write/create path"@
}

/// The message for a field value outside `0..max`.
pub open spec fn range_message(path: Seq<char>, value: int, max: nat, width_name: Seq<char>) -> Seq<
    char,
> {
    path + " = "@ + dec_int(value) + " is not an integer in 0.."@ + dec_nat(max) + " ("@
        + width_name + ")"@
}

/// The message for a write priority above 16.
pub open spec fn priority_message(path: Seq<char>, priority: int) -> Seq<char> {
    path + " = "@ + dec_int(priority) + " exceeds the maximum BACnet write priority "@ + dec_nat(
        16,
    ) + " (cl. 19.2)"@
}

/// The message for a value payload longer than the uint16 valueLength field allows.
pub open spec fn value_length_message(path: Seq<char>, len: nat) -> Seq<char> {
    path + ".length = "@ + dec_nat(len) + " exceeds the maximum "@ + dec_nat(65535)
        + " (uint16 valueLength)"@
}

/// The error of [`assert_writable_tag`], if any.
pub open spec fn tag_error(tag: u8) -> Option<Seq<char>> {
    if tag > 12 {
        Some(tag_message(tag))
    } else {
        None
    }
}

/// The error of [`assert_unsigned_field`], if any.
pub open spec fn unsigned_field_error(path: Seq<char>, value: int, max: nat, width_name: Seq<char>) -> Option<
    Seq<char>,
> {
    if value < 0 || value > max {
        Some(range_message(path, value, max, width_name))
    } else {
        None
    }
}

/// The error of [`assert_sentinel_field`], if any: a negative value is the
/// "absent" sentinel and passes.
pub open spec fn sentinel_field_error(path: Seq<char>, value: int, max: nat, width_name: Seq<char>) -> Option<
    Seq<char>,
> {
    if value >= 0 && value > max {
        Some(range_message(path, value, max, width_name))
    } else {
        None
    }
}

/// The error of [`assert_write_priority`], if any: zero or negative is
/// "absent" and passes.
pub open spec fn priority_error(path: Seq<char>, priority: int) -> Option<Seq<char>> {
    if priority > 16 {
        Some(priority_message(path, priority))
    } else {
        None
    }
}

/// The error of [`assert_value_buffer`], if any.
pub open spec fn value_length_error(path: Seq<char>, len: nat) -> Option<Seq<char>> {
    if len > 65535 {
        Some(value_length_message(path, len))
    } else {
        None
    }
}

/// The first of two checks that fails, if either does.
pub open spec fn first_error(a: Option<Seq<char>>, b: Option<Seq<char>>) -> Option<Seq<char>> {
    if a is Some {
        a
    } else {
        b
    }
}

/// The path that names field `field` of element `i` of `collection`, as in
/// `elements[2].objectType`.
pub open spec fn element_path(collection: Seq<char>, i: int, field: Seq<char>) -> Seq<char> {
    collection + "["@ + dec_nat(i as nat) + "]."@ + field
}

/// What a call of one of the `assert_*` checks returned, against the error
/// that it is specified to report (`None`: it passes).
pub open spec fn check_outcome(r: Result<(), String>, error: Option<Seq<char>>) -> bool {
    match r {
        Ok(_) => error is None,
        Err(m) => error == Some(m@),
    }
}

/// What an encoder returned, against the elements it was given: `Ok` with the
/// concatenated records when no element has an error, otherwise `Err` with the
/// error of the first element that has one.
pub open spec fn encoding_outcome<T>(
    s: Seq<T>,
    error: spec_fn(int, T) -> Option<Seq<char>>,
    record: spec_fn(T) -> Seq<u8>,
    r: Result<Vec<u8>, String>,
) -> bool {
    match r {
        Ok(buf) => (forall|i: int| 0 <= i < s.len() ==> (#[trigger] error(i, s[i])) is None)
            && buf@ == concat_records(s, record),
        Err(m) => exists|i: int|
            0 <= i < s.len() && error(i, s[i]) == Some(m@) && (forall|j: int|
                0 <= j < i ==> (#[trigger] error(j, s[j])) is None),
    }
}

// ---------------------------------------------------------------------------
// Checks
// ---------------------------------------------------------------------------

fn element_path_text(collection: &str, i: usize, field: &str) -> (p: String)
    ensures
        p@ == element_path(collection@, i as int, field@),
{
    let mut p = String::from_str(collection);
    p.append("[");
    push_decimal_u64(&mut p, i as u64);
    p.append("].");
    p.append(field);
    p
}

fn range_message_text(path: &str, value: i64, max: u64, width_name: &str) -> (m: String)
    ensures
        m@ == range_message(path@, value as int, max as nat, width_name@),
{
    let mut m = String::from_str(path);
    m.append(" = ");
    push_decimal_i64(&mut m, value);
    m.append(" is not an integer in 0..");
    push_decimal_u64(&mut m, max);
    m.append(" (");
    m.append(width_name);
    m.append(")");
    m
}

/// Rejects any datatype that is not a BACnet primitive application tag
/// (0..12). Constructed/complex types are not supported by the write/create
/// path.
pub fn assert_writable_tag(tag: u8) -> (r: Result<(), String>)
    ensures
        r is Ok <==> tag <= WRITABLE_TAG_MAX,
        r matches Err(m) ==> m@ == tag_message(tag),
        check_outcome(r, tag_error(tag)),
{
    if tag > WRITABLE_TAG_MAX {
        let mut m = String::from_str("datatype tag ");
        push_decimal_u64(&mut m, tag as u64);
        m.append(" is not a BACnet primitive application type (0..");
        push_decimal_u64(&mut m, WRITABLE_TAG_MAX as u64);
        m.append(
            "); constructed/complex types are not supported by the write/create path",
        );
        return Err(m);
    }
    Ok(())
}

/// Rejects a numeric field that does not fit the fixed-width buffer writer
/// backing it (`0..max`), naming the offending field.
///
/// `path` is the element path for the message, e.g. `"elements[2].objectType"`.
/// `max` is the highest accepted value. `width_name` names the bound for the
/// message, e.g. `"uint16"`.
pub fn assert_unsigned_field(path: &str, value: i64, max: u64, width_name: &str) -> (r: Result<
    (),
    String,
>)
    ensures
        r is Ok <==> 0 <= value && value <= max,
        r matches Err(m) ==> m@ == range_message(path@, value as int, max as nat, width_name@),
        check_outcome(r, unsigned_field_error(path@, value as int, max as nat, width_name@)),
{
    if value < 0 || (value as u64) > max {
        return Err(range_message_text(path, value, max, width_name));
    }
    Ok(())
}

/// Validates a field that uses a negative value as an "absent" sentinel
/// (propertyArrayIndex, priority). Negative passes through as absent; a
/// non-negative value must fit its writer (`0..max`).
pub fn assert_sentinel_field(path: &str, value: i64, max: u64, width_name: &str) -> (r: Result<
    (),
    String,
>)
    ensures
        r is Ok <==> value < 0 || value <= max,
        r matches Err(m) ==> m@ == range_message(path@, value as int, max as nat, width_name@),
        check_outcome(r, sentinel_field_error(path@, value as int, max as nat, width_name@)),
{
    if value >= 0 && (value as u64) > max {
        return Err(range_message_text(path, value, max, width_name));
    }
    Ok(())
}

/// Rejects a write priority above BACnet's 16 (cl. 19.2); zero or negative is
/// "absent" and passes.
pub fn assert_write_priority(path: &str, priority: i32) -> (r: Result<(), String>)
    ensures
        r is Ok <==> priority <= WRITE_PRIORITY_MAX,
        r matches Err(m) ==> m@ == priority_message(path@, priority as int),
        check_outcome(r, priority_error(path@, priority as int)),
{
    if priority > WRITE_PRIORITY_MAX as i32 {
        let mut m = String::from_str(path);
        m.append(" = ");
        push_decimal_i64(&mut m, priority as i64);
        m.append(" exceeds the maximum BACnet write priority ");
        push_decimal_u64(&mut m, WRITE_PRIORITY_MAX as u64);
        m.append(" (cl. 19.2)");
        return Err(m);
    }
    Ok(())
}

/// Rejects a value payload whose length overflows the uint16 valueLength field
/// that precedes it on the wire.
pub fn assert_value_buffer(path: &str, value: &[u8]) -> (r: Result<(), String>)
    ensures
        r is Ok <==> value@.len() <= 65535,
        r matches Err(m) ==> m@ == value_length_message(path@, value@.len()),
        check_outcome(r, value_length_error(path@, value@.len())),
{
    if value.len() > UINT16_MAX_LEN {
        let mut m = String::from_str(path);
        m.append(".length = ");
        push_decimal_u64(&mut m, value.len() as u64);
        m.append(" exceeds the maximum ");
        push_decimal_u64(&mut m, UINT16_MAX_LEN as u64);
        m.append(" (uint16 valueLength)");
        return Err(m);
    }
    Ok(())
}

// ---------------------------------------------------------------------------
// Shared field encodings
// ---------------------------------------------------------------------------

/// `bit` when `present`, else 0.
pub open spec fn flag_bit(present: bool, bit: u8) -> u8 {
    if present {
        bit
    } else {
        0
    }
}

/// The propertyArrayIndex wire field: the index when present (non-negative),
/// else 0.
pub open spec fn array_index_field(index: i64) -> u32 {
    if index >= 0 {
        index as u32
    } else {
        0
    }
}

/// The priority wire byte: the priority when present (positive), else 0.
pub open spec fn priority_byte(priority: i32) -> u8 {
    if priority > 0 {
        priority as u8
    } else {
        0
    }
}

// ---------------------------------------------------------------------------
// ReadProperty / ReadPropertyMultiple
// ---------------------------------------------------------------------------

/// One ReadProperty / ReadPropertyMultiple property reference.
pub struct ReadElement {
    pub object_type: u16,
    pub object_instance: u32,
    pub property_identifier: u32,
    /// Negative means "no array index".
    pub property_array_index: i64,
}

/// The 15-byte record of one read element:
/// `[0] flags (bit0 = useArrayIndex) | [1..2] objectType | [3..6] objectInstance |
/// [7..10] propertyIdentifier | [11..14] propertyArrayIndex`.
pub open spec fn read_element_record(e: ReadElement) -> Seq<u8> {
    seq![flag_bit(e.property_array_index >= 0, 1)] + le_u16(e.object_type) + le_u32(
        e.object_instance,
    ) + le_u32(e.property_identifier) + le_u32(array_index_field(e.property_array_index))
}

/// The error that element `i` of a read list is refused with, if any.
pub open spec fn read_element_error(i: int, e: ReadElement) -> Option<Seq<char>> {
    sentinel_field_error(
        element_path("elements"@, i, "propertyArrayIndex"@),
        e.property_array_index as int,
        4294967295,
        "u32"@,
    )
}

/// The buffer that a list of read elements packs into.
pub open spec fn read_elements_encoding(s: Seq<ReadElement>) -> Seq<u8> {
    concat_records(s, |e: ReadElement| read_element_record(e))
}

/// Packs one or more ReadProperty / ReadPropertyMultiple elements, 15 bytes
/// each (see [`read_element_record`]).
///
/// Returns the packed buffer; pass `elements.len()` as `propertyArraysCount`.
/// Errors if any element's `property_array_index` is a non-absent value that
/// overflows u32; the error names the first such element.
pub fn encode_read_property_arrays(elements: &[ReadElement]) -> (r: Result<Vec<u8>, String>)
    ensures
        encoding_outcome(
            elements@,
            |i: int, e: ReadElement| read_element_error(i, e),
            |e: ReadElement| read_element_record(e),
            r,
        ),
        r is Ok <==> forall|i: int|
            0 <= i < elements@.len() ==> (#[trigger] elements@[i]).property_array_index < 0
                || elements@[i].property_array_index <= 4294967295,
        r matches Ok(buf) ==> buf@.len() == 15 * elements@.len() && forall|k: int|
            #![trigger elements@[k]]
            0 <= k < elements@.len() ==> {
                let b = buf@;
                let at = 15 * k;
                let e = elements@[k];
                &&& b[at] == (if e.property_array_index >= 0 {
                    1u8
                } else {
                    0u8
                })
                &&& b[at + 1] + 256 * b[at + 2] == e.object_type
                &&& b[at + 3] + 256 * b[at + 4] + 65536 * b[at + 5] + 16777216 * b[at + 6]
                    == e.object_instance
                &&& b[at + 7] + 256 * b[at + 8] + 65536 * b[at + 9] + 16777216 * b[at + 10]
                    == e.property_identifier
                &&& b[at + 11] + 256 * b[at + 12] + 65536 * b[at + 13] + 16777216 * b[at + 14]
                    == (if e.property_array_index >= 0 {
                    e.property_array_index as int
                } else {
                    0
                })
            },
{
    let mut buf: Vec<u8> = Vec::new();
    let mut i: usize = 0;
    while i < elements.len()
        invariant
            i <= elements@.len(),
            forall|j: int| 0 <= j < i ==> (#[trigger] read_element_error(j, elements@[j])) is None,
            buf@ == read_elements_encoding(elements@.take(i as int)),
        decreases elements@.len() - i,
    {
        let e = &elements[i];
        let path = element_path_text("elements", i, "propertyArrayIndex");
        match assert_sentinel_field(path.as_str(), e.property_array_index, UINT32_MAX, "u32") {
            Ok(()) => {},
            Err(m) => {
                proof {
                    lemma_read_element_accepted_iff(i as int, elements@[i as int]);
                }
                return Err(m);
            },
        }
        let use_index = e.property_array_index >= 0;
        buf.push(if use_index {
            0x01u8
        } else {
            0x00u8
        });
        push_le_u16(&mut buf, e.object_type);
        push_le_u32(&mut buf, e.object_instance);
        push_le_u32(&mut buf, e.property_identifier);
        push_le_u32(
            &mut buf,
            if use_index {
                e.property_array_index as u32
            } else {
                0
            },
        );
        proof {
            lemma_concat_records_take_step(
                elements@,
                i as int,
                |e: ReadElement| read_element_record(e),
            );
        }
        assert(buf@ =~= read_elements_encoding(elements@.take(i as int)) + read_element_record(
            *e,
        ));
        i += 1;
    }
    assert(elements@.take(i as int) =~= elements@);
    assert forall|j: int| 0 <= j < elements@.len() implies (#[trigger] elements@[j]).property_array_index < 0
                || elements@[j].property_array_index <= 4294967295 by {
        lemma_read_element_accepted_iff(j, elements@[j]);
    }
    proof {
        lemma_read_buffer_layout(elements@);
    }
    Ok(buf)
}

// ---------------------------------------------------------------------------
// Fields shared by WriteProperty and CreateObject elements
// ---------------------------------------------------------------------------

/// The error that element `i` of `collection` is refused with, if any, given
/// the fields that the write and create paths check, in the order they are
/// checked: datatype tag, propertyArrayIndex, priority, value length.
pub open spec fn write_fields_error(
    collection: Seq<char>,
    i: int,
    datatype: u8,
    index: i64,
    priority: i32,
    value_len: nat,
) -> Option<Seq<char>> {
    first_error(
        tag_error(datatype),
        first_error(
            sentinel_field_error(
                element_path(collection, i, "propertyArrayIndex"@),
                index as int,
                4294967295,
                "u32"@,
            ),
            first_error(
                priority_error(element_path(collection, i, "priority"@), priority as int),
                value_length_error(element_path(collection, i, "value"@), value_len),
            ),
        ),
    )
}

/// The flags byte of a write or create element: bit0 useArrayIndex, bit1 usePriority.
pub open spec fn write_flags(index: i64, priority: i32) -> u8 {
    (flag_bit(index >= 0, 1) + flag_bit(priority > 0, 2)) as u8
}

fn check_write_fields(
    collection: &str,
    i: usize,
    datatype: u8,
    index: i64,
    priority: i32,
    value: &[u8],
) -> (r: Result<(), String>)
    ensures
        check_outcome(
            r,
            write_fields_error(collection@, i as int, datatype, index, priority, value@.len()),
        ),
{
    match assert_writable_tag(datatype) {
        Ok(()) => {},
        Err(m) => {
            return Err(m);
        },
    }
    let index_path = element_path_text(collection, i, "propertyArrayIndex");
    match assert_sentinel_field(index_path.as_str(), index, UINT32_MAX, "u32") {
        Ok(()) => {},
        Err(m) => {
            return Err(m);
        },
    }
    let priority_path = element_path_text(collection, i, "priority");
    match assert_write_priority(priority_path.as_str(), priority) {
        Ok(()) => {},
        Err(m) => {
            return Err(m);
        },
    }
    let value_path = element_path_text(collection, i, "value");
    assert_value_buffer(value_path.as_str(), value)
}

fn write_flags_byte(index: i64, priority: i32) -> (flags: u8)
    ensures
        flags == write_flags(index, priority),
{
    let mut flags = 0u8;
    if index >= 0 {
        flags = flags + 0x01;
    }
    if priority > 0 {
        flags = flags + 0x02;
    }
    flags
}

// ---------------------------------------------------------------------------
// WriteProperty / WritePropertyMultiple
// ---------------------------------------------------------------------------

/// One WriteProperty / WritePropertyMultiple property write.
pub struct WriteElement {
    pub object_type: u16,
    pub object_instance: u32,
    pub property_identifier: u32,
    /// Negative means "no array index".
    pub property_array_index: i64,
    /// Zero or negative means "no priority".
    pub priority: i32,
    /// BACnet primitive application datatype tag (0..12).
    pub datatype: u8,
    /// The value as ASCII/UTF-8 TEXT (the characters a human would type), NOT
    /// a raw binary copy of the typed value: Real 72.5 is `b"72.5"`, Boolean
    /// true is `b"1"`, Unsigned 25 is `b"25"`, BitString is `b"b10101"`,
    /// OctetString is `b"0x0102"`, Null is `b""`. The stack parses these bytes
    /// as text; `datatype` selects which parse is applied.
    pub value: Vec<u8>,
}

/// The record of one write element, 19 bytes + value:
/// `[0] flags (bit0 useArrayIndex, bit1 usePriority) | [1..2] objectType |
/// [3..6] objectInstance | [7..10] propertyIdentifier | [11..14] propertyArrayIndex |
/// [15] dataType | [16] priority | [17..18] valueLength | [19+] value`.
pub open spec fn write_element_record(e: WriteElement) -> Seq<u8> {
    seq![write_flags(e.property_array_index, e.priority)] + le_u16(e.object_type) + le_u32(
        e.object_instance,
    ) + le_u32(e.property_identifier) + le_u32(array_index_field(e.property_array_index))
        + seq![e.datatype, priority_byte(e.priority)] + le_u16(e.value@.len() as u16) + e.value@
}

/// The error that element `i` of a write list is refused with, if any.
pub open spec fn write_element_error(i: int, e: WriteElement) -> Option<Seq<char>> {
    write_fields_error(
        "elements"@,
        i,
        e.datatype,
        e.property_array_index,
        e.priority,
        e.value@.len(),
    )
}

/// The buffer that a list of write elements packs into.
pub open spec fn write_elements_encoding(s: Seq<WriteElement>) -> Seq<u8> {
    concat_records(s, |e: WriteElement| write_element_record(e))
}

/// Packs one or more WriteProperty / WritePropertyMultiple elements, 19 bytes +
/// value each (see [`write_element_record`]).
///
/// Returns the packed buffer; pass `elements.len()` as `propertyArraysCount`
/// and `buffer.len()` as `propertyArraysLength`. Errors if any element's
/// datatype is not 0..12, its `property_array_index` is a non-absent value
/// overflowing u32, its `priority` exceeds `WRITE_PRIORITY_MAX`, or its `value`
/// exceeds the uint16 valueLength field; the error names the first such
/// element and, within it, the first failing check in that order.
pub fn encode_write_property_arrays(elements: &[WriteElement]) -> (r: Result<Vec<u8>, String>)
    ensures
        encoding_outcome(
            elements@,
            |i: int, e: WriteElement| write_element_error(i, e),
            |e: WriteElement| write_element_record(e),
            r,
        ),
        r is Ok <==> forall|i: int|
            0 <= i < elements@.len() ==> (#[trigger] elements@[i]).datatype <= 12 && (elements@[i].property_array_index < 0
                || elements@[i].property_array_index <= 4294967295) && elements@[i].priority <= 16
                && elements@[i].value@.len() <= 65535,
{
    let mut buf: Vec<u8> = Vec::new();
    let mut i: usize = 0;
    while i < elements.len()
        invariant
            i <= elements@.len(),
            forall|j: int|
                0 <= j < i ==> (#[trigger] write_element_error(j, elements@[j])) is None,
            buf@ == write_elements_encoding(elements@.take(i as int)),
        decreases elements@.len() - i,
    {
        let e = &elements[i];
        match check_write_fields(
            "elements",
            i,
            e.datatype,
            e.property_array_index,
            e.priority,
            e.value.as_slice(),
        ) {
            Ok(()) => {},
            Err(m) => {
                proof {
                    lemma_write_element_accepted_iff(i as int, elements@[i as int]);
                }
                return Err(m);
            },
        }
        let use_index = e.property_array_index >= 0;
        let use_priority = e.priority > 0;
        buf.push(write_flags_byte(e.property_array_index, e.priority));
        push_le_u16(&mut buf, e.object_type);
        push_le_u32(&mut buf, e.object_instance);
        push_le_u32(&mut buf, e.property_identifier);
        push_le_u32(
            &mut buf,
            if use_index {
                e.property_array_index as u32
            } else {
                0
            },
        );
        buf.push(e.datatype);
        buf.push(
            if use_priority {
                e.priority as u8
            } else {
                0
            },
        );
        push_le_u16(&mut buf, e.value.len() as u16);
        push_bytes(&mut buf, e.value.as_slice());
        proof {
            lemma_concat_records_take_step(
                elements@,
                i as int,
                |e: WriteElement| write_element_record(e),
            );
        }
        assert(buf@ =~= write_elements_encoding(elements@.take(i as int)) + write_element_record(
            *e,
        ));
        i += 1;
    }
    assert(elements@.take(i as int) =~= elements@);
    assert forall|j: int| 0 <= j < elements@.len() implies (#[trigger] elements@[j]).datatype <= 12 && (elements@[j].property_array_index < 0
                || elements@[j].property_array_index <= 4294967295) && elements@[j].priority <= 16
                && elements@[j].value@.len() <= 65535 by {
        lemma_write_element_accepted_iff(j, elements@[j]);
    }
    Ok(buf)
}

// ---------------------------------------------------------------------------
// CreateObject initial values
// ---------------------------------------------------------------------------

/// One CreateObject initial-property-value entry.
pub struct CreateObjectInitialValue {
    pub property_identifier: u32,
    /// Negative means "no array index".
    pub property_array_index: i64,
    /// Zero or negative means "no priority".
    pub priority: i32,
    /// BACnet primitive application datatype tag (0..12).
    pub datatype: u8,
    /// The value as RAW BINARY, NOT text (unlike [`WriteElement::value`]): the
    /// stack decodes these bytes per datatype, e.g. the four little-endian
    /// IEEE-754 bytes of a Real, not `b"72.5"`.
    pub value: Vec<u8>,
}

/// The record of one CreateObject initial value, 13 bytes + value (the write
/// element's field order minus objectType/objectInstance, since an object
/// being created has no identity yet):
/// `[0] flags (bit0 useArrayIndex, bit1 usePriority) | [1..4] propertyIdentifier |
/// [5..8] propertyArrayIndex | [9] dataType | [10] priority |
/// [11..12] valueLength | [13+] value`.
pub open spec fn create_value_record(v: CreateObjectInitialValue) -> Seq<u8> {
    seq![write_flags(v.property_array_index, v.priority)] + le_u32(v.property_identifier)
        + le_u32(array_index_field(v.property_array_index)) + seq![
        v.datatype,
        priority_byte(v.priority),
    ] + le_u16(v.value@.len() as u16) + v.value@
}

/// The error that entry `i` of an initial-value list is refused with, if any.
pub open spec fn create_value_error(i: int, v: CreateObjectInitialValue) -> Option<Seq<char>> {
    write_fields_error(
        "values"@,
        i,
        v.datatype,
        v.property_array_index,
        v.priority,
        v.value@.len(),
    )
}

/// The buffer that a list of initial values packs into.
pub open spec fn create_values_encoding(s: Seq<CreateObjectInitialValue>) -> Seq<u8> {
    concat_records(s, |v: CreateObjectInitialValue| create_value_record(v))
}

/// Packs one or more CreateObject initial-property-value elements, 13 bytes +
/// value each (see [`create_value_record`]).
///
/// Returns the packed buffer; pass `values.len()` as `propertyArraysCount` and
/// `buffer.len()` as `propertyArraysLength`. Errors if any value's datatype is
/// not 0..12, its `property_array_index` is a non-absent value overflowing u32,
/// its `priority` exceeds `WRITE_PRIORITY_MAX`, or its `value` exceeds the
/// uint16 valueLength field; the error names the first such entry.
pub fn encode_create_object_initial_values(values: &[CreateObjectInitialValue]) -> (r: Result<
    Vec<u8>,
    String,
>)
    ensures
        encoding_outcome(
            values@,
            |i: int, v: CreateObjectInitialValue| create_value_error(i, v),
            |v: CreateObjectInitialValue| create_value_record(v),
            r,
        ),
        r is Ok <==> forall|i: int|
            0 <= i < values@.len() ==> (#[trigger] values@[i]).datatype <= 12 && (values@[i].property_array_index < 0
                || values@[i].property_array_index <= 4294967295) && values@[i].priority <= 16
                && values@[i].value@.len() <= 65535,
{
    let mut buf: Vec<u8> = Vec::new();
    let mut i: usize = 0;
    while i < values.len()
        invariant
            i <= values@.len(),
            forall|j: int| 0 <= j < i ==> (#[trigger] create_value_error(j, values@[j])) is None,
            buf@ == create_values_encoding(values@.take(i as int)),
        decreases values@.len() - i,
    {
        let v = &values[i];
        match check_write_fields(
            "values",
            i,
            v.datatype,
            v.property_array_index,
            v.priority,
            v.value.as_slice(),
        ) {
            Ok(()) => {},
            Err(m) => {
                proof {
                    lemma_create_value_accepted_iff(i as int, values@[i as int]);
                }
                return Err(m);
            },
        }
        let use_index = v.property_array_index >= 0;
        let use_priority = v.priority > 0;
        buf.push(write_flags_byte(v.property_array_index, v.priority));
        push_le_u32(&mut buf, v.property_identifier);
        push_le_u32(
            &mut buf,
            if use_index {
                v.property_array_index as u32
            } else {
                0
            },
        );
        buf.push(v.datatype);
        buf.push(
            if use_priority {
                v.priority as u8
            } else {
                0
            },
        );
        push_le_u16(&mut buf, v.value.len() as u16);
        push_bytes(&mut buf, v.value.as_slice());
        proof {
            lemma_concat_records_take_step(
                values@,
                i as int,
                |v: CreateObjectInitialValue| create_value_record(v),
            );
        }
        assert(buf@ =~= create_values_encoding(values@.take(i as int)) + create_value_record(*v));
        i += 1;
    }
    assert(values@.take(i as int) =~= values@);
    assert forall|j: int| 0 <= j < values@.len() implies (#[trigger] values@[j]).datatype <= 12 && (values@[j].property_array_index < 0
                || values@[j].property_array_index <= 4294967295) && values@[j].priority <= 16
                && values@[j].value@.len() <= 65535 by {
        lemma_create_value_accepted_iff(j, values@[j]);
    }
    Ok(buf)
}

// ---------------------------------------------------------------------------
// WriteGroup change list
// ---------------------------------------------------------------------------

/// One SendWriteGroup change-list entry.
pub struct WriteGroupChangeListEntry {
    pub channel: u16,
    /// 0 = absent (valid overriding priorities are 1..16).
    pub overriding_priority: u8,
    /// BACnet primitive application datatype tag (0..12).
    pub value_datatype: u8,
    /// The value as RAW BINARY, NOT text (unlike [`WriteElement::value`]), e.g.
    /// the four little-endian IEEE-754 bytes of a Real, not `b"23.5"`.
    pub value: Vec<u8>,
}

/// The record of one change-list entry, 6 bytes + value:
/// `[0..1] channel | [2] overridingPriority | [3] valueDatatype |
/// [4..5] valueLength | [6+] value`.
pub open spec fn change_list_record(e: WriteGroupChangeListEntry) -> Seq<u8> {
    le_u16(e.channel) + seq![e.overriding_priority, e.value_datatype] + le_u16(
        e.value@.len() as u16,
    ) + e.value@
}

/// The error that entry `i` of a change list is refused with, if any: the
/// datatype tag, then the overriding priority (a plain 0..16 bound, with no
/// negative sentinel), then the value length.
pub open spec fn change_list_error(i: int, e: WriteGroupChangeListEntry) -> Option<Seq<char>> {
    first_error(
        tag_error(e.value_datatype),
        first_error(
            unsigned_field_error(
                element_path("entries"@, i, "overridingPriority"@),
                e.overriding_priority as int,
                16,
                "0 = absent, otherwise 1..16 per cl. 19.2"@,
            ),
            value_length_error(element_path("entries"@, i, "value"@), e.value@.len()),
        ),
    )
}

/// The buffer that a change list packs into.
pub open spec fn change_list_encoding(s: Seq<WriteGroupChangeListEntry>) -> Seq<u8> {
    concat_records(s, |e: WriteGroupChangeListEntry| change_list_record(e))
}

/// Packs one or more SendWriteGroup change-list elements, 6 bytes + value each
/// (see [`change_list_record`]).
///
/// Returns the packed buffer; pass `entries.len()` as `changeListCount` and
/// `buffer.len()` as `changeListLength`. Errors if any entry's datatype is not
/// 0..12, its `overriding_priority` exceeds `WRITE_PRIORITY_MAX`, or its
/// `value` exceeds the uint16 valueLength field. `overriding_priority` is
/// written straight through (0 is its "absent" value).
pub fn encode_write_group_change_list(entries: &[WriteGroupChangeListEntry]) -> (r: Result<
    Vec<u8>,
    String,
>)
    ensures
        encoding_outcome(
            entries@,
            |i: int, e: WriteGroupChangeListEntry| change_list_error(i, e),
            |e: WriteGroupChangeListEntry| change_list_record(e),
            r,
        ),
        r is Ok <==> forall|i: int|
            0 <= i < entries@.len() ==> (#[trigger] entries@[i]).value_datatype <= 12 && entries@[i].overriding_priority <= 16
                && entries@[i].value@.len() <= 65535,
{
    let mut buf: Vec<u8> = Vec::new();
    let mut i: usize = 0;
    while i < entries.len()
        invariant
            i <= entries@.len(),
            forall|j: int| 0 <= j < i ==> (#[trigger] change_list_error(j, entries@[j])) is None,
            buf@ == change_list_encoding(entries@.take(i as int)),
        decreases entries@.len() - i,
    {
        let e = &entries[i];
        match assert_writable_tag(e.value_datatype) {
            Ok(()) => {},
            Err(m) => {
                proof {
                    lemma_change_list_entry_accepted_iff(i as int, entries@[i as int]);
                }
                return Err(m);
            },
        }
        let priority_path = element_path_text("entries", i, "overridingPriority");
        match assert_unsigned_field(
            priority_path.as_str(),
            e.overriding_priority as i64,
            WRITE_PRIORITY_MAX as u64,
            "0 = absent, otherwise 1..16 per cl. 19.2",
        ) {
            Ok(()) => {},
            Err(m) => {
                proof {
                    lemma_change_list_entry_accepted_iff(i as int, entries@[i as int]);
                }
                return Err(m);
            },
        }
        let value_path = element_path_text("entries", i, "value");
        match assert_value_buffer(value_path.as_str(), e.value.as_slice()) {
            Ok(()) => {},
            Err(m) => {
                proof {
                    lemma_change_list_entry_accepted_iff(i as int, entries@[i as int]);
                }
                return Err(m);
            },
        }
        push_le_u16(&mut buf, e.channel);
        buf.push(e.overriding_priority);
        buf.push(e.value_datatype);
        push_le_u16(&mut buf, e.value.len() as u16);
        push_bytes(&mut buf, e.value.as_slice());
        proof {
            lemma_concat_records_take_step(
                entries@,
                i as int,
                |e: WriteGroupChangeListEntry| change_list_record(e),
            );
        }
        assert(buf@ =~= change_list_encoding(entries@.take(i as int)) + change_list_record(*e));
        i += 1;
    }
    assert(entries@.take(i as int) =~= entries@);
    assert forall|j: int| 0 <= j < entries@.len() implies (#[trigger] entries@[j]).value_datatype <= 12 && entries@[j].overriding_priority <= 16
                && entries@[j].value@.len() <= 65535 by {
        lemma_change_list_entry_accepted_iff(j, entries@[j]);
    }
    Ok(buf)
}

// ---------------------------------------------------------------------------
// SubscribeCOVPropertyMultiple references
// ---------------------------------------------------------------------------

/// One SendSubscribeCOVPropertyMultiple COV reference.
///
/// The covIncrement is held as the bit pattern of its IEEE-754 single-precision
/// value (what `f32::to_bits` gives), which is also what goes on the wire.
pub struct CovPropertyMultipleReference {
    pub monitored_object_type: u16,
    pub monitored_object_instance: u32,
    pub property_identifier: u32,
    pub use_property_array_index: bool,
    pub property_array_index: u32,
    pub use_cov_increment: bool,
    /// The IEEE-754 single-precision bits of the covIncrement.
    pub cov_increment_bits: u32,
    pub timestamped: bool,
}

/// Whether the IEEE-754 single-precision number with these bits is finite:
/// its 8-bit exponent field (bits 23..30) is not all ones.
pub open spec fn f32_bits_finite(bits: u32) -> bool {
    (bits / 8388608) % 256 != 255
}

/// How a non-finite single-precision number prints: `NaN` (whatever its sign)
/// when the fraction is non-zero, else `inf` or `-inf` by the sign bit.
pub open spec fn non_finite_text(bits: u32) -> Seq<char> {
    if bits % 8388608 != 0 {
        "NaN"@
    } else if bits >= 2147483648 {
        "-inf"@
    } else {
        "inf"@
    }
}

/// The message for a non-finite covIncrement.
pub open spec fn cov_increment_message(path: Seq<char>, bits: u32) -> Seq<char> {
    path + " = "@ + non_finite_text(bits) + " is not a finite number (IEEE-754 float)"@
}

/// The error of `assert_cov_increment`, if any.
pub open spec fn cov_increment_error(path: Seq<char>, bits: u32) -> Option<Seq<char>> {
    if f32_bits_finite(bits) {
        None
    } else {
        Some(cov_increment_message(path, bits))
    }
}

/// Rejects a non-finite covIncrement. Any finite single-precision value
/// already fits the 4-byte wire field exactly.
fn assert_cov_increment(path: &str, cov_increment_bits: u32) -> (r: Result<(), String>)
    ensures
        check_outcome(r, cov_increment_error(path@, cov_increment_bits)),
{
    if (cov_increment_bits / 8388608) % 256 == 255 {
        let mut m = String::from_str(path);
        m.append(" = ");
        if cov_increment_bits % 8388608 != 0 {
            m.append("NaN");
        } else if cov_increment_bits >= 2147483648 {
            m.append("-inf");
        } else {
            m.append("inf");
        }
        m.append(" is not a finite number (IEEE-754 float)");
        return Err(m);
    }
    Ok(())
}

/// The flags byte of a COV reference: bit0 usePropertyArrayIndex, bit1
/// useCovIncrement, bit2 timestamped.
pub open spec fn cov_flags(r: CovPropertyMultipleReference) -> u8 {
    (flag_bit(r.use_property_array_index, 1) + flag_bit(r.use_cov_increment, 2) + flag_bit(
        r.timestamped,
        4,
    )) as u8
}

/// The fixed 19-byte record of one COV reference (no trailing value):
/// `[0] flags | [1..2] objectType | [3..6] objectInstance |
/// [7..10] propertyIdentifier | [11..14] propertyArrayIndex |
/// [15..18] covIncrement (IEEE-754, little-endian)`. The array index is zeroed
/// when `use_property_array_index` is false, the covIncrement (as +0.0) when
/// `use_cov_increment` is false.
pub open spec fn cov_reference_record(r: CovPropertyMultipleReference) -> Seq<u8> {
    seq![cov_flags(r)] + le_u16(r.monitored_object_type) + le_u32(r.monitored_object_instance)
        + le_u32(r.property_identifier) + le_u32(
        if r.use_property_array_index {
            r.property_array_index
        } else {
            0
        },
    ) + le_u32(
        if r.use_cov_increment {
            r.cov_increment_bits
        } else {
            0
        },
    )
}

/// The error that reference `i` is refused with, if any: a non-finite
/// covIncrement while `use_cov_increment` is set.
pub open spec fn cov_reference_error(i: int, r: CovPropertyMultipleReference) -> Option<
    Seq<char>,
> {
    if r.use_cov_increment {
        cov_increment_error(element_path("references"@, i, "covIncrement"@), r.cov_increment_bits)
    } else {
        None
    }
}

/// The buffer that a list of COV references packs into.
pub open spec fn cov_references_encoding(s: Seq<CovPropertyMultipleReference>) -> Seq<u8> {
    concat_records(s, |r: CovPropertyMultipleReference| cov_reference_record(r))
}

/// Packs one or more SendSubscribeCOVPropertyMultiple COV references, a fixed
/// 19 bytes each (see [`cov_reference_record`]).
///
/// Returns the packed buffer; pass `references.len()` as `referenceCount` and
/// `buffer.len()` as `referencesLength`. Errors if a reference's covIncrement
/// is non-finite while `use_cov_increment` is set; the error names the first
/// such reference.
pub fn encode_cov_property_multiple_references(
    references: &[CovPropertyMultipleReference],
) -> (r: Result<Vec<u8>, String>)
    ensures
        encoding_outcome(
            references@,
            |i: int, r: CovPropertyMultipleReference| cov_reference_error(i, r),
            |r: CovPropertyMultipleReference| cov_reference_record(r),
            r,
        ),
        r is Ok <==> forall|i: int|
            0 <= i < references@.len() ==> !(#[trigger] references@[i]).use_cov_increment || references@[i].cov_increment_bits
                % 2147483648 < 2139095040,
        r matches Ok(buf) ==> buf@.len() == 19 * references@.len() && forall|k: int|
            #![trigger references@[k]]
            0 <= k < references@.len() ==> {
                let b = buf@;
                let at = 19 * k;
                let r = references@[k];
                &&& b[at] == (if r.use_property_array_index {
                    1u8
                } else {
                    0u8
                }) + (if r.use_cov_increment {
                    2u8
                } else {
                    0u8
                }) + (if r.timestamped {
                    4u8
                } else {
                    0u8
                })
                &&& b[at + 1] + 256 * b[at + 2] == r.monitored_object_type
                &&& b[at + 3] + 256 * b[at + 4] + 65536 * b[at + 5] + 16777216 * b[at + 6]
                    == r.monitored_object_instance
                &&& b[at + 7] + 256 * b[at + 8] + 65536 * b[at + 9] + 16777216 * b[at + 10]
                    == r.property_identifier
                &&& b[at + 11] + 256 * b[at + 12] + 65536 * b[at + 13] + 16777216 * b[at + 14]
                    == (if r.use_property_array_index {
                    r.property_array_index
                } else {
                    0
                })
                &&& b[at + 15] + 256 * b[at + 16] + 65536 * b[at + 17] + 16777216 * b[at + 18]
                    == (if r.use_cov_increment {
                    r.cov_increment_bits
                } else {
                    0
                })
            },
{
    let mut buf: Vec<u8> = Vec::new();
    let mut i: usize = 0;
    while i < references.len()
        invariant
            i <= references@.len(),
            forall|j: int|
                0 <= j < i ==> (#[trigger] cov_reference_error(j, references@[j])) is None,
            buf@ == cov_references_encoding(references@.take(i as int)),
        decreases references@.len() - i,
    {
        let r = &references[i];
        if r.use_cov_increment {
            let path = element_path_text("references", i, "covIncrement");
            match assert_cov_increment(path.as_str(), r.cov_increment_bits) {
                Ok(()) => {},
                Err(m) => {
                    proof {
                    lemma_cov_reference_accepted_iff(i as int, references@[i as int]);
                }
                return Err(m);
                },
            }
        }
        let mut flags = 0u8;
        if r.use_property_array_index {
            flags = flags + 0x01;
        }
        if r.use_cov_increment {
            flags = flags + 0x02;
        }
        if r.timestamped {
            flags = flags + 0x04;
        }
        buf.push(flags);
        push_le_u16(&mut buf, r.monitored_object_type);
        push_le_u32(&mut buf, r.monitored_object_instance);
        push_le_u32(&mut buf, r.property_identifier);
        push_le_u32(
            &mut buf,
            if r.use_property_array_index {
                r.property_array_index
            } else {
                0
            },
        );
        push_le_u32(
            &mut buf,
            if r.use_cov_increment {
                r.cov_increment_bits
            } else {
                0
            },
        );
        proof {
            lemma_concat_records_take_step(
                references@,
                i as int,
                |r: CovPropertyMultipleReference| cov_reference_record(r),
            );
        }
        assert(buf@ =~= cov_references_encoding(references@.take(i as int)) + cov_reference_record(
            *r,
        ));
        i += 1;
    }
    assert(references@.take(i as int) =~= references@);
    assert forall|j: int| 0 <= j < references@.len() implies !(#[trigger] references@[j]).use_cov_increment || references@[j].cov_increment_bits
                % 2147483648 < 2139095040 by {
        lemma_cov_reference_accepted_iff(j, references@[j]);
    }
    proof {
        lemma_cov_buffer_layout(references@);
    }
    Ok(buf)
}

// ---------------------------------------------------------------------------
// Laws
// ---------------------------------------------------------------------------

/// Whether the fields that the write and create paths check all fit: a
/// primitive tag, an absent or u32 array index, a priority of at most 16 and a
/// value of at most 65535 bytes.
pub open spec fn write_fields_fit(datatype: u8, index: i64, priority: i32, value_len: nat) -> bool {
    &&& datatype <= 12
    &&& (index < 0 || index <= 4294967295)
    &&& priority <= 16
    &&& value_len <= 65535
}

/// A write or create element is refused exactly when one of its checked fields
/// does not fit, whatever its position in the list.
pub proof fn lemma_write_fields_refused_iff(
    collection: Seq<char>,
    i: int,
    datatype: u8,
    index: i64,
    priority: i32,
    value_len: nat,
)
    ensures
        write_fields_error(collection, i, datatype, index, priority, value_len) is None
            <==> write_fields_fit(datatype, index, priority, value_len),
{
}

/// The fields that the record of a read element reads back as.
pub open spec fn read_record_fields(b: Seq<u8>, at: int, e: ReadElement) -> bool {
    &&& b[at] == (if e.property_array_index >= 0 {
        1u8
    } else {
        0u8
    })
    &&& read_le_u16(b, at + 1) == e.object_type
    &&& read_le_u32(b, at + 3) == e.object_instance
    &&& read_le_u32(b, at + 7) == e.property_identifier
    &&& read_le_u32(b, at + 11) == (if e.property_array_index >= 0 {
        e.property_array_index as int
    } else {
        0
    })
}

proof fn lemma_read_record_fields(e: ReadElement)
    requires
        e.property_array_index < 0 || e.property_array_index <= 4294967295,
    ensures
        read_element_record(e).len() == 15,
        read_record_fields(read_element_record(e), 0, e),
{
    lemma_le_u16_read_back(e.object_type);
    lemma_le_u32_read_back(e.object_instance);
    lemma_le_u32_read_back(e.property_identifier);
    lemma_le_u32_read_back(array_index_field(e.property_array_index));
    let r = read_element_record(e);
    let a = le_u16(e.object_type);
    let c = le_u32(e.object_instance);
    let d = le_u32(e.property_identifier);
    let f = le_u32(array_index_field(e.property_array_index));
    assert(r =~= seq![r[0], a[0], a[1], c[0], c[1], c[2], c[3], d[0], d[1], d[2], d[3], f[0], f[1], f[2], f[3]]);
}

/// The byte map of a read buffer: 15 bytes per element, and element `k` at
/// offset `15 * k` reads back as its flags byte (bit0 set exactly when the
/// array index is present), objectType, objectInstance, propertyIdentifier and
/// array index (0 when absent).
pub proof fn lemma_read_buffer_layout(s: Seq<ReadElement>)
    requires
        forall|i: int| 0 <= i < s.len() ==> (#[trigger] read_element_error(i, s[i])) is None,
    ensures
        read_elements_encoding(s).len() == 15 * s.len(),
        forall|k: int|
            #![trigger s[k]]
            0 <= k < s.len() ==> {
                let b = read_elements_encoding(s);
                let at = 15 * k;
                let e = s[k];
                &&& b[at] == (if e.property_array_index >= 0 {
                    1u8
                } else {
                    0u8
                })
                &&& b[at + 1] + 256 * b[at + 2] == e.object_type
                &&& b[at + 3] + 256 * b[at + 4] + 65536 * b[at + 5] + 16777216 * b[at + 6]
                    == e.object_instance
                &&& b[at + 7] + 256 * b[at + 8] + 65536 * b[at + 9] + 16777216 * b[at + 10]
                    == e.property_identifier
                &&& b[at + 11] + 256 * b[at + 12] + 65536 * b[at + 13] + 16777216 * b[at + 14]
                    == (if e.property_array_index >= 0 {
                    e.property_array_index as int
                } else {
                    0
                })
            },
{
    let record = |e: ReadElement| read_element_record(e);
    assert forall|e: ReadElement| #[trigger] record(e).len() == 15 by {}
    lemma_concat_records_fixed_size(s, record, 15);
    assert forall|k: int| 0 <= k < s.len() implies read_record_fields(
        read_elements_encoding(s),
        15 * k,
        #[trigger] s[k],
    ) by {
        let b = read_elements_encoding(s);
        assert(read_element_error(k, s[k]) is None);
        lemma_read_record_fields(s[k]);
        assert(b.subrange(15 * k, 15 * k + 15) == record(s[k]));
        assert(15 * k + 15 <= 15 * s.len()) by (nonlinear_arith)
            requires
                k < s.len(),
        ;
        lemma_subrange_fields(b, 15 * k, read_element_record(s[k]));
        assert(b[15 * k + 0] == read_element_record(s[k])[0]);
    }
}

/// The fields that the record of a write element reads back as: flags (bit0
/// when the array index is present, bit1 when the priority is), objectType,
/// objectInstance, propertyIdentifier, array index (0 when absent), datatype,
/// priority (0 when absent), valueLength, and the value bytes unchanged.
pub open spec fn write_record_fields(b: Seq<u8>, e: WriteElement) -> bool {
    &&& b.len() == 19 + e.value@.len()
    &&& b[0] == (if e.property_array_index >= 0 {
        1u8
    } else {
        0u8
    }) + (if e.priority > 0 {
        2u8
    } else {
        0u8
    })
    &&& read_le_u16(b, 1) == e.object_type
    &&& read_le_u32(b, 3) == e.object_instance
    &&& read_le_u32(b, 7) == e.property_identifier
    &&& read_le_u32(b, 11) == (if e.property_array_index >= 0 {
        e.property_array_index as int
    } else {
        0
    })
    &&& b[15] == e.datatype
    &&& b[16] == (if e.priority > 0 {
        e.priority as int
    } else {
        0
    })
    &&& read_le_u16(b, 17) == e.value@.len()
    &&& b.subrange(19, b.len() as int) == e.value@
}

/// The byte map of one write element's record, for an element that is not
/// refused.
pub proof fn lemma_write_record_layout(e: WriteElement)
    requires
        e.datatype <= 12,
        e.property_array_index < 0 || e.property_array_index <= 4294967295,
        e.priority <= 16,
        e.value@.len() <= 65535,
    ensures
        ({
            let b = write_element_record(e);
            &&& b.len() == 19 + e.value@.len()
            &&& b[0] == (if e.property_array_index >= 0 {
                1u8
            } else {
                0u8
            }) + (if e.priority > 0 {
                2u8
            } else {
                0u8
            })
            &&& b[1] + 256 * b[2] == e.object_type
            &&& b[3] + 256 * b[4] + 65536 * b[5] + 16777216 * b[6] == e.object_instance
            &&& b[7] + 256 * b[8] + 65536 * b[9] + 16777216 * b[10] == e.property_identifier
            &&& b[11] + 256 * b[12] + 65536 * b[13] + 16777216 * b[14] == (if e.property_array_index
                >= 0 {
                e.property_array_index as int
            } else {
                0
            })
            &&& b[15] == e.datatype
            &&& b[16] == (if e.priority > 0 {
                e.priority as int
            } else {
                0
            })
            &&& b[17] + 256 * b[18] == e.value@.len()
            &&& b.subrange(19, b.len() as int) == e.value@
        }),
        write_record_fields(write_element_record(e), e),
{
    lemma_le_u16_read_back(e.object_type);
    lemma_le_u32_read_back(e.object_instance);
    lemma_le_u32_read_back(e.property_identifier);
    lemma_le_u32_read_back(array_index_field(e.property_array_index));
    lemma_le_u16_read_back(e.value@.len() as u16);
    let r = write_element_record(e);
    let a = le_u16(e.object_type);
    let c = le_u32(e.object_instance);
    let d = le_u32(e.property_identifier);
    let f = le_u32(array_index_field(e.property_array_index));
    let g = le_u16(e.value@.len() as u16);
    let head = seq![
        r[0],
        a[0],
        a[1],
        c[0],
        c[1],
        c[2],
        c[3],
        d[0],
        d[1],
        d[2],
        d[3],
        f[0],
        f[1],
        f[2],
        f[3],
        e.datatype,
        priority_byte(e.priority),
        g[0],
        g[1],
    ];
    assert(r =~= head + e.value@);
    assert(r.subrange(19, r.len() as int) =~= e.value@);
}

/// The fields that the record of a CreateObject initial value reads back as:
/// flags (bit0 array index present, bit1 priority present),
/// propertyIdentifier, array index (0 when absent), datatype, priority (0 when
/// absent), valueLength, and the value bytes unchanged.
pub open spec fn create_record_fields(b: Seq<u8>, v: CreateObjectInitialValue) -> bool {
    &&& b.len() == 13 + v.value@.len()
    &&& b[0] == (if v.property_array_index >= 0 {
        1u8
    } else {
        0u8
    }) + (if v.priority > 0 {
        2u8
    } else {
        0u8
    })
    &&& read_le_u32(b, 1) == v.property_identifier
    &&& read_le_u32(b, 5) == (if v.property_array_index >= 0 {
        v.property_array_index as int
    } else {
        0
    })
    &&& b[9] == v.datatype
    &&& b[10] == (if v.priority > 0 {
        v.priority as int
    } else {
        0
    })
    &&& read_le_u16(b, 11) == v.value@.len()
    &&& b.subrange(13, b.len() as int) == v.value@
}

/// The byte map of one CreateObject initial value's record, for a value that
/// is not refused.
pub proof fn lemma_create_record_layout(v: CreateObjectInitialValue)
    requires
        v.datatype <= 12,
        v.property_array_index < 0 || v.property_array_index <= 4294967295,
        v.priority <= 16,
        v.value@.len() <= 65535,
    ensures
        ({
            let b = create_value_record(v);
            &&& b.len() == 13 + v.value@.len()
            &&& b[0] == (if v.property_array_index >= 0 {
                1u8
            } else {
                0u8
            }) + (if v.priority > 0 {
                2u8
            } else {
                0u8
            })
            &&& b[1] + 256 * b[2] + 65536 * b[3] + 16777216 * b[4] == v.property_identifier
            &&& b[5] + 256 * b[6] + 65536 * b[7] + 16777216 * b[8] == (if v.property_array_index
                >= 0 {
                v.property_array_index as int
            } else {
                0
            })
            &&& b[9] == v.datatype
            &&& b[10] == (if v.priority > 0 {
                v.priority as int
            } else {
                0
            })
            &&& b[11] + 256 * b[12] == v.value@.len()
            &&& b.subrange(13, b.len() as int) == v.value@
        }),
        create_record_fields(create_value_record(v), v),
{
    lemma_le_u32_read_back(v.property_identifier);
    lemma_le_u32_read_back(array_index_field(v.property_array_index));
    lemma_le_u16_read_back(v.value@.len() as u16);
    let r = create_value_record(v);
    let d = le_u32(v.property_identifier);
    let f = le_u32(array_index_field(v.property_array_index));
    let g = le_u16(v.value@.len() as u16);
    let head = seq![
        r[0],
        d[0],
        d[1],
        d[2],
        d[3],
        f[0],
        f[1],
        f[2],
        f[3],
        v.datatype,
        priority_byte(v.priority),
        g[0],
        g[1],
    ];
    assert(r =~= head + v.value@);
    assert(r.subrange(13, r.len() as int) =~= v.value@);
}

/// The fields that the record of a change-list entry reads back as: channel,
/// overridingPriority, valueDatatype, valueLength, and the value bytes
/// unchanged.
pub open spec fn change_list_record_fields(b: Seq<u8>, e: WriteGroupChangeListEntry) -> bool {
    &&& b.len() == 6 + e.value@.len()
    &&& read_le_u16(b, 0) == e.channel
    &&& b[2] == e.overriding_priority
    &&& b[3] == e.value_datatype
    &&& read_le_u16(b, 4) == e.value@.len()
    &&& b.subrange(6, b.len() as int) == e.value@
}

/// The byte map of one change-list entry's record, for an entry whose value
/// fits the uint16 valueLength field.
pub proof fn lemma_change_list_record_layout(e: WriteGroupChangeListEntry)
    requires
        e.value@.len() <= 65535,
    ensures
        ({
            let b = change_list_record(e);
            &&& b.len() == 6 + e.value@.len()
            &&& b[0] + 256 * b[1] == e.channel
            &&& b[2] == e.overriding_priority
            &&& b[3] == e.value_datatype
            &&& b[4] + 256 * b[5] == e.value@.len()
            &&& b.subrange(6, b.len() as int) == e.value@
        }),
        change_list_record_fields(change_list_record(e), e),
{
    lemma_le_u16_read_back(e.channel);
    lemma_le_u16_read_back(e.value@.len() as u16);
    let r = change_list_record(e);
    let a = le_u16(e.channel);
    let g = le_u16(e.value@.len() as u16);
    let head = seq![a[0], a[1], e.overriding_priority, e.value_datatype, g[0], g[1]];
    assert(r =~= head + e.value@);
    assert(r.subrange(6, r.len() as int) =~= e.value@);
}

/// The fields that the record of a COV reference reads back as: flags (bit0
/// usePropertyArrayIndex, bit1 useCovIncrement, bit2 timestamped), objectType,
/// objectInstance, propertyIdentifier, array index (0 when unused) and
/// covIncrement bits (0, that is +0.0, when unused).
pub open spec fn cov_record_fields(b: Seq<u8>, at: int, r: CovPropertyMultipleReference) -> bool {
    &&& b[at] == (if r.use_property_array_index {
        1u8
    } else {
        0u8
    }) + (if r.use_cov_increment {
        2u8
    } else {
        0u8
    }) + (if r.timestamped {
        4u8
    } else {
        0u8
    })
    &&& read_le_u16(b, at + 1) == r.monitored_object_type
    &&& read_le_u32(b, at + 3) == r.monitored_object_instance
    &&& read_le_u32(b, at + 7) == r.property_identifier
    &&& read_le_u32(b, at + 11) == (if r.use_property_array_index {
        r.property_array_index
    } else {
        0
    })
    &&& read_le_u32(b, at + 15) == (if r.use_cov_increment {
        r.cov_increment_bits
    } else {
        0
    })
}

proof fn lemma_cov_record_fields(r: CovPropertyMultipleReference)
    ensures
        cov_reference_record(r).len() == 19,
        cov_record_fields(cov_reference_record(r), 0, r),
{
    let idx: u32 = if r.use_property_array_index {
        r.property_array_index
    } else {
        0
    };
    let inc: u32 = if r.use_cov_increment {
        r.cov_increment_bits
    } else {
        0
    };
    lemma_le_u16_read_back(r.monitored_object_type);
    lemma_le_u32_read_back(r.monitored_object_instance);
    lemma_le_u32_read_back(r.property_identifier);
    lemma_le_u32_read_back(idx);
    lemma_le_u32_read_back(inc);
    let b = cov_reference_record(r);
    let a = le_u16(r.monitored_object_type);
    let c = le_u32(r.monitored_object_instance);
    let d = le_u32(r.property_identifier);
    let f = le_u32(idx);
    let g = le_u32(inc);
    assert(b =~= seq![
        b[0],
        a[0],
        a[1],
        c[0],
        c[1],
        c[2],
        c[3],
        d[0],
        d[1],
        d[2],
        d[3],
        f[0],
        f[1],
        f[2],
        f[3],
        g[0],
        g[1],
        g[2],
        g[3],
    ]);
}

/// The byte map of a COV reference buffer: a fixed 19 bytes per reference, and
/// reference `k` at offset `19 * k` reads back as its flags, objectType,
/// objectInstance, propertyIdentifier, array index and covIncrement bits.
pub proof fn lemma_cov_buffer_layout(s: Seq<CovPropertyMultipleReference>)
    ensures
        cov_references_encoding(s).len() == 19 * s.len(),
        forall|k: int|
            #![trigger s[k]]
            0 <= k < s.len() ==> {
                let b = cov_references_encoding(s);
                let at = 19 * k;
                let r = s[k];
                &&& b[at] == (if r.use_property_array_index {
                    1u8
                } else {
                    0u8
                }) + (if r.use_cov_increment {
                    2u8
                } else {
                    0u8
                }) + (if r.timestamped {
                    4u8
                } else {
                    0u8
                })
                &&& b[at + 1] + 256 * b[at + 2] == r.monitored_object_type
                &&& b[at + 3] + 256 * b[at + 4] + 65536 * b[at + 5] + 16777216 * b[at + 6]
                    == r.monitored_object_instance
                &&& b[at + 7] + 256 * b[at + 8] + 65536 * b[at + 9] + 16777216 * b[at + 10]
                    == r.property_identifier
                &&& b[at + 11] + 256 * b[at + 12] + 65536 * b[at + 13] + 16777216 * b[at + 14]
                    == (if r.use_property_array_index {
                    r.property_array_index
                } else {
                    0
                })
                &&& b[at + 15] + 256 * b[at + 16] + 65536 * b[at + 17] + 16777216 * b[at + 18]
                    == (if r.use_cov_increment {
                    r.cov_increment_bits
                } else {
                    0
                })
            },
{
    let record = |r: CovPropertyMultipleReference| cov_reference_record(r);
    assert forall|r: CovPropertyMultipleReference| #[trigger] record(r).len() == 19 by {
        lemma_cov_record_fields(r);
    }
    lemma_concat_records_fixed_size(s, record, 19);
    assert forall|k: int| 0 <= k < s.len() implies cov_record_fields(
        cov_references_encoding(s),
        19 * k,
        #[trigger] s[k],
    ) by {
        let b = cov_references_encoding(s);
        lemma_cov_record_fields(s[k]);
        assert(b.subrange(19 * k, 19 * k + 19) == record(s[k]));
        assert(19 * k + 19 <= 19 * s.len()) by (nonlinear_arith)
            requires
                k < s.len(),
        ;
        lemma_subrange_fields(b, 19 * k, cov_reference_record(s[k]));
        assert(b[19 * k + 0] == cov_reference_record(s[k])[0]);
    }
}

/// Packing a list in two parts and joining the two buffers gives the buffer
/// of the whole list, and a list of one element packs into that element's
/// record: a packed buffer is its elements' records one after another. This
/// holds of each of the five encodings.
pub proof fn lemma_encodings_split(
    reads: (Seq<ReadElement>, Seq<ReadElement>),
    writes: (Seq<WriteElement>, Seq<WriteElement>),
    creates: (Seq<CreateObjectInitialValue>, Seq<CreateObjectInitialValue>),
    changes: (Seq<WriteGroupChangeListEntry>, Seq<WriteGroupChangeListEntry>),
    covs: (Seq<CovPropertyMultipleReference>, Seq<CovPropertyMultipleReference>),
)
    ensures
        read_elements_encoding(reads.0 + reads.1) == read_elements_encoding(reads.0)
            + read_elements_encoding(reads.1),
        write_elements_encoding(writes.0 + writes.1) == write_elements_encoding(writes.0)
            + write_elements_encoding(writes.1),
        create_values_encoding(creates.0 + creates.1) == create_values_encoding(creates.0)
            + create_values_encoding(creates.1),
        change_list_encoding(changes.0 + changes.1) == change_list_encoding(changes.0)
            + change_list_encoding(changes.1),
        cov_references_encoding(covs.0 + covs.1) == cov_references_encoding(covs.0)
            + cov_references_encoding(covs.1),
        forall|e: ReadElement| read_elements_encoding(seq![e]) == #[trigger] read_element_record(e),
        forall|e: WriteElement| write_elements_encoding(seq![e]) == #[trigger] write_element_record(e),
        forall|v: CreateObjectInitialValue| create_values_encoding(seq![v]) == #[trigger] create_value_record(v),
        forall|e: WriteGroupChangeListEntry| change_list_encoding(seq![e]) == #[trigger] change_list_record(e),
        forall|r: CovPropertyMultipleReference| cov_references_encoding(seq![r]) == #[trigger] cov_reference_record(r),
{
    lemma_concat_records_append(reads.0, reads.1, |e: ReadElement| read_element_record(e));
    lemma_concat_records_append(writes.0, writes.1, |e: WriteElement| write_element_record(e));
    lemma_concat_records_append(
        creates.0,
        creates.1,
        |v: CreateObjectInitialValue| create_value_record(v),
    );
    lemma_concat_records_append(
        changes.0,
        changes.1,
        |e: WriteGroupChangeListEntry| change_list_record(e),
    );
    lemma_concat_records_append(
        covs.0,
        covs.1,
        |r: CovPropertyMultipleReference| cov_reference_record(r),
    );
    assert forall|e: ReadElement| read_elements_encoding(seq![e]) == #[trigger] read_element_record(e) by {
        lemma_concat_records_single(e, |e: ReadElement| read_element_record(e));
    }
    assert forall|e: WriteElement| write_elements_encoding(seq![e]) == #[trigger] write_element_record(e) by {
        lemma_concat_records_single(e, |e: WriteElement| write_element_record(e));
    }
    assert forall|v: CreateObjectInitialValue| create_values_encoding(seq![v]) == #[trigger] create_value_record(v) by {
        lemma_concat_records_single(v, |v: CreateObjectInitialValue| create_value_record(v));
    }
    assert forall|e: WriteGroupChangeListEntry| change_list_encoding(seq![e]) == #[trigger] change_list_record(e) by {
        lemma_concat_records_single(e, |e: WriteGroupChangeListEntry| change_list_record(e));
    }
    assert forall|r: CovPropertyMultipleReference| cov_references_encoding(seq![r]) == #[trigger] cov_reference_record(r) by {
        lemma_concat_records_single(r, |r: CovPropertyMultipleReference| cov_reference_record(r));
    }
}

/// A read element is refused exactly when its array index is present and
/// does not fit u32.
pub proof fn lemma_read_element_accepted_iff(i: int, e: ReadElement)
    ensures
        read_element_error(i, e) is None <==> (e.property_array_index < 0
            || e.property_array_index <= 4294967295),
{
}

/// A write element is refused exactly when its datatype is not a primitive tag
/// (0..12), its array index is present and does not fit u32, its priority
/// exceeds 16, or its value is longer than 65535 bytes; its object type,
/// instance and property identifier are never a reason.
pub proof fn lemma_write_element_accepted_iff(i: int, e: WriteElement)
    ensures
        write_element_error(i, e) is None <==> (e.datatype <= 12 && (e.property_array_index < 0
            || e.property_array_index <= 4294967295) && e.priority <= 16 && e.value@.len()
            <= 65535),
{
}

/// A CreateObject initial value is refused exactly when its datatype is not a
/// primitive tag (0..12), its array index is present and does not fit u32, its
/// priority exceeds 16, or its value is longer than 65535 bytes. Any priority
/// up to 16 is accepted, so a commandable value can be created at a priority.
pub proof fn lemma_create_value_accepted_iff(i: int, v: CreateObjectInitialValue)
    ensures
        create_value_error(i, v) is None <==> (v.datatype <= 12 && (v.property_array_index < 0
            || v.property_array_index <= 4294967295) && v.priority <= 16 && v.value@.len()
            <= 65535),
{
}

/// A change-list entry is refused exactly when its datatype is not a primitive
/// tag (0..12), its overriding priority exceeds 16, or its value is longer
/// than 65535 bytes.
pub proof fn lemma_change_list_entry_accepted_iff(i: int, e: WriteGroupChangeListEntry)
    ensures
        change_list_error(i, e) is None <==> (e.value_datatype <= 12 && e.overriding_priority
            <= 16 && e.value@.len() <= 65535),
{
}

/// Whatever its sign, a single-precision bit pattern is finite exactly when
/// its magnitude bits are below those of +infinity (0x7F800000): every
/// pattern at or above that, up to the sign bit, is an infinity or a NaN.
pub proof fn lemma_f32_bits_finite_iff(bits: u32)
    ensures
        f32_bits_finite(bits) <==> bits % 2147483648 < 2139095040,
{
    assert((bits / 8388608) % 256 != 255 <==> bits % 2147483648 < 2139095040) by (bit_vector);
}

/// A COV reference is refused exactly when it uses its covIncrement and the
/// increment is an infinity or a NaN (magnitude bits at or above 0x7F800000).
pub proof fn lemma_cov_reference_accepted_iff(i: int, r: CovPropertyMultipleReference)
    ensures
        cov_reference_error(i, r) is None <==> (!r.use_cov_increment || r.cov_increment_bits
            % 2147483648 < 2139095040),
{
    lemma_f32_bits_finite_iff(r.cov_increment_bits);
}

} // verus!
