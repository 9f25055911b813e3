use bacnet_bss::property_buffer_helper::{
    assert_sentinel_field, assert_unsigned_field, assert_value_buffer, assert_writable_tag,
    assert_write_priority, encode_cov_property_multiple_references,
    encode_create_object_initial_values, encode_read_property_arrays,
    encode_write_group_change_list, encode_write_property_arrays, CovPropertyMultipleReference,
    CreateObjectInitialValue, ReadElement, WriteElement, WriteGroupChangeListEntry,
    WRITABLE_TAG_MAX, WRITE_PRIORITY_MAX,
};

fn read(object_type: u16, object_instance: u32, property_identifier: u32, index: i64) -> ReadElement {
    ReadElement {
        object_type,
        object_instance,
        property_identifier,
        property_array_index: index,
    }
}

fn write(priority: i32, index: i64, datatype: u8, value: &[u8]) -> WriteElement {
    WriteElement {
        object_type: 2,
        object_instance: 1,
        property_identifier: 85,
        property_array_index: index,
        priority,
        datatype,
        value: value.to_vec(),
    }
}

fn cov(use_index: bool, index: u32, use_cov: bool, increment: f32, timestamped: bool) -> CovPropertyMultipleReference {
    CovPropertyMultipleReference {
        monitored_object_type: 0,
        monitored_object_instance: 1,
        property_identifier: 85,
        use_property_array_index: use_index,
        property_array_index: index,
        use_cov_increment: use_cov,
        cov_increment_bits: increment.to_bits(),
        timestamped,
    }
}

#[test]
fn constants_match_bacnet_limits() {
    assert_eq!(WRITABLE_TAG_MAX, 12);
    assert_eq!(WRITE_PRIORITY_MAX, 16);
}

#[test]
fn writable_tag_accepts_primitive_tags_only() {
    for tag in 0..=12u8 {
        assert_eq!(assert_writable_tag(tag), Ok(()));
    }
    assert_eq!(
        assert_writable_tag(13),
        Err("datatype tag 13 is not a BACnet primitive application type (0..12); constructed/complex types are not supported by the write/create path".to_string())
    );
    assert!(assert_writable_tag(255).is_err());
}

#[test]
fn unsigned_field_bounds_and_message() {
    assert_eq!(assert_unsigned_field("x", 0, 10, "u8"), Ok(()));
    assert_eq!(assert_unsigned_field("x", 10, 10, "u8"), Ok(()));
    assert_eq!(
        assert_unsigned_field("x", 11, 10, "u8"),
        Err("x = 11 is not an integer in 0..10 (u8)".to_string())
    );
    assert_eq!(
        assert_unsigned_field("elements[2].objectType", -5, 65535, "uint16"),
        Err("elements[2].objectType = -5 is not an integer in 0..65535 (uint16)".to_string())
    );
    assert_eq!(
        assert_unsigned_field("v", i64::MIN, u64::MAX, "w"),
        Err("v = -9223372036854775808 is not an integer in 0..18446744073709551615 (w)".to_string())
    );
}

#[test]
fn sentinel_field_lets_negative_through() {
    assert_eq!(assert_sentinel_field("i", -1, 7, "u32"), Ok(()));
    assert_eq!(assert_sentinel_field("i", i64::MIN, 7, "u32"), Ok(()));
    assert_eq!(assert_sentinel_field("i", 7, 7, "u32"), Ok(()));
    assert_eq!(
        assert_sentinel_field("i", 8, 7, "u32"),
        Err("i = 8 is not an integer in 0..7 (u32)".to_string())
    );
}

#[test]
fn write_priority_bound() {
    assert_eq!(assert_write_priority("p", -3), Ok(()));
    assert_eq!(assert_write_priority("p", 0), Ok(()));
    assert_eq!(assert_write_priority("p", 16), Ok(()));
    assert_eq!(
        assert_write_priority("elements[0].priority", 17),
        Err("elements[0].priority = 17 exceeds the maximum BACnet write priority 16 (cl. 19.2)".to_string())
    );
}

#[test]
fn value_buffer_bound() {
    assert_eq!(assert_value_buffer("v", &vec![0u8; 65535]), Ok(()));
    assert_eq!(
        assert_value_buffer("elements[3].value", &vec![0u8; 65536]),
        Err("elements[3].value.length = 65536 exceeds the maximum 65535 (uint16 valueLength)".to_string())
    );
}

#[test]
fn read_array_exact_bytes() {
    let buf = encode_read_property_arrays(&[read(8, 389001, 77, -1)]).unwrap();
    assert_eq!(buf, vec![0, 8, 0, 137, 239, 5, 0, 77, 0, 0, 0, 0, 0, 0, 0]);
    let buf = encode_read_property_arrays(&[read(13, 1, 110, 4294967295)]).unwrap();
    assert_eq!(buf, vec![1, 13, 0, 1, 0, 0, 0, 110, 0, 0, 0, 255, 255, 255, 255]);
}

#[test]
fn read_array_empty_and_length() {
    assert_eq!(encode_read_property_arrays(&[]).unwrap(), Vec::<u8>::new());
    let elements: Vec<ReadElement> = (0..7).map(|k| read(k, k as u32, 85, k as i64 - 3)).collect();
    let buf = encode_read_property_arrays(&elements).unwrap();
    assert_eq!(buf.len(), 15 * 7);
    for (k, e) in elements.iter().enumerate() {
        let at = 15 * k;
        assert_eq!(buf[at], if e.property_array_index >= 0 { 1 } else { 0 });
        assert_eq!(u16::from_le_bytes([buf[at + 1], buf[at + 2]]), e.object_type);
        assert_eq!(u32::from_le_bytes(buf[at + 3..at + 7].try_into().unwrap()), e.object_instance);
        assert_eq!(u32::from_le_bytes(buf[at + 7..at + 11].try_into().unwrap()), e.property_identifier);
        let index = u32::from_le_bytes(buf[at + 11..at + 15].try_into().unwrap());
        assert_eq!(index as i64, e.property_array_index.max(0));
    }
}

#[test]
fn read_array_refuses_index_over_u32_naming_first() {
    let r = encode_read_property_arrays(&[
        read(0, 1, 85, 3),
        read(0, 1, 85, 4294967296),
        read(0, 1, 85, 4294967297),
    ]);
    assert_eq!(
        r,
        Err("elements[1].propertyArrayIndex = 4294967296 is not an integer in 0..4294967295 (u32)".to_string())
    );
}

#[test]
fn write_array_exact_bytes() {
    let buf = encode_write_property_arrays(&[write(8, -1, 4, b"72.5")]).unwrap();
    assert_eq!(buf, vec![2, 2, 0, 1, 0, 0, 0, 85, 0, 0, 0, 0, 0, 0, 0, 4, 8, 4, 0, 55, 50, 46, 53]);
    let mut e = write(16, 3, 9, &[0xAA, 0xBB]);
    e.object_type = 1;
    e.object_instance = 7;
    e.property_identifier = 87;
    let buf = encode_write_property_arrays(&[e]).unwrap();
    assert_eq!(buf, vec![3, 1, 0, 7, 0, 0, 0, 87, 0, 0, 0, 3, 0, 0, 0, 9, 16, 2, 0, 170, 187]);
}

#[test]
fn write_array_absent_priority_and_index() {
    let buf = encode_write_property_arrays(&[write(0, -7, 0, b"")]).unwrap();
    assert_eq!(buf.len(), 19);
    assert_eq!(buf[0], 0);
    assert_eq!(&buf[11..15], &[0, 0, 0, 0]);
    assert_eq!(buf[16], 0);
    let buf = encode_write_property_arrays(&[write(-5, -1, 0, b"")]).unwrap();
    assert_eq!(buf[0], 0);
    assert_eq!(buf[16], 0);
}

#[test]
fn write_array_errors_in_check_order() {
    // Every field is bad: the datatype tag is reported first.
    let r = encode_write_property_arrays(&[write(17, 4294967296, 13, &vec![0u8; 65536])]);
    assert_eq!(
        r,
        Err("datatype tag 13 is not a BACnet primitive application type (0..12); constructed/complex types are not supported by the write/create path".to_string())
    );
    let r = encode_write_property_arrays(&[write(17, 4294967296, 1, &vec![0u8; 65536])]);
    assert_eq!(
        r,
        Err("elements[0].propertyArrayIndex = 4294967296 is not an integer in 0..4294967295 (u32)".to_string())
    );
    let r = encode_write_property_arrays(&[write(1, 0, 1, b"1"), write(17, 0, 1, &vec![0u8; 65536])]);
    assert_eq!(
        r,
        Err("elements[1].priority = 17 exceeds the maximum BACnet write priority 16 (cl. 19.2)".to_string())
    );
    let r = encode_write_property_arrays(&[write(1, 0, 1, &vec![0u8; 65536])]);
    assert_eq!(
        r,
        Err("elements[0].value.length = 65536 exceeds the maximum 65535 (uint16 valueLength)".to_string())
    );
}

#[test]
fn write_array_concatenates_records() {
    let a = write(8, -1, 4, b"72.5");
    let b = write(0, 2, 1, b"1");
    let both = encode_write_property_arrays(&[write(8, -1, 4, b"72.5"), write(0, 2, 1, b"1")]).unwrap();
    let mut joined = encode_write_property_arrays(&[a]).unwrap();
    joined.extend(encode_write_property_arrays(&[b]).unwrap());
    assert_eq!(both, joined);
    assert_eq!(both.len(), (19 + 4) + (19 + 1));
}

#[test]
fn create_values_exact_bytes() {
    let v = CreateObjectInitialValue {
        property_identifier: 75,
        property_array_index: 2,
        priority: 0,
        datatype: 2,
        value: 72.5f32.to_le_bytes().to_vec(),
    };
    let buf = encode_create_object_initial_values(&[v]).unwrap();
    assert_eq!(buf, vec![1, 75, 0, 0, 0, 2, 0, 0, 0, 2, 0, 4, 0, 0, 0, 145, 66]);
}

#[test]
fn create_values_errors_name_values() {
    let bad = CreateObjectInitialValue {
        property_identifier: 75,
        property_array_index: -1,
        priority: 20,
        datatype: 4,
        value: vec![],
    };
    let ok = CreateObjectInitialValue {
        property_identifier: 77,
        property_array_index: -1,
        priority: 0,
        datatype: 7,
        value: b"name".to_vec(),
    };
    assert_eq!(
        encode_create_object_initial_values(&[ok, bad]),
        Err("values[1].priority = 20 exceeds the maximum BACnet write priority 16 (cl. 19.2)".to_string())
    );
    let huge = CreateObjectInitialValue {
        property_identifier: 75,
        property_array_index: 4294967296,
        priority: 0,
        datatype: 4,
        value: vec![],
    };
    assert_eq!(
        encode_create_object_initial_values(&[huge]),
        Err("values[0].propertyArrayIndex = 4294967296 is not an integer in 0..4294967295 (u32)".to_string())
    );
}

#[test]
fn write_group_exact_bytes() {
    let e = WriteGroupChangeListEntry {
        channel: 5,
        overriding_priority: 8,
        value_datatype: 4,
        value: 23.5f32.to_le_bytes().to_vec(),
    };
    assert_eq!(encode_write_group_change_list(&[e]).unwrap(), vec![5, 0, 8, 4, 4, 0, 0, 0, 188, 65]);
}

#[test]
fn write_group_errors() {
    let entry = |p: u8, t: u8, n: usize| WriteGroupChangeListEntry {
        channel: 1,
        overriding_priority: p,
        value_datatype: t,
        value: vec![0u8; n],
    };
    assert_eq!(encode_write_group_change_list(&[entry(0, 1, 1), entry(16, 1, 1)]).unwrap().len(), 14);
    assert_eq!(
        encode_write_group_change_list(&[entry(17, 1, 1)]),
        Err("entries[0].overridingPriority = 17 is not an integer in 0..16 (0 = absent, otherwise 1..16 per cl. 19.2)".to_string())
    );
    assert_eq!(
        encode_write_group_change_list(&[entry(1, 13, 1)]),
        Err("datatype tag 13 is not a BACnet primitive application type (0..12); constructed/complex types are not supported by the write/create path".to_string())
    );
    assert_eq!(
        encode_write_group_change_list(&[entry(1, 1, 1), entry(1, 1, 65536)]),
        Err("entries[1].value.length = 65536 exceeds the maximum 65535 (uint16 valueLength)".to_string())
    );
}

#[test]
fn cov_references_exact_bytes() {
    let buf = encode_cov_property_multiple_references(&[cov(true, 4, true, 2.5, true)]).unwrap();
    assert_eq!(buf, vec![7, 0, 0, 1, 0, 0, 0, 85, 0, 0, 0, 4, 0, 0, 0, 0, 0, 32, 64]);
    // Unused index and increment are zeroed, even a non-finite increment.
    let mut r = cov(false, 9, false, f32::NAN, false);
    r.monitored_object_type = 3;
    r.monitored_object_instance = 2;
    let buf = encode_cov_property_multiple_references(&[r]).unwrap();
    assert_eq!(buf, vec![0, 3, 0, 2, 0, 0, 0, 85, 0, 0, 0, 0, 0, 0, 0, 0, 0, 0, 0]);
}

#[test]
fn cov_references_fixed_stride() {
    let refs: Vec<CovPropertyMultipleReference> =
        (0..5).map(|k| cov(k % 2 == 0, k, k % 3 == 0, k as f32 * 0.5, k == 4)).collect();
    let buf = encode_cov_property_multiple_references(&refs).unwrap();
    assert_eq!(buf.len(), 19 * 5);
    for (k, r) in refs.iter().enumerate() {
        let at = 19 * k;
        let flags = (r.use_property_array_index as u8) | ((r.use_cov_increment as u8) << 1) | ((r.timestamped as u8) << 2);
        assert_eq!(buf[at], flags);
        let inc = u32::from_le_bytes(buf[at + 15..at + 19].try_into().unwrap());
        assert_eq!(inc, if r.use_cov_increment { r.cov_increment_bits } else { 0 });
    }
}

#[test]
fn cov_references_refuse_non_finite() {
    assert_eq!(
        encode_cov_property_multiple_references(&[cov(false, 0, true, 1.0, false), cov(false, 0, true, f32::NAN, false)]),
        Err("references[1].covIncrement = NaN is not a finite number (IEEE-754 float)".to_string())
    );
    assert_eq!(
        encode_cov_property_multiple_references(&[cov(false, 0, true, f32::INFINITY, false)]),
        Err("references[0].covIncrement = inf is not a finite number (IEEE-754 float)".to_string())
    );
    assert_eq!(
        encode_cov_property_multiple_references(&[cov(false, 0, true, f32::NEG_INFINITY, false)]),
        Err("references[0].covIncrement = -inf is not a finite number (IEEE-754 float)".to_string())
    );
    assert_eq!(
        encode_cov_property_multiple_references(&[cov(false, 0, true, -f32::NAN, false)]),
        Err("references[0].covIncrement = NaN is not a finite number (IEEE-754 float)".to_string())
    );
    // The largest finite value and a subnormal pass.
    assert!(encode_cov_property_multiple_references(&[cov(false, 0, true, f32::MAX, false), cov(false, 0, true, 1e-45, false)]).is_ok());
}

#[test]
fn non_finite_text_matches_display() {
    for x in [f32::NAN, -f32::NAN, f32::INFINITY, f32::NEG_INFINITY] {
        let r = encode_cov_property_multiple_references(&[cov(false, 0, true, x, false)]);
        assert_eq!(r, Err(format!("references[0].covIncrement = {} is not a finite number (IEEE-754 float)", x)));
    }
}
