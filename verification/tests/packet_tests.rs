use comms::packet::{PacketDecodeError, PacketHeader};

#[test]
fn encodes_every_field_in_order() {
    let header = PacketHeader::new(1, 2, 3, 4, 5);
    assert_eq!(header.encode_to_vec(), vec![0x08, 1, 0x10, 2, 0x18, 3, 0x20, 4, 0x28, 5]);
}

#[test]
fn leaves_zero_fields_out() {
    assert_eq!(PacketHeader::new(0, 0, 0, 0, 0).encode_to_vec(), Vec::<u8>::new());
    assert_eq!(PacketHeader::new(0, 0, 7, 0, 0).encode_to_vec(), vec![0x18, 7]);
}

#[test]
fn encodes_multi_byte_varints() {
    let header = PacketHeader::new(1, 1222, 0, 0, 0);
    assert_eq!(header.encode_to_vec(), vec![0x08, 0x01, 0x10, 0xC6, 0x09]);
    let big = PacketHeader::new(u32::MAX, 0, 0, 0, 0);
    assert_eq!(big.encode_to_vec(), vec![0x08, 0xFF, 0xFF, 0xFF, 0xFF, 0x0F]);
}

#[test]
fn encode_into_appends() {
    let mut buf = vec![9u8];
    PacketHeader::new(0, 0, 0, 0, 1).encode_into(&mut buf);
    assert_eq!(buf, vec![9, 0x28, 1]);
}

#[test]
fn decodes_what_it_encodes() {
    let headers = [
        PacketHeader::new(1, 2, 3, 4, 5),
        PacketHeader::new(0, 0, 0, 0, 0),
        PacketHeader::new(u32::MAX, 1222, 0, 128, 300),
    ];
    for header in headers.iter() {
        let bytes = header.encode_to_vec();
        assert_eq!(PacketHeader::decode(&bytes), Ok(*header));
    }
}

#[test]
fn decodes_empty_input_to_zero_header() {
    assert_eq!(PacketHeader::decode(&[]), Ok(PacketHeader::new(0, 0, 0, 0, 0)));
}

#[test]
fn later_field_replaces_earlier() {
    assert_eq!(PacketHeader::decode(&[0x08, 1, 0x08, 7]), Ok(PacketHeader::new(7, 0, 0, 0, 0)));
}

#[test]
fn keeps_low_32_bits_of_a_field() {
    let bytes = [0x08, 0x81, 0x80, 0x80, 0x80, 0x10];
    assert_eq!(PacketHeader::decode(&bytes), Ok(PacketHeader::new(1, 0, 0, 0, 0)));
}

#[test]
fn skips_unknown_fields() {
    assert_eq!(PacketHeader::decode(&[0x30, 5, 0x10, 2]), Ok(PacketHeader::new(0, 2, 0, 0, 0)));
    assert_eq!(PacketHeader::decode(&[0x32, 2, 0xAA, 0xBB, 0x08, 3]), Ok(PacketHeader::new(3, 0, 0, 0, 0)));
    assert_eq!(PacketHeader::decode(&[0x35, 1, 2, 3, 4]), Ok(PacketHeader::new(0, 0, 0, 0, 0)));
    assert_eq!(PacketHeader::decode(&[0x33, 0x08, 1, 0x34]), Ok(PacketHeader::new(0, 0, 0, 0, 0)));
}

#[test]
fn rejects_malformed_keys() {
    assert_eq!(PacketHeader::decode(&[0x00]), Err(PacketDecodeError::InvalidKey));
    assert_eq!(PacketHeader::decode(&[0x0E]), Err(PacketDecodeError::InvalidKey));
    assert_eq!(PacketHeader::decode(&[0x80]), Err(PacketDecodeError::InvalidKey));
    let too_big = [0x80, 0x80, 0x80, 0x80, 0x10];
    assert_eq!(PacketHeader::decode(&too_big), Err(PacketDecodeError::InvalidKey));
}

#[test]
fn rejects_malformed_known_fields() {
    assert_eq!(PacketHeader::decode(&[0x08]), Err(PacketDecodeError::InvalidField { tag: 1 }));
    assert_eq!(PacketHeader::decode(&[0x0A, 1, 1]), Err(PacketDecodeError::InvalidField { tag: 1 }));
    assert_eq!(PacketHeader::decode(&[0x10, 0x80]), Err(PacketDecodeError::InvalidField { tag: 2 }));
    let overlong = [0x28, 0xFF, 0xFF, 0xFF, 0xFF, 0xFF, 0xFF, 0xFF, 0xFF, 0xFF, 0x02];
    assert_eq!(PacketHeader::decode(&overlong), Err(PacketDecodeError::InvalidField { tag: 5 }));
}

#[test]
fn rejects_malformed_unknown_fields() {
    assert_eq!(
        PacketHeader::decode(&[0x32, 5, 1]),
        Err(PacketDecodeError::InvalidUnknownField { tag: 6 })
    );
    assert_eq!(PacketHeader::decode(&[0x34]), Err(PacketDecodeError::InvalidUnknownField { tag: 6 }));
    assert_eq!(
        PacketHeader::decode(&[0x35, 1, 2]),
        Err(PacketDecodeError::InvalidUnknownField { tag: 6 })
    );
}

#[test]
fn publisher_header_from_decimal_id() {
    assert_eq!(PacketHeader::for_publisher("1"), Some(PacketHeader::new(1, 1222, 0, 0, 0)));
    assert_eq!(PacketHeader::for_publisher("+12"), Some(PacketHeader::new(12, 1222, 0, 0, 0)));
    assert_eq!(PacketHeader::for_publisher("x"), None);
    assert_eq!(PacketHeader::for_publisher(""), None);
}

fn nested_groups(depth: usize) -> Vec<u8> {
    let mut bytes = vec![0x33u8; depth];
    bytes.extend(vec![0x34u8; depth]);
    bytes
}

#[test]
fn skips_groups_nested_up_to_the_limit() {
    assert_eq!(PacketHeader::decode(&nested_groups(100)), Ok(PacketHeader::new(0, 0, 0, 0, 0)));
    assert_eq!(
        PacketHeader::decode(&nested_groups(101)),
        Err(PacketDecodeError::InvalidUnknownField { tag: 6 })
    );
}

#[test]
fn rejects_groups_closed_by_another_number() {
    assert_eq!(
        PacketHeader::decode(&[0x33, 0x3C]),
        Err(PacketDecodeError::InvalidUnknownField { tag: 6 })
    );
    assert_eq!(PacketHeader::decode(&[0x33]), Err(PacketDecodeError::InvalidUnknownField { tag: 6 }));
}
