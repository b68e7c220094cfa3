use std::collections::HashMap;

use stun_client::{
    encoded_length, Attribute, Class, ErrorCode, Header, IpAddress, Message, Method,
    STUNClientError, SocketAddress, ATTR_CHANGE_REQUEST, ATTR_SOFTWARE, MAGIC_COOKIE,
};

fn transaction_id() -> Vec<u8> {
    vec![1, 2, 3, 4, 5, 6, 7, 8, 9, 10, 11, 12]
}

fn header_bytes(message_type: [u8; 2], length: [u8; 2], id: &[u8]) -> Vec<u8> {
    let mut bytes = vec![message_type[0], message_type[1], length[0], length[1]];
    bytes.extend_from_slice(&[0x21, 0x12, 0xA4, 0x42]);
    bytes.extend_from_slice(id);
    bytes
}

fn response_with(kind: u16, value: Vec<u8>, id: Vec<u8>) -> Message {
    let mut attrs = HashMap::new();
    attrs.insert(kind, value);
    Message::with_transaction_id(Method::Binding, Class::SuccessResponse, Some(attrs), id)
}

#[test]
fn message_new_and_message_from_raw_are_equivalent() {
    let mut attrs = HashMap::new();
    attrs.insert(
        Attribute::ChangeRequest.to_u16(),
        Attribute::generate_change_request_value(true, false),
    );
    let msg = Message::new(Method::Binding, Class::Request, Some(attrs));
    let re_built_msg = Message::from_raw(&msg.to_raw()).unwrap();
    assert_eq!(msg, re_built_msg);
}

#[test]
fn roundtrip_keeps_kind_and_value_of_change_request() {
    let mut attrs = HashMap::new();
    attrs.insert(ATTR_CHANGE_REQUEST, Attribute::generate_change_request_value(true, true));
    let msg = Message::new(Method::Binding, Class::Request, Some(attrs));
    let read = Message::from_raw(&msg.to_raw()).unwrap();
    assert_eq!(read.get_method(), Method::Binding);
    assert_eq!(read.get_class(), Class::Request);
    assert_eq!(read.get_raw_attr_value(Attribute::ChangeRequest), Some(vec![0, 0, 0, 6]));
    assert_eq!(read.get_transaction_id(), msg.get_transaction_id());
}

#[test]
fn roundtrip_with_several_attributes_and_padding() {
    let mut attrs = HashMap::new();
    attrs.insert(ATTR_SOFTWARE, b"hello".to_vec());
    attrs.insert(ATTR_CHANGE_REQUEST, vec![0, 0, 0, 2]);
    attrs.insert(0x7777, vec![9]);
    attrs.insert(0x0042, vec![]);
    attrs.insert(0x0043, vec![1, 2, 3, 4, 5, 6, 7]);
    let msg = Message::with_transaction_id(
        Method::Binding,
        Class::SuccessResponse,
        Some(attrs),
        transaction_id(),
    );
    let raw = msg.to_raw();
    // 20 for the header; 4 + 8, 4 + 4, 4 + 4, 4 + 0, 4 + 8 for the padded attributes.
    assert_eq!(raw.len(), 20 + 12 + 8 + 8 + 4 + 12);
    // The length in the header counts the values without their padding.
    assert_eq!(&raw[2..4], &[0, (9 + 8 + 5 + 4 + 11) as u8]);
    let read = Message::from_raw(&raw).unwrap();
    assert_eq!(read, msg);
    assert_eq!(read.get_raw_attr_value(Attribute::Software), Some(b"hello".to_vec()));
    assert_eq!(read.get_raw_attr_value(Attribute::Unknown(0x7777)), Some(vec![9]));
    assert_eq!(read.get_raw_attr_value(Attribute::Unknown(0x0042)), Some(vec![]));
    assert_eq!(
        read.get_raw_attr_value(Attribute::Unknown(0x0043)),
        Some(vec![1, 2, 3, 4, 5, 6, 7])
    );
    assert_eq!(read.get_raw_attr_value(Attribute::MappedAddress), None);
}

#[test]
fn roundtrip_without_attributes() {
    let msg = Message::new(Method::Binding, Class::Indication, None);
    let raw = msg.to_raw();
    assert_eq!(raw.len(), 20);
    assert_eq!(&raw[..8], &[0x00, 0x11, 0x00, 0x00, 0x21, 0x12, 0xA4, 0x42]);
    let read = Message::from_raw(&raw).unwrap();
    assert_eq!(read, msg);
    assert_eq!(read.get_raw_attr_value(Attribute::Software), None);
}

#[test]
fn message_with_an_empty_attribute_map_reads_back_without_attributes() {
    let msg = Message::with_transaction_id(
        Method::Binding,
        Class::Request,
        Some(HashMap::new()),
        transaction_id(),
    );
    let raw = msg.to_raw();
    assert_eq!(raw.len(), 20);
    let read = Message::from_raw(&raw).unwrap();
    assert_ne!(read, msg);
    assert_eq!(
        read,
        Message::with_transaction_id(Method::Binding, Class::Request, None, transaction_id())
    );
}

#[test]
fn one_attribute_is_written_with_padding() {
    let msg = response_with(ATTR_SOFTWARE, b"hello".to_vec(), transaction_id());
    let mut expected = header_bytes([0x01, 0x01], [0x00, 0x09], &transaction_id());
    expected.extend_from_slice(&[0x80, 0x22, 0x00, 0x05]);
    expected.extend_from_slice(b"hello");
    expected.extend_from_slice(&[0, 0, 0]);
    assert_eq!(msg.to_raw(), expected);
}

#[test]
fn new_message_has_twelve_random_bytes_of_transaction_id() {
    let a = Message::new(Method::Binding, Class::Request, None);
    let b = Message::new(Method::Binding, Class::Request, None);
    assert_eq!(a.get_transaction_id().len(), 12);
    assert_eq!(b.get_transaction_id().len(), 12);
    assert_ne!(a.get_transaction_id(), b.get_transaction_id());
    assert_eq!(a.to_raw().len(), 20);
    assert_eq!(&a.to_raw()[8..], &a.get_transaction_id()[..]);
}

#[test]
fn new_message_declares_the_length_of_its_attributes() {
    let mut attrs = HashMap::new();
    attrs.insert(ATTR_CHANGE_REQUEST, vec![0, 0, 0, 4]);
    attrs.insert(ATTR_SOFTWARE, b"abc".to_vec());
    assert_eq!(encoded_length(&attrs), Some(8 + 7));
    let msg = Message::new(Method::Binding, Class::Request, Some(attrs));
    assert_eq!(&msg.to_raw()[2..4], &[0, 15]);
}

#[test]
fn encoded_length_knows_what_fits_into_a_header() {
    let mut attrs = HashMap::new();
    assert_eq!(encoded_length(&attrs), Some(0));
    attrs.insert(1u16, vec![0u8; 65531]);
    assert_eq!(encoded_length(&attrs), Some(65535));
    attrs.insert(2u16, vec![]);
    assert_eq!(encoded_length(&attrs), None);
    let mut long = HashMap::new();
    long.insert(1u16, vec![0u8; 65532]);
    assert_eq!(encoded_length(&long), None);
}

#[test]
fn longest_value_survives_the_roundtrip() {
    let mut attrs = HashMap::new();
    attrs.insert(0x1234u16, vec![7u8; 65531]);
    let msg = Message::with_transaction_id(
        Method::Binding,
        Class::ErrorResponse,
        Some(attrs),
        transaction_id(),
    );
    let raw = msg.to_raw();
    assert_eq!(raw.len(), 20 + 4 + 65532);
    assert_eq!(&raw[2..4], &[0xFF, 0xFF]);
    assert_eq!(Message::from_raw(&raw).unwrap(), msg);
}

#[test]
fn header_is_written_in_network_order() {
    let header = Header::new(Method::Binding, Class::SuccessResponse, 0x0108, transaction_id());
    assert_eq!(header.to_raw(), header_bytes([0x01, 0x01], [0x01, 0x08], &transaction_id()));
    let header = Header::new(Method::Unknown(0x0002), Class::ErrorResponse, 0, transaction_id());
    assert_eq!(header.to_raw(), header_bytes([0x01, 0x12], [0, 0], &transaction_id()));
    assert_eq!(MAGIC_COOKIE, 0x2112A442);
}

#[test]
fn header_roundtrip() {
    let header = Header::new(Method::Unknown(0x3EEE), Class::Indication, 513, transaction_id());
    let raw = header.to_raw();
    assert_eq!(raw.len(), 20);
    assert_eq!(Header::from_raw(&raw).unwrap(), header);
}

#[test]
fn header_from_raw_reads_the_first_twenty_bytes() {
    let mut raw = header_bytes([0x00, 0x01], [0x00, 0x04], &transaction_id());
    raw.extend_from_slice(&[0xAA, 0xBB, 0xCC, 0xDD]);
    let header = Header::from_raw(&raw).unwrap();
    assert_eq!(header, Header::new(Method::Binding, Class::Request, 4, transaction_id()));
}

#[test]
fn header_from_raw_rejects_short_input() {
    let raw = header_bytes([0x00, 0x01], [0x00, 0x00], &transaction_id());
    assert!(matches!(Header::from_raw(&raw[..19]), Err(STUNClientError::ParseError())));
    assert!(matches!(Header::from_raw(&[]), Err(STUNClientError::ParseError())));
}

#[test]
fn header_bit_packing_for_every_class() {
    let classes = [
        (Class::Request, 0x0000u16),
        (Class::Indication, 0x0010),
        (Class::SuccessResponse, 0x0100),
        (Class::ErrorResponse, 0x0110),
    ];
    let methods = [
        Method::Binding,
        Method::Unknown(0x0000),
        Method::Unknown(0x0002),
        Method::Unknown(0x000F),
        Method::Unknown(0x0E00),
        Method::Unknown(0x3EEF),
        Method::Unknown(0x2AAA & 0x3EEF),
    ];
    for (class, bits) in classes {
        assert_eq!(class.to_u16(), bits);
        for method in methods {
            let header = Header::new(method, class, 0, transaction_id());
            let message_type = header.message_type();
            assert_eq!(message_type, bits | method.to_u16());
            assert_eq!(Header::decode_class(message_type), class);
            assert_eq!(Header::decode_method(message_type), method);
        }
    }
}

#[test]
fn message_type_masks() {
    assert_eq!(Header::decode_method(0xFFFF), Method::Unknown(0x3EEF));
    assert_eq!(Header::decode_class(0xFFFF), Class::ErrorResponse);
    assert_eq!(Header::decode_method(0x0101), Method::Binding);
    assert_eq!(Header::decode_class(0x0101), Class::SuccessResponse);
    assert_eq!(Header::decode_method(0x0111), Method::Binding);
    assert_eq!(Header::decode_method(0x3DDE | 0x0221), Method::Unknown(0x3EEF));
}

#[test]
fn codes_of_methods_classes_and_attributes() {
    assert_eq!(Method::from_u16(0x0001), Method::Binding);
    assert_eq!(Method::from_u16(0x0003), Method::Unknown(3));
    assert_eq!(Method::Binding.to_u16(), 1);
    assert_eq!(Method::Unknown(77).to_u16(), 77);
    assert_eq!(Class::from_u16(0x0000), Class::Request);
    assert_eq!(Class::from_u16(0x0010), Class::Indication);
    assert_eq!(Class::from_u16(0x0100), Class::SuccessResponse);
    assert_eq!(Class::from_u16(0x0110), Class::ErrorResponse);
    assert_eq!(Class::from_u16(0x0001), Class::Unknown(1));
    assert_eq!(Class::Unknown(5).to_u16(), 5);
    let kinds = [
        (Attribute::MappedAddress, 0x0001u16),
        (Attribute::XORMappedAddress, 0x0020),
        (Attribute::ChangeRequest, 0x0003),
        (Attribute::ErrorCode, 0x0009),
        (Attribute::Software, 0x8022),
        (Attribute::OtherAddress, 0x802c),
        (Attribute::ResponseOrigin, 0x802b),
        (Attribute::Unknown(0x4242), 0x4242),
    ];
    for (attribute, code) in kinds {
        assert_eq!(attribute.to_u16(), code);
        assert_eq!(Attribute::from_u16(code), attribute);
    }
}

#[test]
fn from_raw_rejects_less_than_a_header() {
    let raw = Message::new(Method::Binding, Class::Request, None).to_raw();
    for len in 0..20 {
        assert!(matches!(Message::from_raw(&raw[..len]), Err(STUNClientError::ParseError())));
    }
}

#[test]
fn from_raw_rejects_a_partial_attribute_header() {
    let mut raw = header_bytes([0x01, 0x01], [0x00, 0x00], &transaction_id());
    raw.extend_from_slice(&[0x00, 0x20, 0x00]);
    assert!(matches!(Message::from_raw(&raw), Err(STUNClientError::ParseError())));
    assert!(matches!(Message::from_raw(&raw[..21]), Err(STUNClientError::ParseError())));
}

#[test]
fn from_raw_rejects_a_value_cut_short() {
    let mut raw = header_bytes([0x01, 0x01], [0x00, 0x0C], &transaction_id());
    raw.extend_from_slice(&[0x00, 0x20, 0x00, 0x08, 0x00, 0x01, 0xA1, 0x47, 0xE1]);
    assert!(matches!(Message::from_raw(&raw), Err(STUNClientError::ParseError())));
    raw.extend_from_slice(&[0x12, 0xA4]);
    assert!(matches!(Message::from_raw(&raw), Err(STUNClientError::ParseError())));
    raw.extend_from_slice(&[0x43]);
    assert!(Message::from_raw(&raw).is_ok());
}

#[test]
fn from_raw_rejects_missing_padding() {
    let mut raw = header_bytes([0x01, 0x01], [0x00, 0x09], &transaction_id());
    raw.extend_from_slice(&[0x80, 0x22, 0x00, 0x05]);
    raw.extend_from_slice(b"hello");
    assert!(matches!(Message::from_raw(&raw), Err(STUNClientError::ParseError())));
    raw.extend_from_slice(&[0xFF, 0xFF]);
    assert!(matches!(Message::from_raw(&raw), Err(STUNClientError::ParseError())));
    raw.extend_from_slice(&[0xFF]);
    let read = Message::from_raw(&raw).unwrap();
    assert_eq!(Attribute::get_software(&read), Some(String::from("hello")));
}

#[test]
fn from_raw_rejects_a_truncated_second_attribute() {
    let mut raw = header_bytes([0x01, 0x01], [0x00, 0x10], &transaction_id());
    raw.extend_from_slice(&[0x00, 0x03, 0x00, 0x04, 0, 0, 0, 6]);
    raw.extend_from_slice(&[0x80, 0x22, 0x00, 0x04, b'a', b'b']);
    assert!(matches!(Message::from_raw(&raw), Err(STUNClientError::ParseError())));
}

#[test]
fn from_raw_keeps_the_last_of_a_repeated_kind() {
    let mut raw = header_bytes([0x01, 0x01], [0x00, 0x10], &transaction_id());
    raw.extend_from_slice(&[0x80, 0x22, 0x00, 0x04, b'o', b'n', b'e', b'!']);
    raw.extend_from_slice(&[0x80, 0x22, 0x00, 0x04, b't', b'w', b'o', b'!']);
    let read = Message::from_raw(&raw).unwrap();
    assert_eq!(Attribute::get_software(&read), Some(String::from("two!")));
}

#[test]
fn decode_attrs_reads_a_section() {
    let section = [0x00, 0x03, 0x00, 0x04, 0, 0, 0, 2, 0x12, 0x34, 0x00, 0x01, 0xAB, 0, 0, 0];
    let attrs = Message::decode_attrs(&section).unwrap();
    assert_eq!(attrs.len(), 2);
    assert_eq!(attrs.get(&0x0003), Some(&vec![0, 0, 0, 2]));
    assert_eq!(attrs.get(&0x1234), Some(&vec![0xAB]));
    assert!(matches!(Message::decode_attrs(&[]), Err(STUNClientError::ParseError())));
    assert!(matches!(Message::decode_attrs(&section[..15]), Err(STUNClientError::ParseError())));
}

#[test]
fn xor_mapped_address_vector_ipv4() {
    // The port is 0xA147 ^ 0x2112, the address 0xE112A643 ^ 0x2112A442.
    let value = vec![0x00, 0x01, 0xA1, 0x47, 0xE1, 0x12, 0xA6, 0x43];
    let msg = response_with(0x0020, value, vec![0x00; 12]);
    let read = Message::from_raw(&msg.to_raw()).unwrap();
    assert_eq!(
        Attribute::get_xor_mapped_address(&read),
        Some(SocketAddress { ip: IpAddress::V4([192, 0, 2, 1]), port: 32853 })
    );
}

#[test]
fn xor_mapped_address_is_masked_with_the_magic_cookie() {
    // 0xE112A443 ^ 0x2112A442 is 0xC0000001.
    let value = vec![0x00, 0x01, 0xA1, 0x47, 0xE1, 0x12, 0xA4, 0x43];
    let msg = response_with(0x0020, value, vec![0x00; 12]);
    assert_eq!(
        Attribute::get_xor_mapped_address(&msg),
        Some(SocketAddress { ip: IpAddress::V4([192, 0, 0, 1]), port: 32853 })
    );
    // The cookie itself is the mask of the address 0.0.0.0 and the port 0.
    let value = vec![0x00, 0x01, 0x21, 0x12, 0x21, 0x12, 0xA4, 0x42];
    let msg = response_with(0x0020, value, transaction_id());
    assert_eq!(
        Attribute::get_xor_mapped_address(&msg),
        Some(SocketAddress { ip: IpAddress::V4([0, 0, 0, 0]), port: 0 })
    );
}

#[test]
fn xor_mapped_address_ipv6_uses_the_transaction_id() {
    let id = transaction_id();
    let address: [u8; 16] = [0x20, 0x01, 0x0d, 0xb8, 0, 0, 0, 0, 0, 0, 0, 0, 0, 0, 0, 1];
    let mut key = vec![0x21, 0x12, 0xA4, 0x42];
    key.extend_from_slice(&id);
    let mut value = vec![0x00, 0x02, 0x12 ^ 0x21, 0x34 ^ 0x12];
    for i in 0..16 {
        value.push(address[i] ^ key[i]);
    }
    let msg = response_with(0x0020, value.clone(), id);
    assert_eq!(
        Attribute::get_xor_mapped_address(&msg),
        Some(SocketAddress { ip: IpAddress::V6(address), port: 0x1234 })
    );
    // The same value in a message with another transaction id is another address.
    let other = response_with(0x0020, value, vec![0; 12]);
    assert_ne!(
        Attribute::get_xor_mapped_address(&other),
        Attribute::get_xor_mapped_address(&msg)
    );
}

#[test]
fn xor_mapped_address_that_cannot_be_read() {
    let none = Message::new(Method::Binding, Class::SuccessResponse, None);
    assert_eq!(Attribute::get_xor_mapped_address(&none), None);
    for value in [
        vec![],
        vec![0, 1, 0, 0],
        vec![0, 1, 0, 0, 1, 2, 3],
        vec![0, 3, 0, 0, 1, 2, 3, 4],
        vec![0, 2, 0, 0, 1, 2, 3, 4, 5, 6, 7, 8, 9, 10, 11, 12, 13, 14, 15],
    ] {
        let msg = response_with(0x0020, value, transaction_id());
        assert_eq!(Attribute::get_xor_mapped_address(&msg), None);
    }
    let short_id = response_with(0x0020, [vec![0, 2, 0, 0], vec![0; 16]].concat(), vec![1, 2, 3]);
    assert_eq!(Attribute::get_xor_mapped_address(&short_id), None);
}

#[test]
fn plain_addresses() {
    let v4 = vec![0x00, 0x01, 0x16, 0x2E, 10, 0, 0, 7];
    let expected = Some(SocketAddress { ip: IpAddress::V4([10, 0, 0, 7]), port: 5678 });
    assert_eq!(
        Attribute::get_mapped_address(&response_with(0x0001, v4.clone(), transaction_id())),
        expected
    );
    assert_eq!(
        Attribute::get_other_address(&response_with(0x802c, v4.clone(), transaction_id())),
        expected
    );
    assert_eq!(
        Attribute::get_response_origin(&response_with(0x802b, v4.clone(), transaction_id())),
        expected
    );
    let msg = response_with(0x802b, v4, transaction_id());
    assert_eq!(Attribute::get_mapped_address(&msg), None);
    assert_eq!(
        Attribute::decode_simple_address_attribute(&msg, Attribute::ResponseOrigin),
        expected
    );
    assert_eq!(
        Attribute::decode_simple_address_attribute(&msg, Attribute::Unknown(0x802b)),
        expected
    );

    let mut v6 = vec![0x00, 0x02, 0x00, 0x50];
    let address: [u8; 16] = [1, 2, 3, 4, 5, 6, 7, 8, 9, 10, 11, 12, 13, 14, 15, 16];
    v6.extend_from_slice(&address);
    assert_eq!(
        Attribute::get_mapped_address(&response_with(0x0001, v6, transaction_id())),
        Some(SocketAddress { ip: IpAddress::V6(address), port: 80 })
    );
    for value in [vec![0, 1, 0], vec![0, 1, 0, 80, 1, 2, 3], vec![0, 9, 0, 80, 1, 2, 3, 4]] {
        assert_eq!(
            Attribute::get_mapped_address(&response_with(0x0001, value, transaction_id())),
            None
        );
    }
}

#[test]
fn software_is_utf8_or_nothing() {
    let msg = response_with(ATTR_SOFTWARE, "stund ü".as_bytes().to_vec(), transaction_id());
    assert_eq!(Attribute::get_software(&msg), Some(String::from("stund ü")));
    let msg = response_with(ATTR_SOFTWARE, vec![0xFF, 0xFE], transaction_id());
    assert_eq!(Attribute::get_software(&msg), None);
    let msg = response_with(ATTR_SOFTWARE, vec![], transaction_id());
    assert_eq!(Attribute::get_software(&msg), Some(String::new()));
    let msg = Message::new(Method::Binding, Class::Request, None);
    assert_eq!(Attribute::get_software(&msg), None);
}

#[test]
fn error_codes() {
    let cases = [
        (3u8, 0u8, ErrorCode::TryAlternate(String::from("r"))),
        (4, 0, ErrorCode::BadRequest(String::from("r"))),
        (4, 1, ErrorCode::Unauthorized(String::from("r"))),
        (4, 20, ErrorCode::UnknownAttribute(String::from("r"))),
        (4, 38, ErrorCode::StaleNonce(String::from("r"))),
        (5, 0, ErrorCode::ServerError(String::from("r"))),
        (4, 4, ErrorCode::Unknown(String::from("r"))),
        (0, 0, ErrorCode::Unknown(String::from("r"))),
        (255, 255, ErrorCode::Unknown(String::from("r"))),
        (2, 100, ErrorCode::TryAlternate(String::from("r"))),
    ];
    for (class, number, expected) in cases {
        let msg = response_with(0x0009, vec![0, 0, class, number, b'r'], transaction_id());
        assert_eq!(Attribute::get_error_code(&msg), Some(expected));
    }
    assert_eq!(
        ErrorCode::from(420, String::from("why")),
        ErrorCode::UnknownAttribute(String::from("why"))
    );
    assert_eq!(ErrorCode::from(421, String::from("why")), ErrorCode::Unknown(String::from("why")));
}

#[test]
fn error_code_with_unreadable_or_missing_reason() {
    let msg = response_with(0x0009, vec![0, 0, 4, 0, 0xC3, 0x28], transaction_id());
    assert_eq!(
        Attribute::get_error_code(&msg),
        Some(ErrorCode::BadRequest(String::from("cannot parse error reason")))
    );
    let msg = response_with(0x0009, vec![0, 0, 5, 0], transaction_id());
    assert_eq!(Attribute::get_error_code(&msg), Some(ErrorCode::ServerError(String::new())));
    let msg = response_with(0x0009, vec![0, 0, 5], transaction_id());
    assert_eq!(Attribute::get_error_code(&msg), None);
    let msg = Message::new(Method::Binding, Class::ErrorResponse, None);
    assert_eq!(Attribute::get_error_code(&msg), None);
}

#[test]
fn change_request_values() {
    assert_eq!(Attribute::generate_change_request_value(false, false), vec![0, 0, 0, 0]);
    assert_eq!(Attribute::generate_change_request_value(true, false), vec![0, 0, 0, 4]);
    assert_eq!(Attribute::generate_change_request_value(false, true), vec![0, 0, 0, 2]);
    assert_eq!(Attribute::generate_change_request_value(true, true), vec![0, 0, 0, 6]);
}
