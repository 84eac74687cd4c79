use bytes::{Bytes, BytesMut};
use mqtt_core::auth::{Auth, AuthProperties, AuthReasonCode};
use mqtt_core::header::{check, parse_fixed_header, FixedHeader, PacketType};
use mqtt_core::Error;

const USER_PROP_KEY: &str = "property";
const USER_PROP_VAL: &str = "a value thats really long............................................................................................................";

fn sample_properties() -> AuthProperties {
    AuthProperties {
        method: Some("Authentication Method".into()),
        data: Some("Authentication Data".into()),
        reason_string: None,
        user_properties: vec![(USER_PROP_KEY.into(), USER_PROP_VAL.into())],
    }
}

fn encode(auth: &Auth) -> BytesMut {
    let mut buffer = BytesMut::new();
    auth.write(&mut buffer).unwrap();
    buffer
}

fn decode(stream: &[u8]) -> Result<Auth, Error> {
    let header = parse_fixed_header(stream)?;
    Auth::read(header, Bytes::copy_from_slice(stream))
}

#[test]
fn length_calculation() {
    let mut dummy_bytes = BytesMut::new();
    // Use user_properties to pad the size to exceed ~128 bytes to make the
    // remaining_length field in the packet be 2 bytes long.
    let auth_props = AuthProperties {
        method: Some("Authentication Method".into()),
        data: Some("Authentication Data".into()),
        reason_string: None,
        user_properties: vec![(USER_PROP_KEY.into(), USER_PROP_VAL.into())],
    };

    let auth_pkt = Auth::new(AuthReasonCode::Continue, Some(auth_props));

    let size_from_size = auth_pkt.size();
    let size_from_write = auth_pkt.write(&mut dummy_bytes).unwrap();
    let size_from_bytes = dummy_bytes.len();

    assert_eq!(size_from_write, size_from_bytes);
    assert_eq!(size_from_size, size_from_bytes);
}

#[test]
fn long_packet_has_two_length_bytes_and_reads_back() {
    let auth = Auth::new(AuthReasonCode::Continue, Some(sample_properties()));
    let buffer = encode(&auth);

    assert_eq!(buffer[0], 0xF0);
    // the body is longer than 127 bytes: the first length byte continues, the second ends
    assert!(buffer[1] >= 0x80);
    assert!(buffer[2] < 0x80);
    let header = parse_fixed_header(&buffer[..]).unwrap();
    assert_eq!(header.fixed_header_len, 3);
    assert_eq!(header.remaining_len, buffer.len() - 3);
    assert_eq!(header.packet_type(), Ok(PacketType::Auth));

    let back = Auth::read(header, buffer.freeze()).unwrap();
    assert_eq!(back, auth);
}

#[test]
fn short_packet_bytes_are_exact() {
    let properties = AuthProperties {
        method: Some("m".into()),
        data: Some(Bytes::from_static(&[1, 2])),
        reason_string: Some("r".into()),
        user_properties: vec![("k".into(), "v".into())],
    };
    let auth = Auth::new(AuthReasonCode::ReAuthenticate, Some(properties));
    let buffer = encode(&auth);
    let expected: Vec<u8> = vec![
        0xF0, 22, 0x19, 20, // control byte, remaining length, reason, property length
        21, 0, 1, b'm', // method
        22, 0, 2, 1, 2, // data
        31, 0, 1, b'r', // reason string
        38, 0, 1, b'k', 0, 1, b'v', // user property
    ];
    assert_eq!(&buffer[..], &expected[..]);
    assert_eq!(auth.size(), 24);
    assert_eq!(decode(&expected), Ok(auth));
}

#[test]
fn packet_without_properties() {
    let auth = Auth::new(AuthReasonCode::Success, None);
    let mut buffer = BytesMut::new();
    assert_eq!(auth.write(&mut buffer), Ok(4));
    assert_eq!(&buffer[..], &[0xF0, 2, 0x00, 0][..]);
    assert_eq!(auth.size(), 4);
    assert_eq!(decode(&buffer[..]), Ok(auth));
}

#[test]
fn empty_properties_read_back_as_none() {
    let auth = Auth::new(AuthReasonCode::Success, Some(AuthProperties::default()));
    let buffer = encode(&auth);
    assert_eq!(&buffer[..], &[0xF0, 2, 0x00, 0][..]);
    assert_eq!(decode(&buffer[..]), Ok(Auth::new(AuthReasonCode::Success, None)));
}

#[test]
fn write_appends_to_what_the_buffer_holds() {
    let auth = Auth::new(AuthReasonCode::Continue, None);
    let mut buffer = BytesMut::from(&[7u8, 8][..]);
    assert_eq!(auth.write(&mut buffer), Ok(4));
    assert_eq!(&buffer[..], &[7, 8, 0xF0, 2, 0x18, 0][..]);
}

#[test]
fn size_matches_write_for_zero_one_and_many_user_properties() {
    for count in [0usize, 1, 2, 17, 300] {
        let mut user_properties = Vec::new();
        for i in 0..count {
            user_properties.push((format!("key{}", i), format!("value{}", i)));
        }
        let properties = AuthProperties {
            method: None,
            data: None,
            reason_string: Some("why".into()),
            user_properties,
        };
        let auth = Auth::new(AuthReasonCode::Success, Some(properties));
        let mut buffer = BytesMut::new();
        let written = auth.write(&mut buffer).unwrap();
        assert_eq!(written, buffer.len());
        assert_eq!(auth.size(), buffer.len());
        assert_eq!(decode(&buffer[..]), Ok(auth));
    }
}

#[test]
fn every_reason_code_has_its_byte() {
    for (reason, byte) in [
        (AuthReasonCode::Success, 0x00u8),
        (AuthReasonCode::Continue, 0x18),
        (AuthReasonCode::ReAuthenticate, 0x19),
    ] {
        let mut buffer = BytesMut::new();
        assert_eq!(reason.write(&mut buffer), Ok(()));
        assert_eq!(&buffer[..], &[byte][..]);
        let mut stream = Bytes::copy_from_slice(&[byte, 0xAA]);
        assert_eq!(AuthReasonCode::read(&mut stream), Ok(reason));
        assert_eq!(&stream[..], &[0xAA][..]);
    }
}

#[test]
fn unknown_reason_code_is_rejected() {
    for byte in [0x01u8, 0x17, 0x1A, 0x80, 0xFF] {
        let mut stream = Bytes::copy_from_slice(&[byte]);
        assert_eq!(AuthReasonCode::read(&mut stream), Err(Error::MalformedPacket));
        assert_eq!(decode(&[0xF0, 2, byte, 0]), Err(Error::MalformedPacket));
    }
    let mut empty = Bytes::new();
    assert_eq!(AuthReasonCode::read(&mut empty), Err(Error::MalformedPacket));
}

#[test]
fn read_properties_consumes_declared_length() {
    let mut stream = Bytes::copy_from_slice(&[4, 21, 0, 1, b'm', 0xEE, 0xEF]);
    let properties = AuthProperties::read(&mut stream).unwrap().unwrap();
    assert_eq!(properties.method, Some("m".to_string()));
    assert_eq!(properties.data, None);
    assert_eq!(properties.reason_string, None);
    assert!(properties.user_properties.is_empty());
    assert_eq!(&stream[..], &[0xEE, 0xEF][..]);

    let mut none = Bytes::copy_from_slice(&[0, 21]);
    assert_eq!(AuthProperties::read(&mut none), Ok(None));
    assert_eq!(&none[..], &[21][..]);
}

#[test]
fn declared_length_that_ends_inside_a_property_is_rejected() {
    // the method takes four bytes, the block declares three
    let mut stream = Bytes::copy_from_slice(&[3, 21, 0, 1, b'm']);
    assert_eq!(AuthProperties::read(&mut stream), Err(Error::MalformedPacket));
}

#[test]
fn declared_length_past_the_properties_is_rejected() {
    // the method takes four bytes, the block declares five and the buffer ends
    let mut stream = Bytes::copy_from_slice(&[5, 21, 0, 1, b'm']);
    assert_eq!(AuthProperties::read(&mut stream), Err(Error::MalformedPacket));
}

#[test]
fn property_not_allowed_in_auth_is_rejected() {
    // 17 is the session expiry interval, 200 is no property at all
    let mut known = Bytes::copy_from_slice(&[5, 17, 0, 0, 0, 1]);
    assert_eq!(AuthProperties::read(&mut known), Err(Error::InvalidPropertyType(17)));
    let mut unknown = Bytes::copy_from_slice(&[2, 200, 0]);
    assert_eq!(AuthProperties::read(&mut unknown), Err(Error::InvalidPropertyType(200)));
}

#[test]
fn repeated_property_keeps_the_last_and_user_properties_add_up() {
    let mut stream = Bytes::copy_from_slice(&[
        22, 21, 0, 1, b'a', 38, 0, 1, b'k', 0, 1, b'1', 21, 0, 1, b'b', 38, 0, 1, b'k', 0, 1, b'2',
    ]);
    let properties = AuthProperties::read(&mut stream).unwrap().unwrap();
    assert_eq!(properties.method, Some("b".to_string()));
    assert_eq!(
        properties.user_properties,
        vec![("k".to_string(), "1".to_string()), ("k".to_string(), "2".to_string())]
    );
    assert!(stream.is_empty());
}

#[test]
fn property_field_errors() {
    // the string announces three bytes, two are there
    let mut crossed = Bytes::copy_from_slice(&[5, 21, 0, 3, b'a', b'b']);
    assert_eq!(AuthProperties::read(&mut crossed), Err(Error::BoundaryCrossed(3)));
    // 0xFF is not UTF-8
    let mut not_utf8 = Bytes::copy_from_slice(&[4, 31, 0, 1, 0xFF]);
    assert_eq!(AuthProperties::read(&mut not_utf8), Err(Error::TopicNotUtf8));
    // the same byte is fine as authentication data
    let mut data = Bytes::copy_from_slice(&[4, 22, 0, 1, 0xFF]);
    let properties = AuthProperties::read(&mut data).unwrap().unwrap();
    assert_eq!(properties.data, Some(Bytes::from_static(&[0xFF])));
    // the length prefix of the string is cut short
    let mut cut = Bytes::copy_from_slice(&[4, 21, 0]);
    assert_eq!(AuthProperties::read(&mut cut), Err(Error::MalformedPacket));
    // no property length at all
    let mut empty = Bytes::new();
    assert_eq!(AuthProperties::read(&mut empty), Err(Error::InsufficientBytes(1)));
    // a property length of five bytes
    let mut long = Bytes::copy_from_slice(&[0x80, 0x80, 0x80, 0x80, 0x01]);
    assert_eq!(AuthProperties::read(&mut long), Err(Error::MalformedPacket));
}

#[test]
fn read_with_short_buffer() {
    let header = FixedHeader::new(0xF0, 1, 2);
    assert_eq!(
        Auth::read(header, Bytes::copy_from_slice(&[0xF0])),
        Err(Error::InsufficientBytes(1))
    );
    assert_eq!(
        Auth::read(header, Bytes::copy_from_slice(&[0xF0, 2])),
        Err(Error::MalformedPacket)
    );
    assert_eq!(
        Auth::read(header, Bytes::copy_from_slice(&[0xF0, 2, 0x18])),
        Err(Error::InsufficientBytes(1))
    );
    assert_eq!(check(&[0xF0, 2, 0x18]), Err(Error::InsufficientBytes(1)));
}

#[test]
fn multi_byte_text_round_trips() {
    let properties = AuthProperties {
        method: Some("méthode".into()),
        data: None,
        reason_string: Some("理由 🔑".into()),
        user_properties: vec![("ключ".into(), "".into()), ("".into(), "值".into())],
    };
    let auth = Auth::new(AuthReasonCode::Continue, Some(properties));
    let buffer = encode(&auth);
    assert_eq!(auth.size(), buffer.len());
    assert_eq!(decode(&buffer[..]), Ok(auth));
}

#[test]
fn oversized_packet_is_refused() {
    // 4097 user properties of two strings of 65535 bytes each pass the largest remaining length
    let big = "x".repeat(65_535);
    let mut user_properties = Vec::new();
    for _ in 0..2049 {
        user_properties.push((big.clone(), big.clone()));
    }
    let properties = AuthProperties {
        method: None,
        data: None,
        reason_string: None,
        user_properties,
    };
    let mut block = BytesMut::new();
    assert_eq!(properties.write(&mut block), Err(Error::PayloadTooLong));
    assert!(block.is_empty());

    let auth = Auth::new(AuthReasonCode::Success, Some(properties));
    let mut buffer = BytesMut::new();
    assert_eq!(auth.write(&mut buffer), Err(Error::PayloadTooLong));
    assert_eq!(&buffer[..], &[0xF0][..]);
}
