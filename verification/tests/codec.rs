use bytes::{Bytes, BytesMut};
use mqtt_core::fields::{
    read_mqtt_bytes, read_mqtt_string, read_u16, read_u8, write_mqtt_bytes, write_mqtt_string,
};
use mqtt_core::header::{check, parse_fixed_header, FixedHeader, PacketType};
use mqtt_core::options::MqttOptions;
use mqtt_core::packet::{qos, Message, Packet, Publish, QoS};
use mqtt_core::property::{property, PropertyType};
use mqtt_core::varint::{len_len, length, write_remaining_length};
use mqtt_core::Error;

fn encoded_length(len: usize) -> Vec<u8> {
    let mut buffer = BytesMut::new();
    let count = write_remaining_length(&mut buffer, len).unwrap();
    assert_eq!(count, buffer.len());
    buffer.to_vec()
}

#[test]
fn length_encoding_is_minimal_and_exact() {
    assert_eq!(encoded_length(0), vec![0x00]);
    assert_eq!(encoded_length(1), vec![0x01]);
    assert_eq!(encoded_length(127), vec![0x7F]);
    assert_eq!(encoded_length(128), vec![0x80, 0x01]);
    assert_eq!(encoded_length(321), vec![0xC1, 0x02]);
    assert_eq!(encoded_length(16_383), vec![0xFF, 0x7F]);
    assert_eq!(encoded_length(16_384), vec![0x80, 0x80, 0x01]);
    assert_eq!(encoded_length(2_097_151), vec![0xFF, 0xFF, 0x7F]);
    assert_eq!(encoded_length(2_097_152), vec![0x80, 0x80, 0x80, 0x01]);
    assert_eq!(encoded_length(268_435_455), vec![0xFF, 0xFF, 0xFF, 0x7F]);
}

#[test]
fn length_above_the_maximum_is_refused() {
    let mut buffer = BytesMut::from(&[9u8][..]);
    assert_eq!(write_remaining_length(&mut buffer, 268_435_456), Err(Error::PayloadTooLong));
    assert_eq!(write_remaining_length(&mut buffer, usize::MAX), Err(Error::PayloadTooLong));
    assert_eq!(&buffer[..], &[9][..]);
}

#[test]
fn len_len_steps() {
    assert_eq!(len_len(0), 1);
    assert_eq!(len_len(127), 1);
    assert_eq!(len_len(128), 2);
    assert_eq!(len_len(16_383), 2);
    assert_eq!(len_len(16_384), 3);
    assert_eq!(len_len(2_097_151), 3);
    assert_eq!(len_len(2_097_152), 4);
    assert_eq!(len_len(268_435_455), 4);
}

#[test]
fn length_decoding() {
    assert_eq!(length(&[0x00]), Ok((1, 0)));
    assert_eq!(length(&[0x7F, 0xFF]), Ok((1, 127)));
    assert_eq!(length(&[0x80, 0x01]), Ok((2, 128)));
    assert_eq!(length(&[0xC1, 0x02, 0x55]), Ok((2, 321)));
    assert_eq!(length(&[0xFF, 0xFF, 0x7F]), Ok((3, 2_097_151)));
    assert_eq!(length(&[0xFF, 0xFF, 0xFF, 0x7F]), Ok((4, 268_435_455)));
    // a longer form of a small value is taken as it stands
    assert_eq!(length(&[0x81, 0x00]), Ok((2, 1)));
}

#[test]
fn length_of_more_than_four_bytes_is_rejected() {
    assert_eq!(length(&[0x80, 0x80, 0x80, 0x80, 0x01]), Err(Error::MalformedPacket));
    assert_eq!(length(&[0xFF, 0xFF, 0xFF, 0xFF, 0x7F]), Err(Error::MalformedPacket));
    assert_eq!(length(&[0xFF, 0xFF, 0xFF, 0x80]), Err(Error::MalformedPacket));
}

#[test]
fn length_that_is_cut_short_waits_for_more() {
    assert_eq!(length(&[]), Err(Error::InsufficientBytes(1)));
    assert_eq!(length(&[0x80]), Err(Error::InsufficientBytes(1)));
    assert_eq!(length(&[0x80, 0xFF]), Err(Error::InsufficientBytes(1)));
    assert_eq!(length(&[0x80, 0x80, 0x80]), Err(Error::InsufficientBytes(1)));
}

#[test]
fn length_round_trips() {
    for value in [0usize, 1, 99, 127, 128, 300, 16_383, 16_384, 70_000, 2_097_151, 2_097_152, 268_435_455] {
        let mut bytes = encoded_length(value);
        assert_eq!(bytes.len(), len_len(value));
        bytes.push(0xAB);
        assert_eq!(length(&bytes), Ok((len_len(value), value)));
    }
}

#[test]
fn fixed_size_fields() {
    let mut stream = Bytes::copy_from_slice(&[0x12, 0x34, 0x56]);
    assert_eq!(read_u8(&mut stream), Ok(0x12));
    assert_eq!(read_u16(&mut stream), Ok(0x3456));
    assert_eq!(read_u8(&mut stream), Err(Error::MalformedPacket));
    assert_eq!(read_u16(&mut stream), Err(Error::MalformedPacket));
    let mut one = Bytes::copy_from_slice(&[1]);
    assert_eq!(read_u16(&mut one), Err(Error::MalformedPacket));
    assert_eq!(&one[..], &[1][..]);
}

#[test]
fn string_fields() {
    let mut buffer = BytesMut::new();
    write_mqtt_string(&mut buffer, "héllo");
    assert_eq!(&buffer[..], &[0, 6, b'h', 0xC3, 0xA9, b'l', b'l', b'o'][..]);
    write_mqtt_string(&mut buffer, "");
    write_mqtt_bytes(&mut buffer, &[0xFF, 0x00]);
    let mut stream = buffer.freeze();
    assert_eq!(read_mqtt_string(&mut stream), Ok("héllo".to_string()));
    assert_eq!(read_mqtt_string(&mut stream), Ok(String::new()));
    assert_eq!(read_mqtt_bytes(&mut stream), Ok(Bytes::from_static(&[0xFF, 0x00])));
    assert!(stream.is_empty());
}

#[test]
fn string_field_errors() {
    let mut cut = Bytes::copy_from_slice(&[0]);
    assert_eq!(read_mqtt_bytes(&mut cut), Err(Error::MalformedPacket));
    let mut crossed = Bytes::copy_from_slice(&[0, 5, b'a', b'b']);
    assert_eq!(read_mqtt_string(&mut crossed), Err(Error::BoundaryCrossed(5)));
    let mut not_utf8 = Bytes::copy_from_slice(&[0, 2, 0xC3, 0x28]);
    assert_eq!(read_mqtt_string(&mut not_utf8), Err(Error::TopicNotUtf8));
    // an encoded surrogate is no UTF-8
    let mut surrogate = Bytes::copy_from_slice(&[0, 3, 0xED, 0xA0, 0x80]);
    assert_eq!(read_mqtt_string(&mut surrogate), Err(Error::TopicNotUtf8));
}

#[test]
fn long_string_prefix_holds_the_low_bits_of_the_length() {
    let text = "a".repeat(65_536 + 3);
    let mut buffer = BytesMut::new();
    write_mqtt_string(&mut buffer, &text);
    assert_eq!(buffer.len(), 2 + 65_536 + 3);
    assert_eq!(&buffer[..2], &[0, 3][..]);

    let longest = "b".repeat(65_535);
    let mut buffer = BytesMut::new();
    write_mqtt_string(&mut buffer, &longest);
    assert_eq!(&buffer[..2], &[0xFF, 0xFF][..]);
    let mut stream = buffer.freeze();
    assert_eq!(read_mqtt_string(&mut stream), Ok(longest));
}

#[test]
fn fixed_header_parsing() {
    let header = parse_fixed_header(&[0xF0, 0x02, 0x00, 0x00]).unwrap();
    assert_eq!(header, FixedHeader { byte1: 0xF0, fixed_header_len: 2, remaining_len: 2 });
    assert_eq!(header.frame_length(), 4);
    assert_eq!(header.packet_type(), Ok(PacketType::Auth));
    assert_eq!(header.flags(), 0);

    let header = parse_fixed_header(&[0x3B, 0x80, 0x01]).unwrap();
    assert_eq!(header, FixedHeader::new(0x3B, 2, 128));
    assert_eq!(header.fixed_header_len, 3);
    assert_eq!(header.packet_type(), Ok(PacketType::Publish));
    assert_eq!(header.flags(), 0x0B);
    assert_eq!(header.frame_length(), 131);
}

#[test]
fn fixed_header_errors() {
    assert_eq!(parse_fixed_header(&[]), Err(Error::InsufficientBytes(2)));
    assert_eq!(parse_fixed_header(&[0xF0]), Err(Error::InsufficientBytes(1)));
    assert_eq!(parse_fixed_header(&[0xF0, 0x80]), Err(Error::InsufficientBytes(1)));
    assert_eq!(
        parse_fixed_header(&[0xF0, 0x80, 0x80, 0x80, 0x80, 0x01]),
        Err(Error::MalformedPacket)
    );
    assert_eq!(FixedHeader::new(0x0F, 1, 0).packet_type(), Err(Error::InvalidPacketType(0)));
}

#[test]
fn check_waits_for_the_whole_packet() {
    assert_eq!(check(&[0xF0, 0x02, 0x00, 0x00]), Ok(FixedHeader::new(0xF0, 1, 2)));
    assert_eq!(check(&[0xF0, 0x02, 0x00, 0x00, 0xC0]), Ok(FixedHeader::new(0xF0, 1, 2)));
    assert_eq!(check(&[0xF0, 0x02, 0x00]), Err(Error::InsufficientBytes(1)));
    assert_eq!(check(&[0xF0, 0x80, 0x01]), Err(Error::InsufficientBytes(128)));
    assert_eq!(check(&[0xF0]), Err(Error::InsufficientBytes(1)));
}

#[test]
fn every_packet_type_has_its_number() {
    let kinds = [
        PacketType::Connect,
        PacketType::ConnAck,
        PacketType::Publish,
        PacketType::PubAck,
        PacketType::PubRec,
        PacketType::PubRel,
        PacketType::PubComp,
        PacketType::Subscribe,
        PacketType::SubAck,
        PacketType::Unsubscribe,
        PacketType::UnsubAck,
        PacketType::PingReq,
        PacketType::PingResp,
        PacketType::Disconnect,
        PacketType::Auth,
    ];
    for (i, kind) in kinds.iter().enumerate() {
        let byte1 = ((i as u8 + 1) << 4) | 0x05;
        assert_eq!(FixedHeader::new(byte1, 1, 0).packet_type(), Ok(*kind));
    }
}

#[test]
fn property_identifiers() {
    assert_eq!(property(21), Ok(PropertyType::AuthenticationMethod));
    assert_eq!(property(22), Ok(PropertyType::AuthenticationData));
    assert_eq!(property(31), Ok(PropertyType::ReasonString));
    assert_eq!(property(38), Ok(PropertyType::UserProperty));
    assert_eq!(PropertyType::AuthenticationMethod.id(), 21);
    assert_eq!(PropertyType::UserProperty.id(), 38);
    let mut known = 0;
    for num in 0..=255u8 {
        match property(num) {
            Ok(kind) => {
                known += 1;
                assert_eq!(kind.id(), num);
            }
            Err(e) => assert_eq!(e, Error::InvalidPropertyType(num)),
        }
    }
    assert_eq!(known, 27);
    for num in [0u8, 4, 10, 20, 27, 32, 43, 255] {
        assert_eq!(property(num), Err(Error::InvalidPropertyType(num)));
    }
}

#[test]
fn qos_bytes() {
    assert_eq!(qos(0), Ok(QoS::AtMostOnce));
    assert_eq!(qos(1), Ok(QoS::AtLeastOnce));
    assert_eq!(qos(2), Ok(QoS::ExactlyOnce));
    for num in 3..=255u8 {
        assert_eq!(qos(num), Err(Error::InvalidQoS(num)));
    }
    for level in [QoS::AtMostOnce, QoS::AtLeastOnce, QoS::ExactlyOnce] {
        assert_eq!(qos(level.byte()), Ok(level));
    }
}

#[test]
fn messages_and_publishes() {
    let mut message = Message::new("hello/world".to_string(), QoS::AtLeastOnce);
    assert_eq!(message.payload, Vec::<u8>::new());
    assert!(!message.retain);
    message.payload = vec![1; 4];
    assert_eq!(message.duplicate(), message);

    let publish = Publish::new(message.clone(), Some(3));
    assert_eq!(publish.topic, "hello/world");
    assert_eq!(publish.payload, vec![1; 4]);
    assert_eq!(publish.pkid, Some(3));
    assert!(!publish.dup);
    let again = publish.duplicate(true);
    assert!(again.dup);
    assert_eq!(again.payload, publish.payload);
    assert_eq!(publish.duplicate(false), publish);
    assert_eq!(Packet::Publish(publish).packet_type(), PacketType::Publish);
    assert_eq!(Packet::PingReq.packet_type(), PacketType::PingReq);
    assert_eq!(Packet::PubRel { pkid: 1 }.packet_type(), PacketType::PubRel);
}

#[test]
fn options_defaults_and_setters() {
    let mut options = MqttOptions::new("test-1".to_string(), "localhost".to_string(), 1884);
    assert_eq!(options.client_id(), "test-1");
    assert_eq!(options.broker_address(), ("localhost".to_string(), 1884));
    assert_eq!(options.keep_alive(), 60);
    assert!(options.clean_start());
    assert!(!options.manual_acks());
    assert_eq!(options.last_will(), None);

    options.set_keep_alive(5);
    options.set_manual_acks(true);
    options.set_clean_start(false);
    let will = Message::new("hello/world".to_string(), QoS::AtMostOnce);
    options.set_last_will(will.clone());
    assert_eq!(options.keep_alive(), 5);
    assert!(options.manual_acks());
    assert!(!options.clean_start());
    assert_eq!(options.last_will(), Some(will));
}

#[test]
fn flags_have_to_go_with_the_packet_type() {
    // AUTH carries no flags
    assert_eq!(FixedHeader::new(0xF0, 1, 2).checked_packet_type(), Ok(PacketType::Auth));
    assert_eq!(FixedHeader::new(0xF1, 1, 2).checked_packet_type(), Err(Error::MalformedPacket));
    assert_eq!(FixedHeader::new(0xC0, 1, 0).checked_packet_type(), Ok(PacketType::PingReq));
    assert_eq!(FixedHeader::new(0xC8, 1, 0).checked_packet_type(), Err(Error::MalformedPacket));
    // PUBREL, SUBSCRIBE and UNSUBSCRIBE carry 0010
    assert_eq!(FixedHeader::new(0x62, 1, 2).checked_packet_type(), Ok(PacketType::PubRel));
    assert_eq!(FixedHeader::new(0x82, 1, 2).checked_packet_type(), Ok(PacketType::Subscribe));
    assert_eq!(FixedHeader::new(0xA2, 1, 2).checked_packet_type(), Ok(PacketType::Unsubscribe));
    assert_eq!(FixedHeader::new(0x60, 1, 2).checked_packet_type(), Err(Error::MalformedPacket));
    assert_eq!(FixedHeader::new(0x83, 1, 2).checked_packet_type(), Err(Error::MalformedPacket));
    // PUBLISH carries duplicate, level of service and retain
    for flags in 0..16u8 {
        let expected = if (flags >> 1) & 3 == 3 {
            Err(Error::MalformedPacket)
        } else {
            Ok(PacketType::Publish)
        };
        assert_eq!(FixedHeader::new(0x30 | flags, 1, 2).checked_packet_type(), expected);
    }
    assert_eq!(
        FixedHeader::new(0x05, 1, 2).checked_packet_type(),
        Err(Error::InvalidPacketType(0))
    );
}
