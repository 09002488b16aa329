use bytes::{BufMut, BytesMut};
use mqtt::codec::connack::ConnAckFlags;
use mqtt::codec::connect::ConnectFlags;
use mqtt::codec::fixed_header::{fixed_header_ready, FixedHeader};
use mqtt::codec::packet::{Packet, PacketType};
use mqtt::codec::property::{Mqtt5Property, PropertyValue};
use mqtt::codec::protocol::Protocol;
use mqtt::codec::puback::PubAckReasonCode;
use mqtt::codec::publish::Qos;
use mqtt::codec::subscribe::SubscriptionOptions;
use mqtt::codec::{
    read_bytes, read_string, read_variable_bytes, write_string, write_variable_bytes, Error, FromToBuf, FromToU8,
};

fn buffer(bytes: &[u8]) -> BytesMut {
    let mut buf = BytesMut::with_capacity(64);
    buf.put_slice(bytes);
    buf
}

#[test]
fn parse_connect_fixed_header() {
    // CONNECT, no flags, remaining length 2 with the two bytes present
    let mut buf = buffer(&[0b0001_0000, 2, 0, 0]);
    let fixed_header = FixedHeader::from_buf(&mut buf).expect("Failed to parse Fixed Header");
    assert_eq!(fixed_header.packet_type, PacketType::CONNECT);
    assert_eq!(fixed_header.remaining_length, 2);
    assert!(!fixed_header.dup && !fixed_header.retain);
    assert_eq!(fixed_header.qos, Qos::AtMostOnce);
}

#[test]
fn test_subscribe_payload() {
    let mut buf = BytesMut::with_capacity(64);
    buf.put_u8(0);
    buf.put_u8(3);
    buf.put_u8('a' as u8);
    buf.put_u8('/' as u8);
    buf.put_u8('b' as u8);
    buf.put_u8(1);
    buf.put_u8(0);
    buf.put_u8(3);
    buf.put_u8('c' as u8);
    buf.put_u8('/' as u8);
    buf.put_u8('d' as u8);
    buf.put_u8(2);
    println!("{:?}", buf.to_vec());
    let input = buf.to_vec();

    let mut payload = Vec::<(String, SubscriptionOptions)>::new();
    let mut remaining: i64 = 12;
    while remaining > 0 {
        let topic_filter = read_string(&mut buf).expect("Failed to parse Topic Filter");
        let subscription_options =
            SubscriptionOptions::from_buf(&mut buf).expect("Failed to parse Subscription Options");
        payload.push((topic_filter.clone(), subscription_options));
        remaining = remaining - topic_filter.len() as i64 - 3;
        if remaining < 0 {
            break;
        }
    }
    println!("{:?}", payload);
    assert_eq!(payload.len(), 2);
    assert_eq!(payload[0].0, "a/b");
    assert_eq!(payload[1].0, "c/d");

    let mut out = Vec::with_capacity(64);
    let mut len = 0;
    for (topic_filter, subscription_options) in payload.clone() {
        len += write_string(topic_filter, &mut out);
        len += subscription_options.to_buf(&mut out);
    }
    println!("{:?}", out);
    assert_eq!(len, 12);
    assert_eq!(out, input);
}

#[test]
fn codec_varint_examples() {
    // the documented example: 0x88, 0x01 reads as 136 in two bytes
    let mut buf = buffer(&[0b1000_1000, 0b0000_0001]);
    assert_eq!(read_variable_bytes(&mut buf).unwrap(), (136, 2));
    assert!(buf.is_empty());
    // 136 is written as [127, 1]: digits of base 127, every digit but the last written as 0x7F
    let mut out = Vec::new();
    assert_eq!(write_variable_bytes(136, &mut out).unwrap(), 2);
    assert_eq!(out, vec![127, 1]);
    // zero is one byte
    let mut out = Vec::new();
    assert_eq!(write_variable_bytes(0, &mut out).unwrap(), 1);
    assert_eq!(out, vec![0]);
    // a value below 127 reads back
    let mut out = Vec::new();
    write_variable_bytes(100, &mut out).unwrap();
    assert_eq!(read_variable_bytes(&mut buffer(&out)).unwrap(), (100, 1));
}

#[test]
fn codec_error_malformed_variable_byte_integer() {
    let mut buf = buffer(&[0x80, 0x80, 0x80, 0x80, 0x01]);
    assert_eq!(read_variable_bytes(&mut buf), Err(Error::MalformedVariableByteInteger));
    // the buffer is left as it was
    assert_eq!(buf.len(), 5);
}

#[test]
fn codec_error_invalid_qos() {
    let mut buf = buffer(&[0b0011_0110, 0]);
    assert_eq!(FixedHeader::from_buf(&mut buf), Err(Error::InvalidQos(3)));
    assert_eq!(Qos::from_u8(3), Err(Error::InvalidQos(3)));
}

#[test]
fn codec_error_invalid_reason_code() {
    assert_eq!(PubAckReasonCode::from_u8(5), Err(Error::InvalidReasonCode(5)));
    assert_eq!(PubAckReasonCode::from_u8(16), Ok(PubAckReasonCode::NoMatchingSubscribers));
    assert_eq!(PubAckReasonCode::NoMatchingSubscribers.to_u8(), 16);
}

#[test]
fn codec_error_invalid_length() {
    let mut buf = buffer(&[0, 5, 1]);
    assert_eq!(read_bytes(&mut buf), Err(Error::InvalidLength));
}

#[test]
fn codec_error_invalid_string() {
    let mut buf = buffer(&[0, 2, 0xFF, 0xFE]);
    assert!(matches!(read_string(&mut buf), Err(Error::InvalidString(_))));
}

#[test]
fn codec_error_invalid_property_type() {
    let mut buf = buffer(&[2, 0x04, 0]);
    assert_eq!(
        Mqtt5Property::from_buf(&mut buf),
        Err(Error::InvalidPropertyType("It's a invalid Property Type".to_string()))
    );
}

#[test]
fn codec_error_invalid_packet_type() {
    assert_eq!(PacketType::from_u8(0), Err(Error::InvalidPacketType(0)));
    assert_eq!(PacketType::from_u8(12), Ok(PacketType::PINGREQ));
}

#[test]
fn codec_error_invalid_protocol() {
    let mut buf = buffer(&[0, 4, b'M', b'Q', b'T', b'T', 4]);
    assert_eq!(Protocol::from_buf(&mut buf), Err(Error::InvalidProtocol("MQTT".to_string(), 4)));
    // a property that may come once, twice
    let mut buf = buffer(&[10, 0x11, 0, 0, 0, 1, 0x11, 0, 0, 0, 2]);
    assert_eq!(
        Mqtt5Property::from_buf(&mut buf),
        Err(Error::InvalidProtocol("Cannot contains [Session Expire Interval] more than once".to_string(), 0x11))
    );
}

#[test]
fn codec_error_malformed_packet() {
    // the reserved bit of the connect flags is set
    let mut buf = buffer(&[0b0000_0001]);
    assert_eq!(ConnectFlags::from_buf(&mut buf), Err(Error::MalformedPacket));
    // a will qos of 3, with and without a will; what follows is left
    let mut buf = buffer(&[0b0001_1100, 7]);
    assert_eq!(ConnectFlags::from_buf(&mut buf), Err(Error::MalformedPacket));
    assert_eq!(buf.to_vec(), vec![7]);
    let mut buf = buffer(&[0b0001_1000]);
    assert_eq!(ConnectFlags::from_buf(&mut buf), Err(Error::MalformedPacket));
    // a will qos of 2 with a will reads
    let mut buf = buffer(&[0b1101_0110]);
    let flags = ConnectFlags::from_buf(&mut buf).unwrap();
    let mut out = Vec::new();
    flags.to_buf(&mut out).unwrap();
    assert_eq!(out, vec![0b1101_0110]);
    // a session-present byte above 1
    let mut buf = buffer(&[2]);
    assert_eq!(ConnAckFlags::from_buf(&mut buf), Err(Error::MalformedPacket));
}

#[test]
fn codec_error_incomplete() {
    let mut buf = buffer(&[0b1100_0000]);
    assert_eq!(Packet::parse(&mut buf), Err(Error::Incomplete));
    let mut buf = buffer(&[]);
    assert_eq!(Packet::parse(&mut buf), Err(Error::Incomplete));
}

#[test]
fn codec_property_roundtrip_concrete() {
    let mut property = Mqtt5Property::new();
    property.properties.insert(0x11, PropertyValue::FourByteInteger(30));
    property.properties.insert(0x23, PropertyValue::TwoByteInteger(7));
    property.properties.insert(
        0x26,
        PropertyValue::StringPair(vec![("name".to_string(), "iamazy".to_string()), ("age".to_string(), "23".to_string())]),
    );
    // 5 + 3 + (1 + 6 + 8) + (1 + 5 + 4) bytes of entries
    property.property_length = 33;
    let mut out = Vec::new();
    property.to_buf(&mut out).unwrap();
    assert_eq!(out.len(), 34);
    let back = Mqtt5Property::from_buf(&mut buffer(&out)).unwrap();
    assert_eq!(back, property);
}

#[test]
fn codec_pingreq_parse() {
    let mut buf = buffer(&[0b1100_0000, 0]);
    assert!(matches!(Packet::parse(&mut buf), Ok(Packet::PingReq(_))));
    assert!(buf.is_empty());
}

#[test]
fn codec_strings_and_bytes_roundtrip() {
    let mut out = Vec::new();
    assert_eq!(write_string("héllo".to_string(), &mut out), 8);
    assert_eq!(out, vec![0, 6, b'h', 0xC3, 0xA9, b'l', b'l', b'o']);
    let mut buf = buffer(&out);
    assert_eq!(read_string(&mut buf).unwrap(), "héllo");
    assert!(buf.is_empty());
    let mut out = Vec::new();
    assert_eq!(mqtt::codec::write_bytes(bytes::Bytes::from_static(&[1, 2, 3]), &mut out), 5);
    let mut buf = buffer(&out);
    assert_eq!(read_bytes(&mut buf).unwrap().to_vec(), vec![1, 2, 3]);
    assert!(buf.is_empty());
}

#[test]
fn codec_error_texts() {
    assert_eq!(Error::MalformedVariableByteInteger.to_string(), "Malformed variable byte integer");
    assert_eq!(Error::Incomplete.to_string(), "Incomplete Packet");
    assert_eq!(Error::InvalidProtocol("bad".to_string(), 3).to_string(), "bad");
    assert_eq!(Error::from("other".to_string()), Error::Other("other".to_string()));
    assert_eq!(Error::from("other".to_string()).to_string(), "other");
}

#[test]
fn codec_fixed_header_ready_on_whole_frames() {
    assert!(fixed_header_ready(&buffer(&[0b1100_0000, 0])));
    assert!(fixed_header_ready(&buffer(&[0x30, 2, 0, 1])));
    // a frame cut short, or with more after it, is not ready
    assert!(!fixed_header_ready(&buffer(&[0x30, 5, 0, 1])));
    assert!(!fixed_header_ready(&buffer(&[0x30, 1, 0, 1])));
    assert!(!fixed_header_ready(&buffer(&[0xC0])));
    assert!(!fixed_header_ready(&buffer(&[])));
    // an unknown packet type never reads; a QoS of 3 reads as an error
    assert!(!fixed_header_ready(&buffer(&[0x00, 0])));
    assert!(fixed_header_ready(&buffer(&[0x36, 0])));
    let buf = buffer(&[0x30, 5, 0, 1]);
    fixed_header_ready(&buf);
    assert_eq!(buf.to_vec(), vec![0x30, 5, 0, 1]);
}

#[test]
fn codec_parse_dispatches_on_the_packet_type() {
    let bytes = [0x40, 4, 0, 1, 0, 0];
    let own = mqtt::codec::puback::PubAck::from_buf(&mut buffer(&bytes)).unwrap();
    let mut buf = buffer(&bytes);
    assert_eq!(Packet::parse(&mut buf), Ok(Packet::PubAck(own)));
    assert!(buf.is_empty());
}
