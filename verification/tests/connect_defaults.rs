use bytes::{BufMut, BytesMut};
use mqtt::codec::packet::PacketType;
use mqtt::codec::protocol::Protocol;
use mqtt::connect_defaults::{Connect, Error, PropertyValue};
use mqtt::connect_defaults::flags::ConnectFlag;

fn buffer(bytes: &[u8]) -> BytesMut {
    let mut buf = BytesMut::with_capacity(64);
    buf.put_slice(bytes);
    buf
}

/// A CONNECT packet up to its properties, with the given flags.
fn head(flags: u8) -> Vec<u8> {
    vec![0x10, 40, 0, 4, b'M', b'Q', b'T', b'T', 5, flags, 0, 10]
}

#[test]
fn defaults_filled_in() {
    let mut bytes = head(0b1100_0110);
    // session expiry 16; the identifier byte does not count towards the length
    bytes.extend_from_slice(&[4, 0x11, 0, 0, 0, 0x10]);
    // client id, will properties (will delay 5), will topic, will payload, user name, password
    bytes.extend_from_slice(&[0, 3, b'c', b'i', b'd']);
    bytes.extend_from_slice(&[4, 0x18, 0, 0, 0, 5, 0, 1, b'w', 0, 1, b'p']);
    bytes.extend_from_slice(&[0, 1, b'u', 0, 1, b'p']);
    let mut buf = buffer(&bytes);
    let connect = Connect::from_buf(&mut buf).expect("the CONNECT packet should be read");
    assert!(buf.is_empty());
    assert_eq!(connect.fixed_header.packet_type, PacketType::CONNECT);
    assert_eq!(connect.fixed_header.remaining_length, 40);
    assert_eq!(connect.variable_header.protocol, Protocol::MQTT5);
    assert_eq!(connect.variable_header.keep_alive, 10);
    let props = &connect.variable_header.connect_property;
    assert_eq!(props.property_length, 0);
    assert_eq!(props.properties.len(), 4);
    assert_eq!(props.properties.get(&0x11), Some(&PropertyValue::FourByteInteger(16)));
    assert_eq!(props.properties.get(&0x21), Some(&PropertyValue::TwoByteInteger(65535)));
    assert_eq!(props.properties.get(&0x22), Some(&PropertyValue::TwoByteInteger(0)));
    assert_eq!(props.properties.get(&0x19), Some(&PropertyValue::Bit(false)));
    let payload = &connect.payload;
    assert_eq!(payload.client_id, "cid");
    let will = payload.will_property.as_ref().unwrap();
    assert_eq!(will.properties.get(&0x18), Some(&PropertyValue::FourByteInteger(5)));
    assert_eq!(payload.will_topic.as_deref(), Some("w"));
    assert_eq!(payload.will_payload, Some(vec![b'p']));
    assert_eq!(payload.username.as_deref(), Some("u"));
    assert_eq!(payload.password.as_deref(), Some("p"));
}

#[test]
fn defaults_user_properties_gathered() {
    let mut bytes = head(0);
    // two user properties, each counting the bytes of its name and value
    bytes.extend_from_slice(&[4, 0x26, 0, 1, b'a', 0, 1, b'b', 0x26, 0, 1, b'c', 0, 1, b'd']);
    bytes.extend_from_slice(&[0, 0]);
    let mut buf = buffer(&bytes);
    let connect = Connect::from_buf(&mut buf).unwrap();
    assert_eq!(
        connect.variable_header.connect_property.properties.get(&0x26),
        Some(&PropertyValue::StringPair(vec![
            ("a".to_string(), "b".to_string()),
            ("c".to_string(), "d".to_string()),
        ]))
    );
    assert_eq!(connect.payload.client_id, "");
    assert_eq!(connect.payload.will_property, None);
}

#[test]
fn defaults_unknown_connect_property() {
    let mut bytes = head(0);
    bytes.extend_from_slice(&[1, 0x01, 0]);
    assert_eq!(Connect::from_buf(&mut buffer(&bytes)).unwrap_err(), Error::InvalidConnectPropertyType);
}

#[test]
fn defaults_duplicate_session_expiry() {
    let mut bytes = head(0);
    bytes.extend_from_slice(&[8, 0x11, 0, 0, 0, 1, 0x11, 0, 0, 0, 2]);
    assert_eq!(
        Connect::from_buf(&mut buffer(&bytes)).unwrap_err(),
        Error::InvalidProtocol("Connect properties cannot contains [Session Expire Interval] more than once".to_string(), 0x11)
    );
}

#[test]
fn defaults_authentication_data_without_method() {
    let mut bytes = head(0);
    bytes.extend_from_slice(&[1, 0x16, 0, 1, 0xAA, 0, 0]);
    assert_eq!(
        Connect::from_buf(&mut buffer(&bytes)).unwrap_err(),
        Error::InvalidProtocol(
            "Connect properties cannot contains Authentication Data if there is no Authentication Method".to_string(),
            0x16
        )
    );
}

#[test]
fn defaults_unknown_will_property() {
    let mut bytes = head(0b0000_0100);
    bytes.extend_from_slice(&[0, 0, 0, 1, 0x05, 0]);
    assert_eq!(Connect::from_buf(&mut buffer(&bytes)).unwrap_err(), Error::InvalidWillPropertyType);
}

#[test]
fn defaults_malformed_property_length() {
    let mut bytes = head(0);
    bytes.extend_from_slice(&[0x80, 0x80, 0x80, 0x80, 0x01]);
    let mut buf = buffer(&bytes);
    assert_eq!(Connect::from_buf(&mut buf).unwrap_err(), Error::MalformedVariableByteInteger);
    // the head was taken, the malformed length was not
    assert_eq!(buf.len(), 5);
}

use mqtt::connect_defaults::Mqtt5Property;

#[test]
fn defaults_property_list() {
    // session expiry 30 and two user properties: each identifier counts one,
    // each string its bytes
    let bytes = [
        22, 17, 0, 0, 0, 30, 38, 0, 4, 110, 97, 109, 101, 0, 6, 105, 97, 109, 97, 122, 121, 38, 0, 3, 97, 103, 101,
        0, 2, 50, 51, 0xEE,
    ];
    let mut buf = buffer(&bytes);
    let property = Mqtt5Property::from_buf(&mut buf).expect("the property list should be read");
    assert_eq!(property.property_length, 22);
    assert_eq!(property.properties.get(&0x11), Some(&PropertyValue::FourByteInteger(30)));
    assert_eq!(
        property.properties.get(&0x26),
        Some(&PropertyValue::StringPair(vec![
            ("name".to_string(), "iamazy".to_string()),
            ("age".to_string(), "23".to_string()),
        ]))
    );
    assert_eq!(&buf[..], &[0xEE]);
}

#[test]
fn defaults_property_list_errors() {
    assert_eq!(
        Mqtt5Property::from_buf(&mut buffer(&[3, 0x21, 0, 0])).unwrap_err(),
        Error::InvalidProtocol("Cannot contains [Receive Maximum] more than once or for it have the value 0".to_string(), 0x21)
    );
    assert_eq!(
        Mqtt5Property::from_buf(&mut buffer(&[2, 0x04, 0])).unwrap_err(),
        Error::InvalidPropertyType("It's a invalid Property Type".to_string())
    );
    assert_eq!(
        Mqtt5Property::from_buf(&mut buffer(&[4, 0x01, 1, 0x01, 0])).unwrap_err(),
        Error::InvalidProtocol("Cannot contains [Payload Format Indicator] more than once".to_string(), 0x18)
    );
    let property = Mqtt5Property::from_buf(&mut buffer(&[3, 0x21, 0, 5])).unwrap();
    assert_eq!(property.properties.get(&0x21), Some(&PropertyValue::TwoByteInteger(5)));
}

use mqtt::codec::fixed_header::FixedHeader;
use mqtt::codec::publish::Qos;

#[test]
fn defaults_fixed_header_with_expected_flags() {
    let mut buf = buffer(&[0x32, 5, 0xAA]);
    let header = FixedHeader::new(&mut buf, false, Qos::AtLeastOnce, false).unwrap();
    assert_eq!(header.packet_type, PacketType::PUBLISH);
    assert_eq!(header.qos, Qos::AtLeastOnce);
    assert_eq!(header.remaining_length, 5);
    assert_eq!(&buf[..], &[0xAA]);
    assert_eq!(
        FixedHeader::new(&mut buffer(&[0x3A, 5]), false, Qos::AtLeastOnce, false).unwrap_err(),
        Error::MalformedFixedHeader("It's a Malformed FixedHeader, Please check it Dup again".to_string())
    );
    assert_eq!(FixedHeader::new(&mut buffer(&[0x36, 5]), false, Qos::AtLeastOnce, false).unwrap_err(), Error::MalformedPacket);
    assert_eq!(
        FixedHeader::new(&mut buffer(&[0x30, 5]), false, Qos::AtLeastOnce, false).unwrap_err(),
        Error::MalformedFixedHeader("It's a Malformed FixedHeader, Please check it Qos again".to_string())
    );
    assert_eq!(
        FixedHeader::new(&mut buffer(&[0x33, 5]), false, Qos::AtLeastOnce, false).unwrap_err(),
        Error::MalformedFixedHeader("It's a Malformed FixedHeader, Please check it Retain again".to_string())
    );
}

#[test]
fn defaults_connect_flag_bytes() {
    // clean start, will at qos 1, user name
    let mut buf = buffer(&[0b1000_1110]);
    let flag = ConnectFlag::from_buf(&mut buf).unwrap();
    assert!(buf.is_empty());
    let mut out = Vec::new();
    // the will qos goes into bits 4-3, the reserved bit stays clear
    assert_eq!(flag.to_buf(&mut out), Ok(0b1000_1110));
    assert_eq!(out, vec![0b1000_1110]);
    // clean start, will at qos 1, user name and password
    let flag = ConnectFlag::from_buf(&mut buffer(&[0b1100_1110])).unwrap();
    let mut out = Vec::new();
    assert_eq!(flag.to_buf(&mut out), Ok(0b1100_1110));
    assert_eq!(out, vec![0b1100_1110]);
    assert_eq!(ConnectFlag::from_buf(&mut buffer(&[0b0000_0001])), Err(Error::MalformedPacket));
    assert_eq!(ConnectFlag::from_buf(&mut buffer(&[0b0000_1000])), Err(Error::MalformedPacket));
    assert_eq!(ConnectFlag::from_buf(&mut buffer(&[0b0010_0000])), Err(Error::MalformedPacket));
}

/// A CONNECT packet with clean start, the given property block, and an
/// empty client id.
fn with_properties(props: &[u8]) -> Vec<u8> {
    let mut bytes = vec![0x10, (10 + props.len() + 2) as u8, 0, 4, b'M', b'Q', b'T', b'T', 5, 0b0000_0010, 0, 60];
    bytes.extend_from_slice(props);
    bytes.extend_from_slice(&[0, 0]);
    bytes
}

#[test]
fn defaults_receive_maximum_and_maximum_packet_size() {
    let mut buf = buffer(&with_properties(&[2, 0x21, 0, 10]));
    let connect = Connect::from_buf(&mut buf).expect("the CONNECT packet should be read");
    assert!(buf.is_empty());
    let props = &connect.variable_header.connect_property.properties;
    assert_eq!(props.get(&0x21), Some(&PropertyValue::TwoByteInteger(10)));
    assert_eq!(props.get(&0x11), Some(&PropertyValue::FourByteInteger(0)));
    assert_eq!(props.get(&0x22), Some(&PropertyValue::TwoByteInteger(0)));
    assert_eq!(props.get(&0x19), Some(&PropertyValue::Bit(false)));
    assert_eq!(props.len(), 4);
    let connect = Connect::from_buf(&mut buffer(&with_properties(&[4, 0x27, 0, 0, 1, 0]))).unwrap();
    assert_eq!(connect.variable_header.connect_property.properties.get(&0x27), Some(&PropertyValue::FourByteInteger(256)));
    assert_eq!(
        Connect::from_buf(&mut buffer(&with_properties(&[2, 0x21, 0, 0]))).unwrap_err(),
        Error::InvalidProtocol(
            "Connect properties cannot contains [Receive Maximum] more than once or for it have the value 0".to_string(),
            0x21
        )
    );
    assert_eq!(
        Connect::from_buf(&mut buffer(&with_properties(&[4, 0x21, 0, 1, 0x21, 0, 2]))).unwrap_err(),
        Error::InvalidProtocol(
            "Connect properties cannot contains [Receive Maximum] more than once or for it have the value 0".to_string(),
            0x21
        )
    );
    assert_eq!(
        Connect::from_buf(&mut buffer(&with_properties(&[4, 0x27, 0, 0, 0, 0]))).unwrap_err(),
        Error::InvalidProtocol(
            "Connect properties cannot contains [Maximum Packet Size] more than once or for it have the value 0".to_string(),
            0x27
        )
    );
}
