use mqtt::borrowed::connect::{connect_flag, protocol};
use mqtt::borrowed::packet::{fixed_header, Packet};
use mqtt::borrowed::parse;
use mqtt::borrowed::primitives::{read_string, read_variable_bytes};
use mqtt::borrowed::property::{mqtt5_property, property_value, PropertyValue};
use mqtt::borrowed::subscription::subscription_options;
use mqtt::codec::packet::PacketType;
use mqtt::codec::protocol::Protocol;
use mqtt::codec::publish::Qos;
use mqtt::codec::subscribe::SubscribeReasonCode;

#[test]
fn test_read_variable_bytes() {
    let bytes = &[0];
    let variable_bytes = read_variable_bytes(bytes);
    println!("{:?}", variable_bytes);
    let (rest, (value, len)) = variable_bytes.unwrap();
    assert!(rest.is_empty());
    assert_eq!(value, 0);
    assert_eq!(len, 1);
}

#[test]
fn test_mqtt5_property() {
    let vec = &[
        127, 1, 1, 2, 0, 0, 0, 100, 3, 0, 16, 97, 112, 112, 108, 105, 99, 97, 116, 105, 111, 110, 47, 106, 115,
        111, 110, 8, 0, 10, 109, 113, 116, 116, 95, 116, 111, 112, 105, 99, 9, 0, 7, 109, 113, 116, 116, 49, 50,
        51, 17, 0, 0, 0, 5, 18, 0, 3, 100, 100, 100, 19, 0, 11, 21, 0, 10, 97, 117, 116, 104, 77, 101, 116, 104,
        111, 100, 22, 0, 4, 97, 117, 116, 104, 23, 1, 24, 0, 0, 0, 13, 25, 0, 33, 0, 2, 35, 0, 91, 36, 9, 37, 1,
        38, 0, 4, 110, 97, 109, 101, 0, 6, 105, 97, 109, 97, 122, 121, 38, 0, 3, 97, 103, 101, 0, 2, 50, 52,
    ];
    match mqtt5_property(vec) {
        Ok(res) => {
            println!("{:?}", res);
            let (rest, property) = res;
            assert!(rest.is_empty());
            assert_eq!(property.property_length, 127);
            assert_eq!(property.properties.len(), 18);
            assert_eq!(property.properties.get(&0x01), Some(&PropertyValue::Bit(true)));
            assert_eq!(property.properties.get(&0x03), Some(&PropertyValue::String("application/json")));
            assert_eq!(property.properties.get(&0x09), Some(&PropertyValue::Binary(b"mqtt123")));
            assert_eq!(property.properties.get(&0x19), Some(&PropertyValue::Bit(false)));
            assert_eq!(property.properties.get(&0x24), Some(&PropertyValue::Byte(9)));
            assert_eq!(
                property.properties.get(&0x26),
                Some(&PropertyValue::Multiple(vec![
                    PropertyValue::StringPair("name", "iamazy"),
                    PropertyValue::StringPair("age", "24"),
                ]))
            );
        }
        Err(e) => {
            println!("{:?}", e);
            panic!("the property list should be read");
        }
    }
}

#[test]
fn lib_test_connect() {
    let vec = &[
        0b0001_0000u8, 52, // fixed header
        0x00, 0x04, 'M' as u8, 'Q' as u8, 'T' as u8, 'T' as u8, // protocol name
        0x05, // protocol version
        0b1100_1110u8, // connect flag
        0x00, 0x10, // keep alive
        0x05, 0x11, 0x00, 0x00, 0x00, 0x10, // connect properties
        0x00, 0x03, 'c' as u8, 'i' as u8, 'd' as u8, // client id
        0x05, 0x02, 0x00, 0x00, 0x00, 0x10, // will properties
        0x00, 0x04, 'w' as u8, 'i' as u8, 'l' as u8, 'l' as u8, // will topic
        0x00, 0x01, 'p' as u8, // will payload
        0x00, 0x06, 'i' as u8, 'a' as u8, 'm' as u8, 'a' as u8, 'z' as u8, 'y' as u8, // username
        0x00, 0x06, 0x01, 0x02, 0x03, 0x04, 0x05, 0x06,
    ];
    match parse(vec) {
        Ok(res) => {
            println!("{:?}", res);
            match res.1 {
                Packet::Connect(c) => {
                    assert_eq!(c.fixed_header.remaining_length, 52);
                    assert_eq!(c.variable_header.protocol, Protocol::MQTT5);
                    assert_eq!(c.variable_header.keep_alive, 16);
                    let flags = c.variable_header.connect_flags;
                    assert!(flags.clean_start && flags.will_flag && flags.username_flag && flags.password_flag);
                    assert!(!flags.will_retain);
                    assert_eq!(flags.will_qos, Qos::AtLeastOnce);
                    assert_eq!(c.payload.client_id, "cid");
                    assert_eq!(c.payload.will_topic, Some("will"));
                    assert_eq!(c.payload.will_payload, Some(&b"p"[..]));
                    assert_eq!(c.payload.username, Some("iamazy"));
                    assert_eq!(c.payload.password, Some("\u{1}\u{2}\u{3}\u{4}\u{5}\u{6}"));
                    let will_property = c.payload.will_property.unwrap();
                    assert_eq!(will_property.properties.get(&0x02), Some(&PropertyValue::FourByteInteger(16)));
                }
                other => panic!("not a CONNECT packet: {:?}", other),
            }
        }
        Err(e) => {
            println!("{:?}", e);
            panic!("the CONNECT packet should be read");
        }
    }
}

#[test]
fn lib_test_suback() {
    let vec = &[
        0b1001_0000u8, 11, // fixed header
        0x00, 0x10, // packet identifier
        5,    // properties length
        0x1F, // property id
        0x00, 0x02, 'I' as u8, 'a' as u8, // reason string
        0x00, 0x01, 0x02,
    ];
    match parse(vec) {
        Ok(res) => {
            println!("{:?}", res);
            match res.1 {
                Packet::SubAck(s) => {
                    assert_eq!(s.variable_header.packet_id, 16);
                    assert_eq!(
                        s.variable_header.suback_property.properties.get(&0x1F),
                        Some(&PropertyValue::String("Ia"))
                    );
                    // the reason codes are read from the bytes after the packet, of which there are none
                    assert!(s.payload.is_empty());
                }
                other => panic!("not a SUBACK packet: {:?}", other),
            }
        }
        Err(e) => {
            println!("{:?}", e);
            panic!("the SUBACK packet should be read");
        }
    }
}

#[test]
fn borrowed_variable_bytes_two_bytes() {
    let (rest, (value, len)) = read_variable_bytes(&[0x80, 0x01, 0x07]).unwrap();
    assert_eq!(value, 128);
    assert_eq!(len, 2);
    assert_eq!(rest, &[0x07]);
    // only high-bit bytes: no final byte to end the integer
    assert!(read_variable_bytes(&[0x80, 0x80]).is_err());
    assert!(read_variable_bytes(&[]).is_err());
}

#[test]
fn borrowed_property_value_kinds() {
    assert_eq!(property_value(&[0x0B, 0x05]).unwrap().1, (0x0B, PropertyValue::VariableByteInteger(5)));
    // a subscription identifier of zero is refused
    assert!(property_value(&[0x0B, 0x00]).is_err());
    // an unknown identifier is refused
    assert!(property_value(&[0x04, 0x00]).is_err());
    assert_eq!(property_value(&[0x21, 0x01, 0x00]).unwrap().1, (0x21, PropertyValue::TwoByteInteger(256)));
    assert_eq!(property_value(&[0x17, 0x03]).unwrap().1, (0x17, PropertyValue::Bit(true)));
}

#[test]
fn borrowed_repeated_property_replaced() {
    // two Topic Alias properties: the later one is kept
    let (_, property) = mqtt5_property(&[6, 0x23, 0x00, 0x01, 0x23, 0x00, 0x02]).unwrap();
    assert_eq!(property.properties.get(&0x23), Some(&PropertyValue::TwoByteInteger(2)));
    assert_eq!(property.properties.len(), 1);
    // two subscription identifiers are gathered in order
    let (_, property) = mqtt5_property(&[4, 0x0B, 0x01, 0x0B, 0x02]).unwrap();
    assert_eq!(
        property.properties.get(&0x0B),
        Some(&PropertyValue::Multiple(vec![
            PropertyValue::VariableByteInteger(1),
            PropertyValue::VariableByteInteger(2),
        ]))
    );
    // a list longer than the input is refused
    assert!(mqtt5_property(&[3, 0x23, 0x00]).is_err());
}

#[test]
fn borrowed_strings_and_protocol() {
    assert_eq!(read_string(&[0, 2, b'h', b'i', 9]).unwrap(), (&[9u8][..], "hi"));
    assert!(read_string(&[0, 2, 0xFF, 0xFE]).is_err());
    assert!(read_string(&[0, 3, b'a']).is_err());
    assert_eq!(protocol(&[0, 4, b'M', b'Q', b'T', b'T', 5]).unwrap().1, Protocol::MQTT5);
    assert!(protocol(&[0, 4, b'M', b'Q', b'T', b'T', 4]).is_err());
    assert!(protocol(&[0, 4, b'M', b'Q', b'T', b'X', 5]).is_err());
}

#[test]
fn borrowed_flags_and_options() {
    let (_, flags) = connect_flag(&[0b1100_1110]).unwrap();
    assert!(flags.clean_start && flags.will_flag && flags.password_flag && flags.username_flag);
    assert_eq!(flags.will_qos, Qos::AtLeastOnce);
    let (_, options) = subscription_options(&[0b0010_1110]).unwrap();
    assert_eq!(options.maximum_qos, Qos::ExactlyOnce);
    assert!(options.no_local && options.retain_as_published);
    assert_eq!(options.retain_handling, 2);
}

#[test]
fn borrowed_fixed_header_and_parse_errors() {
    let (rest, header) = fixed_header(&[0b0011_1011, 0x02, 0xAA, 0xBB]).unwrap();
    assert_eq!(header.packet_type, PacketType::PUBLISH);
    assert!(header.dup && header.retain);
    assert_eq!(header.qos, Qos::AtLeastOnce);
    assert_eq!(header.remaining_length, 2);
    assert_eq!(rest, &[0xAA, 0xBB]);
    // PINGREQ alone is a whole packet
    assert!(matches!(parse(&[0xC0, 0x00]).unwrap().1, Packet::PingReq(_)));
    // a byte left over after the packet is refused
    assert!(parse(&[0xC0, 0x00, 0x00]).is_err());
    // a frame shorter than its remaining length is refused
    assert!(parse(&[0x40, 0x04, 0x00, 0x01]).is_err());
    // PUBACK with packet id 1, reason 0x10, no properties
    match parse(&[0x40, 0x04, 0x00, 0x01, 0x10, 0x00]).unwrap().1 {
        Packet::PubAck(p) => assert_eq!(p.variable_header.packet_id, 1),
        other => panic!("not a PUBACK packet: {:?}", other),
    }
    // an unknown PUBACK reason code is refused
    assert!(parse(&[0x40, 0x04, 0x00, 0x01, 0x05, 0x00]).is_err());
    // PUBLISH with a payload is refused: its variable header must fill the frame
    assert!(parse(&[0x30, 0x06, 0x00, 0x01, b't', 0x00, 0x01, 0x00]).is_ok());
    assert!(parse(&[0x30, 0x07, 0x00, 0x01, b't', 0x00, 0x01, 0x00, 0x55]).is_err());
}

#[test]
fn borrowed_subscribe_and_unsuback() {
    // SUBSCRIBE: id 1, no properties, filter "a" with options 0x01, then a stray byte
    match parse(&[0x82, 0x08, 0x00, 0x01, 0x00, 0x00, 0x01, b'a', 0x01, 0x00]).unwrap().1 {
        Packet::Subscribe(s) => {
            assert_eq!(s.payload.len(), 1);
            assert_eq!(s.payload[0].0, "a");
            assert_eq!(s.payload[0].1.maximum_qos, Qos::AtLeastOnce);
        }
        other => panic!("not a SUBSCRIBE packet: {:?}", other),
    }
    // SUBACK whose codes follow the frame
    match parse(&[0x90, 0x03, 0x00, 0x02, 0x00, 0x01, 0x80]).unwrap().1 {
        Packet::SubAck(s) => {
            assert_eq!(s.payload, vec![SubscribeReasonCode::GrantedQos1, SubscribeReasonCode::UnspecifiedError]);
        }
        other => panic!("not a SUBACK packet: {:?}", other),
    }
    // UNSUBACK with one code inside the frame
    match parse(&[0xB0, 0x04, 0x00, 0x02, 0x00, 0x00]).unwrap().1 {
        Packet::UnSubAck(s) => assert_eq!(s.payload.len(), 1),
        other => panic!("not an UNSUBACK packet: {:?}", other),
    }
}
