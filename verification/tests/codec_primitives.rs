use bytes::{Buf, BufMut, BytesMut};
use mqtt::codec::property::{Mqtt5Property, PropertyValue};
use mqtt::codec::packet::PacketId;
use mqtt::codec::{read_bytes, FromToBuf};

#[test]
fn test_property2buf() {
    let mut property = Mqtt5Property::new();
    property.properties.insert(0x11, PropertyValue::FourByteInteger(30));
    let mut list = Vec::new();
    list.push(("name".to_string(), "iamazy".to_string()));
    list.push(("age".to_string(), "23".to_string()));
    property.properties.insert(0x26, PropertyValue::StringPair(list));
    property.property_length = 30;
    let mut buf = Vec::with_capacity(64);
    let _ = property.to_buf(&mut buf);
    println!("{:?}", buf);
}

#[test]
fn test_buf2property() {
    let vec: Vec<u8> = vec![
        30, 17, 0, 0, 0, 30, 38, 0, 4, 110, 97, 109, 101, 0, 6, 105, 97, 109, 97, 122, 121, 38, 0, 3, 97, 103, 101, 0,
        2, 50, 51,
    ];
    let mut buf = BytesMut::from(vec.as_slice());
    let property = Mqtt5Property::from_buf(&mut buf).expect("Failed to parse Mqtt5 Property");
    println!("{:?}", property);
}

#[test]
fn lib_test_decode() {
    let mut buf = BytesMut::with_capacity(64);

    buf.put_slice(&[4u8, 4u8, 'M' as u8, 'Q' as u8, 'T' as u8, 'T' as u8, 5u8]);

    println!("{}", buf.get_u16() as i32);
    println!("{:?}", buf.remaining());

    let vec = read_bytes(&mut buf);
    println!("{:?}", vec);
}

#[test]
fn decoder_test_decode() {
    let mut buf = BytesMut::with_capacity(64);

    buf.put_slice(&[4u8, 4u8, 'M' as u8, 'Q' as u8, 'T' as u8, 'T' as u8, 5u8]);

    println!("{}", buf.get_u16() as i32);
    println!("{:?}", buf.remaining());

    let vec = read_bytes(&mut buf);
    println!("{:?}", vec);
}

#[test]
fn codec_packet_id_gives_back_its_value() {
    for v in [1u16, 2, 255, 256, 65535] {
        let id = PacketId::new(v);
        assert_eq!(id.get(), v);
        let mut out = Vec::new();
        assert_eq!(id.to_buf(&mut out), 2);
        assert_eq!(out, v.to_be_bytes().to_vec());
    }
}
