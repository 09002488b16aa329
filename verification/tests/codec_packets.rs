use bytes::{Buf, BufMut, BytesMut};
use mqtt::codec::auth::Auth;
use mqtt::codec::connack::ConnAck;
use mqtt::codec::connect::{Connect, ConnectVariableHeader};
use mqtt::codec::disconnect::Disconnect;
use mqtt::codec::fixed_header::FixedHeader;
use mqtt::codec::packet::Packet;
use mqtt::codec::write::write_packet;
use mqtt::codec::pingreq::PingReq;
use mqtt::codec::pingresp::PingResp;
use mqtt::codec::protocol::Protocol;
use mqtt::codec::puback::PubAck;
use mqtt::codec::pubcomp::PubComp;
use mqtt::codec::publish::Publish;
use mqtt::codec::pubrec::PubRec;
use mqtt::codec::pubrel::PubRel;
use mqtt::codec::suback::SubAck;
use mqtt::codec::subscribe::Subscribe;
use mqtt::codec::unsuback::UnSubAck;
use mqtt::codec::unsubscribe::UnSubscribe;
use mqtt::codec::FromToBuf;

/// The bytes `to_buf` wrote, as a buffer to read back.
fn written(out: &[u8]) -> BytesMut {
    let mut buf = BytesMut::with_capacity(64);
    buf.put_slice(out);
    buf
}

#[test]
fn test_auth() {
    let auth_bytes = &[
        0b1111_0000u8,
        8,    // fixed header,
        0x00, // authenticate reason code
        6,    // properties length
        0x1F, // reason string identifier
        0x00,
        0x03,
        'h' as u8,
        'e' as u8,
        'l' as u8,
    ];
    let mut buf = BytesMut::with_capacity(64);
    buf.put_slice(auth_bytes);
    let auth = Auth::from_buf(&mut buf).expect("Failed to parse Auth Packet");

    let mut out = Vec::with_capacity(64);
    let _ = auth.to_buf(&mut out);
    assert_eq!(auth, Auth::from_buf(&mut written(&out)).unwrap());
}

#[test]
fn test_connack() {
    let connack_bytes = &[
        0b0010_0000, 8, // fixed header
        0b0000_0000, // connack flag
        0x00,        // conack reason code
        0x05, 0x11, 0x00, 0x00, 0x00, 0x10, // connack properties
    ];

    let mut buf = BytesMut::with_capacity(64);
    buf.put_slice(connack_bytes);
    let connack = ConnAck::from_buf(&mut buf).expect("Failed to parse ConnAck Packet");

    let mut out = Vec::with_capacity(64);
    let _ = connack.to_buf(&mut out);
    println!("{:?}", connack);
    assert_eq!(connack, ConnAck::from_buf(&mut written(&out)).unwrap());
}

#[test]
fn test_variable_header_example() {
    let mut buf = BytesMut::with_capacity(64);
    buf.put_u8(0);
    buf.put_u8(4);
    buf.put(&b"MQTT"[..]);
    buf.put_u8(5);
    buf.put_u8(0b11001110);
    buf.put_u8(0);
    buf.put_u8(10);
    buf.put_u8(5);
    buf.put_u8(17);
    buf.put_u32(10);

    let variable_header =
        ConnectVariableHeader::from_buf(&mut buf).expect("Failed to parse Connect Variable Header");

    let mut out = Vec::with_capacity(64);
    let _ = variable_header.to_buf(&mut out);
    println!("{:?}", out);
    println!("{:?}", variable_header);
    println!("{:?}", ConnectVariableHeader::from_buf(&mut written(&out)));
}

#[test]
fn connect_test_take() {
    let mut buf = (&b"hello world"[..]).take(100);
    let mut dst = vec![];

    dst.put(&mut buf);
    println!("{}", dst.len());

    let mut buf = buf.into_inner();
    dst.clear();
    dst.put(&mut buf);
    println!("{}", buf.len());
}

#[test]
fn connect_test_connect() {
    let connect_bytes = &[
        0b0001_0000u8, 49, // fixed header
        0x00, 0x04, 'M' as u8, 'Q' as u8, 'T' as u8, 'T' as u8, // protocol name
        0x05, // protocol version
        0b1100_1110u8, // connect flag
        0x00, 0x10, // keep alive
        0x05, 0x11, 0x00, 0x00, 0x00, 0x10, // connect properties
        0x00, 0x03, 'c' as u8, 'i' as u8, 'd' as u8, // client id
        0x05, 0x02, 0x00, 0x00, 0x00, 0x10, // will properties
        0x00, 0x04, 'w' as u8, 'i' as u8, 'l' as u8, 'l' as u8, // will topic
        0x00, 0x01, 'p' as u8, // will payload
        0x00, 0x06, 'i' as u8, 'a' as u8, 'm' as u8, 'a' as u8, 'z' as u8, 'y' as u8, // username
        0x00, 0x06, 0x01, 0x02, 0x03, 0x04, 0x05, 0x06,
    ];
    let mut buf = BytesMut::with_capacity(64);
    buf.put_slice(connect_bytes);
    let connect = Connect::from_buf(&mut buf).expect("Failed to parse Connect Packet");

    let mut out = Vec::with_capacity(64);
    let _ = connect.to_buf(&mut out);
    println!("{:?}", out);
    assert_eq!(connect, Connect::from_buf(&mut written(&out)).unwrap());
}

#[test]
fn test_disconnect() {
    let disconnect_bytes = &[
        0b1110_0000u8, 7, // fixed header
        0x00, // disconnect reason code
        5,    // properties length
        0x1F, // property id
        0x00, 0x02, 'I' as u8, 'a' as u8, // reason string
    ];
    let mut buf = BytesMut::with_capacity(64);
    buf.put_slice(disconnect_bytes);
    let disconnect = Disconnect::from_buf(&mut buf).expect("Failed to parse Disconnect Packet");

    let mut out = Vec::with_capacity(64);
    let _ = disconnect.to_buf(&mut out);
    assert_eq!(disconnect, Disconnect::from_buf(&mut written(&out)).unwrap());
}

#[test]
fn test_fixed_header() {
    let bytes = &[
        0b1101_0000u8, 0, // fixed header
    ];
    let mut buf = BytesMut::with_capacity(64);
    buf.put_slice(bytes);
    let fixed_header = FixedHeader::from_buf(&mut buf).expect("Failed to parse Fixed Header");

    let mut out = Vec::with_capacity(64);
    let _ = fixed_header.to_buf(&mut out);
    println!("{:?}", fixed_header);
    assert_eq!(fixed_header, FixedHeader::from_buf(&mut written(&out)).unwrap());
}

#[test]
fn test_pingreq() {
    let pingreq_bytes = &[
        0b1100_0000u8, 0, // fixed header
    ];
    let mut buf = BytesMut::with_capacity(64);
    buf.put_slice(pingreq_bytes);
    let pingreq = PingReq::from_buf(&mut buf).expect("Failed to parse PingReq Packet");

    let mut out = Vec::with_capacity(64);
    let _ = pingreq.to_buf(&mut out);
    assert_eq!(pingreq, PingReq::from_buf(&mut written(&out)).unwrap());
}

#[test]
fn test_pingresp() {
    let pingresp_bytes = &[
        0b1101_0000u8, 0, // fixed header
    ];
    let mut buf = BytesMut::with_capacity(64);
    buf.put_slice(pingresp_bytes);
    let pingresp = PingResp::from_buf(&mut buf).expect("Failed to parse PingResp Packet");

    let mut out = Vec::with_capacity(64);
    let _ = pingresp.to_buf(&mut out);
    assert_eq!(pingresp, PingResp::from_buf(&mut written(&out)).unwrap());
}

#[test]
fn protocol_test_protocol() {
    let buf = &mut Vec::<u8>::with_capacity(1024);
    let protocol = Protocol::MQTT5;
    let len = protocol.to_buf(buf).unwrap();
    println!("len: {}, buf: {:?}", len, buf);
    assert_eq!(len, 7);
    assert_eq!(buf.as_slice(), &[0u8, 4, b'M', b'Q', b'T', b'T', 5]);
    // the protocol named by "MQTT" at level 5
    let protocol = Protocol::new("MQTT", 5).unwrap();
    let buf = &mut Vec::<u8>::with_capacity(1024);
    let len = protocol.to_buf(buf).unwrap();
    println!("len: {}, buf: {:?}", len, buf);
    assert_eq!(len, 7);
    assert_eq!(
        Protocol::new("MQTT", 4).unwrap_err(),
        mqtt::connect_defaults::Error::InvalidProtocol("MQTT".to_string(), 4)
    );
}

#[test]
fn test_puback() {
    let puback_bytes = &[
        0b0100_0000u8, 9, // fixed header
        0x00, 0x10, // packet identifier
        0x00, // puback reason code
        5,    // properties length
        0x1F, // property id
        0x00, 0x02, 'I' as u8, 'a' as u8, // reason string
    ];
    let mut buf = BytesMut::with_capacity(64);
    buf.put_slice(puback_bytes);
    let puback = PubAck::from_buf(&mut buf).expect("Failed to parse PubAck Packet");

    let mut out = Vec::with_capacity(64);
    let _ = puback.to_buf(&mut out);
    assert_eq!(puback, PubAck::from_buf(&mut written(&out)).unwrap());
}

#[test]
fn test_pubcomp() {
    let pubcomp_bytes = &[
        0b0111_0000u8, 10, // fixed header,
        0x00, 0x10, // packet identifier
        0x00, // pubcomp reason code
        6,
        0x1F,
        0x00, 0x03, 'h' as u8, 'e' as u8, 'l' as u8, // reason string
    ];
    let mut buf = BytesMut::with_capacity(64);
    buf.put_slice(pubcomp_bytes);
    let pubcomp = PubComp::from_buf(&mut buf).expect("Failed to parse PubComp Packet");

    let mut out = Vec::with_capacity(64);
    let _ = pubcomp.to_buf(&mut out);
    assert_eq!(pubcomp, PubComp::from_buf(&mut written(&out)).unwrap());
}

#[test]
fn test_publish() {
    let publish_bytes = &[
        0b0011_1101u8, 14, // fixed header,
        0x00, 0x03, 'c' as u8, 'a' as u8, 't' as u8, // topic name
        0x00, 0x10, // packet identifier
        6,
        0x08,
        0x00, 0x03, 'c' as u8, 'a' as u8, 't' as u8, // reponse topic
    ];
    let mut buf = BytesMut::with_capacity(64);
    buf.put_slice(publish_bytes);
    let publish = Publish::from_buf(&mut buf).expect("Failed to parse Publish Packet");

    let mut out = Vec::with_capacity(64);
    let _ = publish.to_buf(&mut out);
    assert_eq!(publish, Publish::from_buf(&mut written(&out)).unwrap());
}

#[test]
fn pubrec_test_pubrec() {
    let pubrec_bytes = &[
        0b0101_0000u8, 9, // fixed header
        0x00, 0x10, // packet identifier
        0x00, // pubrec reason code
        5,    // properties length
        0x1F, // property id
        0x00, 0x02, 'I' as u8, 'a' as u8, // reason string
    ];
    let mut buf = BytesMut::with_capacity(64);
    buf.put_slice(pubrec_bytes);
    let pubrec = PubRec::from_buf(&mut buf).expect("Failed to parse PubRec Packet");

    let mut out = Vec::with_capacity(64);
    let _ = pubrec.to_buf(&mut out);
    assert_eq!(pubrec, PubRec::from_buf(&mut written(&out)).unwrap());
}

#[test]
fn pubrel_test_pubrec() {
    let pubrel_bytes = &[
        0b0110_0010u8, 9, // fixed header
        0x00, 0x10, // packet identifier
        0x00, // pubrec reason code
        5,    // properties length
        0x1F, // property id
        0x00, 0x02, 'I' as u8, 'a' as u8, // reason string
    ];
    let mut buf = BytesMut::with_capacity(64);
    buf.put_slice(pubrel_bytes);
    let pubrel = PubRel::from_buf(&mut buf).expect("Failed to parse PubRel Packet");

    let mut out = Vec::with_capacity(64);
    let _ = pubrel.to_buf(&mut out);
    assert_eq!(pubrel, PubRel::from_buf(&mut written(&out)).unwrap());
}

#[test]
fn suback_test_suback() {
    let suback_bytes = &[
        0b1001_0000u8, 11, // fixed header
        0x00, 0x10, // packet identifier
        5,    // properties length
        0x1F, // property id
        0x00, 0x02, 'I' as u8, 'a' as u8, // reason string
        0x00, 0x01, 0x02,
    ];
    let mut buf = BytesMut::with_capacity(64);
    buf.put_slice(suback_bytes);
    let suback = SubAck::from_buf(&mut buf).expect("Failed to parse SubAck Packet");

    let mut out = Vec::with_capacity(64);
    let _ = suback.to_buf(&mut out);
    assert_eq!(suback, SubAck::from_buf(&mut written(&out)).unwrap());
}

#[test]
fn subscribe_test_subscribe() {
    let subscribe_bytes = &[
        0b1000_0010u8, 17, // fixed header
        0x00, 0x10, // packet identifier
        2,    // properties length
        0x0B, // property id
        0x02, // subscription identifier
        0x00, 0x03, 'a' as u8, '/' as u8, 'b' as u8, // topic filter
        0x01, // subscription options
        0x00, 0x03, 'c' as u8, '/' as u8, 'd' as u8, // topic filter
        0x02, // subscription options
    ];
    let mut buf = BytesMut::with_capacity(64);
    buf.put_slice(subscribe_bytes);
    let subscribe = Subscribe::from_buf(&mut buf).expect("Failed to parse Subscribe Packet");

    let mut out = Vec::with_capacity(64);
    let _ = subscribe.to_buf(&mut out);
    assert_eq!(subscribe, Subscribe::from_buf(&mut written(&out)).unwrap());
}

#[test]
fn test_unsuback() {
    let unsuback_bytes = &[
        0b1011_0000u8, 11, // fixed header
        0x00, 0x10, // packet identifier
        5,    // properties length
        0x1F, // property id
        0x00, 0x02, 'I' as u8, 'a' as u8, // reason string
        0x00, 0x11, 0x80,
    ];
    let mut buf = BytesMut::with_capacity(64);
    buf.put_slice(unsuback_bytes);
    let unsuback = UnSubAck::from_buf(&mut buf).expect("Failed to parse UnSubAck Packet");

    let mut out = Vec::with_capacity(64);
    let _ = unsuback.to_buf(&mut out);
    assert_eq!(unsuback, UnSubAck::from_buf(&mut written(&out)).unwrap());
}

#[test]
fn unsubscribe_test_subscribe() {
    let unsubscribe_bytes = &[
        0b1010_0010u8,
        38, // fixed header
        0x00,
        0x10, // packet identifier
        25,   // properties length
        0x26, // property id
        0x00,
        0x04,
        'n' as u8,
        'a' as u8,
        'm' as u8,
        'e' as u8, // user property key1
        0x00,
        0x06,
        'i' as u8,
        'a' as u8,
        'm' as u8,
        'a' as u8,
        'z' as u8,
        'y' as u8, // user property value1
        0x26,
        0x00,
        0x03,
        'a' as u8,
        'g' as u8,
        'e' as u8, // user property key2
        0x00,
        0x02,
        '2' as u8,
        '4' as u8, // user property value2
        0x00,
        0x03,
        'a' as u8,
        '/' as u8,
        'b' as u8, // topic filter
        0x00,
        0x03,
        'c' as u8,
        '/' as u8,
        'd' as u8, // topic filter
    ];
    let mut buf = BytesMut::with_capacity(64);
    buf.put_slice(unsubscribe_bytes);
    let unsubscribe = UnSubscribe::from_buf(&mut buf).expect("Failed to parse UnSubscribe Packet");

    let mut out = Vec::with_capacity(64);
    let _ = unsubscribe.to_buf(&mut out);
    assert_eq!(unsubscribe, UnSubscribe::from_buf(&mut written(&out)).unwrap());
}

#[test]
fn codec_parse_reads_written_packets() {
    let connect_bytes = &[
        0b0001_0000u8, 49,
        0x00, 0x04, b'M', b'Q', b'T', b'T', 0x05, 0b1100_1110u8, 0x00, 0x10,
        0x05, 0x11, 0x00, 0x00, 0x00, 0x10,
        0x00, 0x03, b'c', b'i', b'd',
        0x05, 0x02, 0x00, 0x00, 0x00, 0x10,
        0x00, 0x04, b'w', b'i', b'l', b'l',
        0x00, 0x01, b'p',
        0x00, 0x06, b'i', b'a', b'm', b'a', b'z', b'y',
        0x00, 0x06, 0x01, 0x02, 0x03, 0x04, 0x05, 0x06,
    ];
    let connect = Connect::from_buf(&mut written(connect_bytes)).unwrap();
    let mut out = Vec::new();
    let _ = connect.to_buf(&mut out);
    assert_eq!(out, connect_bytes.to_vec());
    assert_eq!(Packet::parse(&mut written(&out)).unwrap(), Packet::Connect(connect));

    let publish_bytes = &[
        0b0011_1101u8, 14, 0x00, 0x03, b'c', b'a', b't', 0x00, 0x10, 6, 0x08, 0x00, 0x03, b'c', b'a', b't',
    ];
    let publish = Publish::from_buf(&mut written(publish_bytes)).unwrap();
    let mut out = Vec::new();
    let _ = publish.to_buf(&mut out);
    assert_eq!(Packet::parse(&mut written(&out)).unwrap(), Packet::Publish(publish));

    let subscribe_bytes = &[
        0b1000_0010u8, 17, 0x00, 0x10, 2, 0x0B, 0x02, 0x00, 0x03, b'a', b'/', b'b', 0x01, 0x00, 0x03, b'c', b'/',
        b'd', 0x02,
    ];
    let subscribe = Subscribe::from_buf(&mut written(subscribe_bytes)).unwrap();
    let mut out = Vec::new();
    let _ = subscribe.to_buf(&mut out);
    assert_eq!(out, subscribe_bytes.to_vec());
    assert_eq!(Packet::parse(&mut written(&out)).unwrap(), Packet::Subscribe(subscribe));

    let unsubscribe_bytes = &[
        0b1010_0010u8, 11, 0x00, 0x10, 0, 0x00, 0x03, b'a', b'/', b'b', 0x00, 0x01, b'c',
    ];
    let unsubscribe = UnSubscribe::from_buf(&mut written(unsubscribe_bytes)).unwrap();
    let mut out = Vec::new();
    let _ = unsubscribe.to_buf(&mut out);
    assert_eq!(out, unsubscribe_bytes.to_vec());
    assert_eq!(Packet::parse(&mut written(&out)).unwrap(), Packet::UnSubscribe(unsubscribe));
}

#[test]
fn codec_write_packet_dispatches() {
    let connect_bytes = &[
        0b0001_0000u8, 13, 0x00, 0x04, b'M', b'Q', b'T', b'T', 0x05, 0b0000_0010, 0x00, 0x10, 0x00, 0x00, 0x00,
    ];
    let connect = Packet::parse(&mut written(connect_bytes)).unwrap();
    let mut out = Vec::new();
    write_packet(&connect, &mut out);
    assert_eq!(out, connect_bytes.to_vec());
    // what is written reads back
    assert_eq!(Packet::parse(&mut written(&out)).unwrap(), connect);
    let mut out = Vec::new();
    write_packet(&Packet::PingReq(PingReq::default()), &mut out);
    let mut expected = Vec::new();
    let _ = PingReq::default().to_buf(&mut expected);
    assert_eq!(out, expected);
    let disconnect_bytes = &[0b1110_0000u8, 7, 0x00, 5, 0x1F, 0x00, 0x02, b'I', b'a'];
    let disconnect = Packet::parse(&mut written(disconnect_bytes)).unwrap();
    let mut out = vec![9u8];
    write_packet(&disconnect, &mut out);
    assert_eq!(out[0], 9);
    assert_eq!(&out[1..], &disconnect_bytes[..]);
}
