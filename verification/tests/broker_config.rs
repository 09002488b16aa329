use bytes::{BufMut, BytesMut};
use mqtt::broker::{idle_disconnect, ChannelContext, Config, DEFAULT_PORT, IDLE_TIMEOUT_SECS};
use mqtt::codec::connack::ConnAck;
use mqtt::codec::packet::Packet;
use mqtt::codec::pingresp::PingResp;
use mqtt::codec::FromToBuf;

fn parse(bytes: &[u8]) -> Packet {
    let mut buf = BytesMut::with_capacity(64);
    buf.put_slice(bytes);
    Packet::parse(&mut buf).unwrap()
}

#[test]
fn broker_defaults() {
    assert_eq!(DEFAULT_PORT, "8888");
    assert_eq!(DEFAULT_PORT.parse::<u16>().unwrap(), 8888);
    assert_eq!(ChannelContext::default().keep_alive, 0);
    let c = Config { host: "127.0.0.1".to_string(), port: 8888 };
    assert_eq!(format!("{}:{}", c.host, c.port), "127.0.0.1:8888");
    assert_eq!(IDLE_TIMEOUT_SECS, 3);
}

#[test]
fn broker_answers_packets() {
    let mut context = ChannelContext::default();
    // CONNECT with keep alive 16
    let connect = parse(&[
        0b0001_0000u8, 13, 0x00, 0x04, b'M', b'Q', b'T', b'T', 0x05, 0b0000_0010, 0x00, 0x10, 0x00, 0x00, 0x00,
    ]);
    assert_eq!(context.handle(&connect), Some(Packet::ConnAck(ConnAck::default())));
    assert_eq!(context.keep_alive, 16);
    // a keep alive of zero leaves it
    let connect0 = parse(&[
        0b0001_0000u8, 13, 0x00, 0x04, b'M', b'Q', b'T', b'T', 0x05, 0b0000_0010, 0x00, 0x00, 0x00, 0x00, 0x00,
    ]);
    assert!(context.handle(&connect0).is_some());
    assert_eq!(context.keep_alive, 16);
    assert_eq!(context.handle(&parse(&[0b1100_0000, 0])), Some(Packet::PingResp(PingResp::default())));
    let disconnect = parse(&[0b1110_0000, 2, 0x00, 0x00]);
    assert_eq!(context.handle(&disconnect), None);
    assert_eq!(context.keep_alive, 16);
}

#[test]
fn broker_idle_disconnect() {
    let mut out = Vec::new();
    match idle_disconnect() {
        Packet::Disconnect(d) => {
            let _ = d.to_buf(&mut out);
        }
        other => panic!("expected a DISCONNECT, got {:?}", other),
    }
    // reason code 0x8D: keep alive timeout
    assert_eq!(out, vec![0b1110_0000, 2, 0x8D, 0]);
}
