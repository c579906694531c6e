use chat_relay::{
    annotate, ingest, local_address, remote_address, run, DecodeError, InboundMessage, PeerAddress,
    PeerRegistry, ReceiveError, Relay, RECEIVE_BUFFER_LEN,
};

fn peer(port: u16) -> PeerAddress {
    PeerAddress::new(127, 0, 0, 1, port)
}

fn message(text: &str, port: u16) -> InboundMessage {
    InboundMessage { payload: text.as_bytes().to_vec(), source: peer(port) }
}

#[test]
fn address_text_is_dotted_decimal_with_port() {
    assert_eq!(peer(9001).to_text(), "127.0.0.1:9001");
    assert_eq!(PeerAddress::new(0, 0, 0, 0, 0).to_text(), "0.0.0.0:0");
    assert_eq!(PeerAddress::new(255, 255, 255, 255, 65535).to_text(), "255.255.255.255:65535");
    assert_eq!(PeerAddress::new(10, 20, 100, 9, 80).to_text(), "10.20.100.9:80");
}

#[test]
fn registry_adds_each_peer_once_in_order() {
    let mut r = PeerRegistry::new();
    assert_eq!(r.len(), 0);
    assert!(r.add(peer(2)));
    assert!(r.add(peer(1)));
    assert!(!r.add(peer(2)));
    assert!(r.contains(&peer(1)));
    assert!(!r.contains(&peer(3)));
    assert_eq!(r.len(), 2);
    assert_eq!(r.get(0), peer(2));
    assert_eq!(r.to_vec(), vec![peer(2), peer(1)]);
}

#[test]
fn scenario_two_clients() {
    let mut relay = Relay::new();
    let a = relay.dispatch(&message("hi", 9001)).unwrap();
    assert_eq!(a.datagram, b"FROM: 127.0.0.1:9001 MESSAGE: hi".to_vec());
    assert_eq!(a.destinations, vec![peer(9001)]);
    let b = relay.dispatch(&message("yo", 9002)).unwrap();
    assert_eq!(b.datagram, b"FROM: 127.0.0.1:9002 MESSAGE: yo".to_vec());
    assert_eq!(b.destinations, vec![peer(9001), peer(9002)]);
}

#[test]
fn distinct_senders_registered_in_first_seen_order() {
    let mut relay = Relay::new();
    for port in [9005u16, 9001, 9003, 9002] {
        relay.dispatch(&message("x", port)).unwrap();
    }
    assert_eq!(relay.registry().to_vec(), vec![peer(9005), peer(9001), peer(9003), peer(9002)]);
}

#[test]
fn broadcast_reaches_earlier_peers_then_sender() {
    let mut relay = Relay::new();
    relay.dispatch(&message("one", 1)).unwrap();
    relay.dispatch(&message("two", 2)).unwrap();
    let b = relay.dispatch(&message("three", 3)).unwrap();
    assert_eq!(b.destinations, vec![peer(1), peer(2), peer(3)]);
    assert_eq!(b.datagram, b"FROM: 127.0.0.1:3 MESSAGE: three".to_vec());
}

#[test]
fn repeated_sender_registered_once() {
    let mut relay = Relay::new();
    for _ in 0..5 {
        let b = relay.dispatch(&message("again", 7000)).unwrap();
        assert_eq!(b.destinations, vec![peer(7000)]);
    }
    relay.dispatch(&message("other", 7001)).unwrap();
    let b = relay.dispatch(&message("again", 7000)).unwrap();
    assert_eq!(b.destinations, vec![peer(7000), peer(7001)]);
    assert_eq!(relay.registry().len(), 2);
}

#[test]
fn message_text_relayed_unchanged() {
    let mut relay = Relay::new();
    let b = relay.dispatch(&message("  spaced  héllo ✓\n", 4000)).unwrap();
    let text = String::from_utf8(b.datagram).unwrap();
    assert_eq!(text, "FROM: 127.0.0.1:4000 MESSAGE:   spaced  héllo ✓\n");
}

#[test]
fn empty_message_is_relayed() {
    let mut relay = Relay::new();
    let b = relay.dispatch(&message("", 5)).unwrap();
    assert_eq!(b.datagram, b"FROM: 127.0.0.1:5 MESSAGE: ".to_vec());
}

#[test]
fn malformed_payload_is_a_decode_error_and_registers_nobody() {
    let mut relay = Relay::new();
    let bad = InboundMessage { payload: vec![0x66, 0xff, 0x66], source: peer(1) };
    assert!(matches!(relay.dispatch(&bad), Err(DecodeError)));
    assert_eq!(relay.registry().len(), 0);
    let overlong = InboundMessage { payload: vec![0xc0, 0xaf], source: peer(1) };
    assert!(relay.dispatch(&overlong).is_err());
    let surrogate = InboundMessage { payload: vec![0xed, 0xa0, 0x80], source: peer(1) };
    assert!(relay.dispatch(&surrogate).is_err());
    assert_eq!(relay.registry().len(), 0);
}

#[test]
fn run_dispatches_a_batch_in_order() {
    let mut relay = Relay::new();
    let batch = vec![
        message("a", 1),
        InboundMessage { payload: vec![0xff], source: peer(9) },
        message("b", 2),
        message("c", 1),
    ];
    let results = run(&mut relay, &batch);
    assert_eq!(results.len(), 4);
    let first = results[0].as_ref().unwrap();
    assert_eq!(first.destinations, vec![peer(1)]);
    assert!(results[1].is_err());
    let third = results[2].as_ref().unwrap();
    assert_eq!(third.destinations, vec![peer(1), peer(2)]);
    assert_eq!(third.datagram, b"FROM: 127.0.0.1:2 MESSAGE: b".to_vec());
    let fourth = results[3].as_ref().unwrap();
    assert_eq!(fourth.destinations, vec![peer(1), peer(2)]);
    assert_eq!(relay.registry().to_vec(), vec![peer(1), peer(2)]);
}

#[test]
fn ingest_takes_the_received_bytes() {
    let mut buf = [0u8; RECEIVE_BUFFER_LEN];
    buf[..5].copy_from_slice(b"hello");
    let m = ingest(&buf, Ok((5, peer(9001)))).unwrap();
    assert_eq!(m.payload, b"hello".to_vec());
    assert_eq!(m.source, peer(9001));
    let full = ingest(&buf, Ok((RECEIVE_BUFFER_LEN, peer(1)))).unwrap();
    assert_eq!(full.payload.len(), RECEIVE_BUFFER_LEN);
}

#[test]
fn ingest_timeout_forwards_nothing() {
    let buf = [7u8; 16];
    assert!(ingest(&buf, Err(ReceiveError::TimedOut)).is_none());
    assert!(ingest(&buf, Err(ReceiveError::Io)).is_none());
}

#[test]
fn annotate_formats_sender_and_text() {
    assert_eq!(annotate(&peer(9001), "hi"), "FROM: 127.0.0.1:9001 MESSAGE: hi");
    assert_eq!(
        annotate(&PeerAddress::new(192, 168, 1, 20, 443), "ok"),
        "FROM: 192.168.1.20:443 MESSAGE: ok"
    );
}

#[test]
fn local_address_trims_port_text() {
    assert_eq!(local_address("9000\n"), "127.0.0.1:9000");
    assert_eq!(local_address(" \t9001\r\n"), "127.0.0.1:9001");
    assert_eq!(local_address("\u{3000}9002\u{a0}"), "127.0.0.1:9002");
    assert_eq!(local_address(""), "127.0.0.1:");
}

#[test]
fn remote_address_trims_text() {
    assert_eq!(remote_address("  127.0.0.1:9000 \n"), "127.0.0.1:9000");
    assert_eq!(remote_address("127.0.0.1:9000"), "127.0.0.1:9000");
    assert_eq!(remote_address(" \u{2003} "), "");
}
