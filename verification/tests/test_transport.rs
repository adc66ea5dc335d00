use iroh::addr::EndpointId;
use iroh::test_transport::{
    parse_checked_custom_addr, to_custom_addr, try_parse_custom_addr, CustomAddr, RecvPoll, RecvSlot,
    TestNetwork, TestSender, Transmit, TransportError, CHANNEL_CAPACITY, TEST_TRANSPORT_ID,
};
use std::task::{Context, Waker};

/// The public key of the curve's base point, and that of its identity.
fn key_bytes(first: u8) -> Vec<u8> {
    let mut bytes = vec![0x66u8; 32];
    bytes[0] = 0x58;
    if first == 1 {
        bytes = vec![0u8; 32];
        bytes[0] = 1;
    }
    bytes
}

fn endpoint(which: u8) -> EndpointId {
    let addr = CustomAddr { id: TEST_TRANSPORT_ID, data: key_bytes(which) };
    try_parse_custom_addr(&addr).unwrap()
}

/// Bytes that are not the encoding of a point of the curve.
fn no_key() -> Vec<u8> {
    let mut bytes = vec![0u8; 32];
    bytes[0] = 2;
    bytes
}

fn slots(n: usize, size: usize) -> Vec<RecvSlot> {
    (0..n)
        .map(|_| RecvSlot { buf: vec![0xee; size], len: 0, stride: 0, from: None, to: None })
        .collect()
}

fn transmit(contents: &[u8], segment_size: Option<usize>) -> Transmit {
    Transmit { contents: contents.to_vec(), segment_size }
}

#[test]
fn address_is_the_key() {
    let id = endpoint(0);
    assert_eq!(id.as_bytes(), key_bytes(0));
    assert_eq!(EndpointId::from_bytes(&key_bytes(0)), Some(id));
    assert_eq!(EndpointId::from_bytes(&key_bytes(1)), Some(endpoint(1)));
    assert_eq!(EndpointId::from_bytes(&no_key()), None);
    assert_eq!(EndpointId::from_bytes(&key_bytes(0)[..31]), None);
    assert_eq!(EndpointId::from_bytes(&[]), None);
    let addr = to_custom_addr(id);
    assert_eq!(addr.id, 0x20);
    assert_eq!(addr.data, key_bytes(0));
    assert_eq!(try_parse_custom_addr(&addr), Ok(id));
    assert_ne!(endpoint(1), id);
}

#[test]
fn bad_addresses_are_refused() {
    let other = CustomAddr { id: 0x21, data: key_bytes(0) };
    assert_eq!(try_parse_custom_addr(&other), Err(TransportError::UnexpectedTransportId));
    let short = CustomAddr { id: TEST_TRANSPORT_ID, data: vec![1; 31] };
    assert_eq!(try_parse_custom_addr(&short), Err(TransportError::WrongKeyLength));
    let long = CustomAddr { id: TEST_TRANSPORT_ID, data: vec![1; 33] };
    assert_eq!(try_parse_custom_addr(&long), Err(TransportError::WrongKeyLength));
    let bad = CustomAddr { id: TEST_TRANSPORT_ID, data: no_key() };
    assert_eq!(try_parse_custom_addr(&bad), Err(TransportError::KeyParse));
    assert_eq!(parse_checked_custom_addr(&bad, Some(endpoint(1))), Ok(endpoint(1)));
    assert_eq!(parse_checked_custom_addr(&to_custom_addr(endpoint(0)), None), Err(TransportError::KeyParse));
}

#[test]
fn errors_say_what_is_wrong() {
    assert_eq!(TransportError::AlreadyExists.message(), "endpoint ID already exists in network");
    assert_eq!(TransportError::UnexpectedTransportId.message(), "unexpected transport id");
    assert_eq!(TransportError::WrongKeyLength.message(), "wrong key length");
    assert_eq!(TransportError::KeyParse.message(), "KeyParseError");
    assert_eq!(TransportError::UnknownEndpoint.message(), "Unknown endpoint");
    assert_eq!(TransportError::ChannelClosed.message(), "channel closed");
}

#[test]
fn endpoint_joins_the_network_once() {
    let mut network = TestNetwork::new();
    assert!(network.address_lookup().resolve(endpoint(0)).is_none());
    let transport = network.create_transport(endpoint(0)).unwrap();
    assert_eq!(transport.id, endpoint(0));
    assert_eq!(transport.local_addr.data, key_bytes(0));
    let found = network.address_lookup().resolve(endpoint(0)).unwrap();
    assert_eq!((found.addr.id, found.addr.data), (TEST_TRANSPORT_ID, key_bytes(0)));
    assert_eq!((found.endpoint_id, found.provenance), (endpoint(0), "test discovery"));
    assert!(matches!(
        network.create_transport(endpoint(0)),
        Err(TransportError::AlreadyExists)
    ));
    assert!(network.create_transport(endpoint(1)).is_ok());
}

#[test]
fn contents_are_split_into_segments() {
    let sender = TestSender { id: endpoint(0) };
    let lens = |t: &Transmit| sender.split(t).iter().map(|p| p.data.len()).collect::<Vec<_>>();
    assert_eq!(lens(&transmit(&[1; 10], Some(4))), vec![4, 4, 2]);
    assert_eq!(lens(&transmit(&[1; 8], Some(4))), vec![4, 4]);
    assert_eq!(lens(&transmit(&[1; 3], Some(4))), vec![3]);
    assert_eq!(lens(&transmit(&[1; 7], None)), vec![7]);
    assert_eq!(lens(&transmit(&[], Some(4))), Vec::<usize>::new());
    let packets = sender.split(&transmit(b"abcde", Some(2)));
    let data: Vec<&[u8]> = packets.iter().map(|p| p.data.as_ref()).collect();
    assert_eq!(data, vec![&b"ab"[..], &b"cd"[..], &b"e"[..]]);
    assert_eq!(packets[1].from.data, key_bytes(0));
}

#[test]
fn transmission_arrives_at_the_other_end() {
    let mut network = TestNetwork::new();
    let a = network.create_transport(endpoint(0)).unwrap();
    let b = network.create_transport(endpoint(1)).unwrap();
    let sender = a.create_sender();
    assert!(sender.is_valid_send_addr(&to_custom_addr(b.id)));
    assert!(!sender.is_valid_send_addr(&CustomAddr { id: 1, data: vec![] }));
    let mut cx = Context::from_waker(Waker::noop());
    let mut room = slots(4, 3);
    assert_eq!(b.poll_recv(&mut network, &mut cx, &mut room), RecvPoll::Pending);
    let sent = sender.poll_send(&mut network, &to_custom_addr(b.id), &transmit(b"hello", Some(3)));
    assert_eq!(sent, Ok(()));
    assert_eq!(a.poll_recv(&mut network, &mut cx, &mut room), RecvPoll::Pending);
    assert_eq!(b.poll_recv(&mut network, &mut cx, &mut room), RecvPoll::Ready(2));
    assert_eq!(room[0].buf, b"hel");
    assert_eq!((room[1].len, room[1].stride), (2, 2));
    assert_eq!(&room[1].buf[..2], b"lo");
    assert_eq!(room[1].buf[2], 0xee);
    assert_eq!(room[1].from.as_ref().unwrap().data, key_bytes(0));
    assert_eq!(room[1].to.as_ref().unwrap().data, key_bytes(1));
    assert!(room[2].from.is_none());
    assert_eq!(b.poll_recv(&mut network, &mut cx, &mut room), RecvPoll::Pending);
}

#[test]
fn what_comes_out_of_the_channel_is_received() {
    let mut network = TestNetwork::new();
    let a = network.create_transport(endpoint(0)).unwrap();
    let split = |contents: &[u8]| TestSender { id: endpoint(1) }.split(&transmit(contents, Some(2)));
    let mut room = slots(3, 1);
    assert_eq!(a.receive(None, &mut room), RecvPoll::Pending);
    assert_eq!(a.receive(Some(Vec::new()), &mut room), RecvPoll::Closed);
    assert_eq!(a.receive(Some(split(b"abc")), &mut room), RecvPoll::Pending);
    assert!(room.iter().all(|slot| slot.buf[0] == 0xee && slot.from.is_none()));
    let mut room = slots(3, 2);
    assert_eq!(a.receive(Some(split(b"abc")), &mut room), RecvPoll::Ready(2));
    assert_eq!((&room[0].buf[..], room[1].buf[0], room[1].len), (&b"ab"[..], b'c', 1));
    assert_eq!(room[1].from.as_ref().unwrap().data, key_bytes(1));
    assert_eq!(room[1].to.as_ref().unwrap().data, key_bytes(0));
    assert!(room[2].from.is_none());
}

#[test]
fn packets_are_taken_as_there_are_slots() {
    let mut network = TestNetwork::new();
    let a = network.create_transport(endpoint(0)).unwrap();
    let mut cx = Context::from_waker(Waker::noop());
    let to = to_custom_addr(a.id);
    a.create_sender().poll_send(&mut network, &to, &transmit(b"abc", Some(1))).unwrap();
    assert_eq!(a.poll_recv(&mut network, &mut cx, &mut Vec::new()), RecvPoll::Ready(0));
    let mut room = slots(2, 1);
    assert_eq!(a.poll_recv(&mut network, &mut cx, &mut room), RecvPoll::Ready(2));
    assert_eq!((room[0].buf[0], room[1].buf[0]), (b'a', b'b'));
    assert_eq!(a.poll_recv(&mut network, &mut cx, &mut room), RecvPoll::Ready(1));
    assert_eq!(room[0].buf[0], b'c');
}

#[test]
fn what_does_not_fit_is_lost_with_what_follows() {
    let mut network = TestNetwork::new();
    let a = network.create_transport(endpoint(0)).unwrap();
    let mut cx = Context::from_waker(Waker::noop());
    let to = to_custom_addr(a.id);
    let sender = a.create_sender();
    sender.poll_send(&mut network, &to, &transmit(b"x", None)).unwrap();
    sender.poll_send(&mut network, &to, &transmit(b"long", None)).unwrap();
    sender.poll_send(&mut network, &to, &transmit(b"y", None)).unwrap();
    let mut room = slots(3, 2);
    assert_eq!(a.poll_recv(&mut network, &mut cx, &mut room), RecvPoll::Ready(1));
    assert_eq!(room[0].buf[0], b'x');
    assert_eq!(a.poll_recv(&mut network, &mut cx, &mut room), RecvPoll::Pending);
}

#[test]
fn blackhole_reports_success_and_delivers_nothing() {
    let mut network = TestNetwork::new();
    let a = network.create_transport(endpoint(0)).unwrap();
    let sender = a.create_sender();
    let to = to_custom_addr(a.id);
    let mut cx = Context::from_waker(Waker::noop());
    network.set_blackhole(true);
    assert_eq!(sender.poll_send(&mut network, &to, &transmit(b"lost", None)), Ok(()));
    // Even an endpoint that is not there seems to be reached, but not what is
    // no address.
    let nobody = to_custom_addr(endpoint(1));
    assert_eq!(sender.poll_send(&mut network, &nobody, &transmit(b"lost", None)), Ok(()));
    let bad = CustomAddr { id: TEST_TRANSPORT_ID, data: no_key() };
    assert_eq!(
        sender.poll_send(&mut network, &bad, &transmit(b"lost", None)),
        Err(TransportError::KeyParse)
    );
    assert_eq!(a.poll_recv(&mut network, &mut cx, &mut slots(1, 9)), RecvPoll::Pending);
    network.set_blackhole(false);
    assert_eq!(sender.poll_send(&mut network, &to, &transmit(b"there", None)), Ok(()));
    assert_eq!(a.poll_recv(&mut network, &mut cx, &mut slots(1, 9)), RecvPoll::Ready(1));
}

#[test]
fn unknown_endpoint_is_refused() {
    let mut network = TestNetwork::new();
    let a = network.create_transport(endpoint(0)).unwrap();
    let nobody = to_custom_addr(endpoint(1));
    assert_eq!(
        a.create_sender().poll_send(&mut network, &nobody, &transmit(b"x", None)),
        Err(TransportError::UnknownEndpoint)
    );
    let empty = a.create_sender().send_checked(&mut network, &nobody, None, Vec::new());
    assert_eq!(empty, Err(TransportError::KeyParse));
}

#[test]
fn full_channel_drops_what_finds_no_room() {
    let mut network = TestNetwork::new();
    let a = network.create_transport(endpoint(0)).unwrap();
    let to = to_custom_addr(a.id);
    let contents: Vec<u8> = (0..CHANNEL_CAPACITY + 10).map(|i| (i % 251) as u8).collect();
    let sent = a.create_sender().poll_send(&mut network, &to, &transmit(&contents, Some(1)));
    assert_eq!(sent, Ok(()));
    let mut cx = Context::from_waker(Waker::noop());
    let mut room = slots(CHANNEL_CAPACITY + 10, 1);
    assert_eq!(
        a.poll_recv(&mut network, &mut cx, &mut room),
        RecvPoll::Ready(CHANNEL_CAPACITY)
    );
    assert!(room[..CHANNEL_CAPACITY].iter().zip(&contents).all(|(slot, b)| slot.buf[0] == *b));
    assert!(room[CHANNEL_CAPACITY].from.is_none());
}
