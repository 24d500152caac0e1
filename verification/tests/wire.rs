use ockam::address::Address;
use ockam::bare;
use ockam::mailbox::LocalMessage;
use ockam::route::Route;
use ockam::transport;
use ockam::transport::SenderDirective;
use ockam::transport::TcpSendWorker;
use ockam::transport::TransportError;

fn route_of(names: &[&str]) -> Route {
    let mut builder = Route::new();
    for name in names {
        builder = builder.append(Address::from_string(name));
    }
    builder.build()
}

#[test]
fn encode_and_manually_decode_route() {
    let route = route_of(&["alice", "bob"]);
    let encoded = route.clone().encode();
    let decoded = Route::manual_decode(&encoded, &mut 0).unwrap();
    assert_eq!(route, decoded);
}

#[test]
fn decode_rejects_truncated_route() {
    let route = route_of(&["alice", "bob"]);
    let encoded = route.encode();
    for cut in 0..encoded.len() {
        let truncated: Vec<u8> = encoded[..cut].to_vec();
        assert!(Route::manual_decode(&truncated, &mut 0).is_none());
    }
}

#[test]
fn decode_leaves_trailing_bytes() {
    let route = route_of(&["1#alice", "bob"]);
    let mut bytes = route.encode();
    let encoded_len = bytes.len();
    bytes.push(0xAB);
    bytes.push(0xCD);
    let mut index = 0;
    let decoded = Route::manual_decode(&bytes, &mut index).unwrap();
    assert_eq!(decoded, route);
    assert_eq!(index, encoded_len);
}

#[test]
fn varint_round_trip() {
    for value in [0u64, 1, 127, 128, 300, 65535, u64::MAX] {
        let mut buffer: Vec<u8> = Vec::new();
        bare::write_variable_length_integer(&mut buffer, value);
        assert_eq!(buffer.len(), bare::size_of_variable_length(value));
        let mut index = 0;
        assert_eq!(
            bare::read_variable_length_integer(&buffer, &mut index),
            Some(value)
        );
        assert_eq!(index, buffer.len());
    }
}

#[test]
fn varint_encoding_is_exact() {
    let mut buffer: Vec<u8> = Vec::new();
    bare::write_variable_length_integer(&mut buffer, 300);
    assert_eq!(buffer, vec![0xAC, 0x02]);
}

#[test]
fn encoded_size_matches_encoding() {
    let route = route_of(&["1#alice", "bob", "carol"]);
    assert_eq!(route.encoded_size(), route.encode().len());
}

#[test]
fn frame_and_read_back() {
    let payload: Vec<u8> = vec![9, 8, 7, 6, 5];
    let framed = transport::frame_payload(&payload).unwrap();
    assert_eq!(framed[..4], [0, 0, 0, 5]);
    assert_eq!(&framed[4..], &payload[..]);
    let mut index = 0;
    let read = transport::read_frame(&framed, &mut index).unwrap();
    assert_eq!(read, payload);
    assert_eq!(index, framed.len());
}

#[test]
fn frame_rejects_oversized_payload() {
    let payload: Vec<u8> = vec![0; transport::MAX_MESSAGE_SIZE + 1];
    assert_eq!(
        transport::frame_payload(&payload),
        Err(TransportError::MessageLengthExceeded)
    );
}

#[test]
fn read_frame_rejects_truncation() {
    let payload: Vec<u8> = vec![1, 2, 3, 4];
    let framed = transport::frame_payload(&payload).unwrap();
    for cut in 0..framed.len() {
        let truncated: Vec<u8> = framed[..cut].to_vec();
        assert!(transport::read_frame(&truncated, &mut 0).is_none());
    }
}

#[test]
fn sender_worker_decisions() {
    let mut worker = TcpSendWorker::new(
        Address::from_string("tcp_sender"),
        Address::from_string("tcp_sender_internal"),
        Address::from_string("tcp_receiver"),
        Address::from_string("tcp_receiver_internal"),
    );
    assert_eq!(TcpSendWorker::protocol_version_frame(), vec![1]);

    // Two mailboxes: the public one, and the internal one reachable only
    // from the receiving half.
    let _mailboxes = worker.mailboxes();

    // An outgoing message loses this worker's own hop and gains a frame.
    let onward = route_of(&["tcp_sender", "1#far_end", "app"]);
    let ret = route_of(&["local_app"]);
    let message = LocalMessage::new(onward, ret, vec![5, 6]);
    let encoded: Vec<u8> = vec![0xAA, 0xBB, 0xCC];
    let (popped, framed) = worker.prepare_outgoing(message, &encoded).unwrap();
    assert_eq!(popped.onward_route().len(), 2);
    assert_eq!(framed[..4], [0, 0, 0, 3]);
    assert_eq!(&framed[4..], &encoded[..]);

    // A closed connection stops this worker but leaves the receiver to
    // stop itself.
    assert!(worker.shutdown_stops_receiver());
    let directive = worker.on_connection_closed();
    assert!(matches!(directive, SenderDirective::Stop));
    assert!(!worker.shutdown_stops_receiver());
}

#[test]
fn varint_rejects_non_canonical_and_truncated_forms() {
    // A continuation that carries nothing spells no value.
    let non_canonical: Vec<u8> = vec![0x80, 0x00];
    assert_eq!(bare::read_variable_length_integer(&non_canonical, &mut 0), None);
    // A buffer ending inside the integer spells no value either.
    let truncated: Vec<u8> = vec![0x80];
    assert_eq!(bare::read_variable_length_integer(&truncated, &mut 0), None);
}
