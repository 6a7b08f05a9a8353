use bytes::Bytes;
use zks_tunnel::stream_manager::{StreamManager, StreamStatus};
use zks_tunnel::tunnel::{Dispatch, RelayAction, RelayEvent, RelayTask, TunnelClient};
use zks_tunnel::tunnel_session::{SessionAction, TunnelSession};
use zks_tunnel::TunnelMessage;

#[test]
fn stream_identifiers_count_up_from_one() {
    let mut client = TunnelClient::new();
    for expected in 1..=5u32 {
        let (id, msg) = client.open_stream("example.com", 443).unwrap();
        assert_eq!(id, expected);
        match msg {
            TunnelMessage::Connect { stream_id, host, port } => {
                assert_eq!(stream_id, expected);
                assert_eq!(host, "example.com");
                assert_eq!(port, 443);
            }
            other => panic!("expected CONNECT, got {:?}", other),
        }
        assert_eq!(client.stream_status(id), StreamStatus::Opening);
    }
    assert_eq!(client.active_stream_count(), 5);
}

#[test]
fn identifiers_are_not_reused_after_close() {
    let mut client = TunnelClient::new();
    let (first, _) = client.open_stream("a.example", 1).unwrap();
    client.close_local(first);
    let (second, _) = client.open_stream("b.example", 2).unwrap();
    assert_eq!(first, 1);
    assert_eq!(second, 2);
}

#[test]
fn data_is_delivered_to_a_live_stream_and_opens_it() {
    let mut client = TunnelClient::new();
    let (id, _) = client.open_stream("example.com", 80).unwrap();
    let data = TunnelMessage::Data { stream_id: id, payload: Bytes::from("hello") }.encode();
    match client.dispatch(&data) {
        Dispatch::Deliver { stream_id, payload } => {
            assert_eq!(stream_id, id);
            assert_eq!(payload, Bytes::from("hello"));
        }
        other => panic!("expected a delivery, got {:?}", other),
    }
    assert_eq!(client.stream_status(id), StreamStatus::Open);
}

#[test]
fn data_for_an_unknown_stream_is_dropped() {
    let mut client = TunnelClient::new();
    let data = TunnelMessage::Data { stream_id: 9, payload: Bytes::from("x") }.encode();
    assert!(matches!(client.dispatch(&data), Dispatch::Nothing));
    assert_eq!(client.active_stream_count(), 0);
}

#[test]
fn no_data_is_delivered_after_close_or_error() {
    let mut client = TunnelClient::new();
    let (a, _) = client.open_stream("a.example", 80).unwrap();
    let (b, _) = client.open_stream("b.example", 80).unwrap();
    let close = TunnelMessage::Close { stream_id: a }.encode();
    assert!(matches!(
        client.dispatch(&close),
        Dispatch::CloseInbox { stream_id } if stream_id == a
    ));
    let error = TunnelMessage::ErrorReply { stream_id: b, code: 502, message: "x".to_string() };
    assert!(matches!(
        client.dispatch(&error.encode()),
        Dispatch::CloseInbox { stream_id } if stream_id == b
    ));
    for id in [a, b] {
        let data = TunnelMessage::Data { stream_id: id, payload: Bytes::from("late") }.encode();
        assert!(matches!(client.dispatch(&data), Dispatch::Nothing));
    }
    assert_eq!(client.active_stream_count(), 0);
}

#[test]
fn duplicate_close_is_a_no_op() {
    let mut client = TunnelClient::new();
    let (id, _) = client.open_stream("a.example", 80).unwrap();
    let close = TunnelMessage::Close { stream_id: id }.encode();
    assert!(matches!(client.dispatch(&close), Dispatch::CloseInbox { .. }));
    assert!(matches!(client.dispatch(&close), Dispatch::Nothing));
    assert!(matches!(
        client.close_local(id),
        TunnelMessage::Close { stream_id } if stream_id == id
    ));
    assert_eq!(client.active_stream_count(), 0);
}

#[test]
fn ping_is_answered_inline_and_the_table_stays() {
    let mut client = TunnelClient::new();
    let (id, _) = client.open_stream("a.example", 80).unwrap();
    assert!(matches!(
        client.dispatch(&TunnelMessage::Ping.encode()),
        Dispatch::Reply(TunnelMessage::Pong)
    ));
    assert!(matches!(client.dispatch(&TunnelMessage::Pong.encode()), Dispatch::Nothing));
    assert!(matches!(client.ping(), TunnelMessage::Ping));
    assert_eq!(client.active_stream_count(), 1);
    assert_eq!(client.stream_status(id), StreamStatus::Opening);
}

#[test]
fn messages_that_do_not_decode_are_dropped() {
    let mut client = TunnelClient::new();
    client.open_stream("a.example", 80).unwrap();
    assert!(matches!(client.dispatch(&[]), Dispatch::Nothing));
    assert!(matches!(client.dispatch(&[0x09]), Dispatch::Nothing));
    assert!(matches!(client.dispatch(&[0x02, 0, 0]), Dispatch::Nothing));
    assert_eq!(client.active_stream_count(), 1);
}

#[test]
fn relay_wraps_local_bytes_as_data_and_closes_once() {
    let mut client = TunnelClient::new();
    let (id, _) = client.open_stream("a.example", 80).unwrap();
    let mut task = RelayTask::new(id);
    assert_eq!(task.id(), id);
    match client.relay(&mut task, RelayEvent::LocalRead(Ok(Bytes::from("abc")))) {
        RelayAction::Send(TunnelMessage::Data { stream_id, payload }) => {
            assert_eq!(stream_id, id);
            assert_eq!(payload, Bytes::from("abc"));
        }
        other => panic!("expected DATA, got {:?}", other),
    }
    assert_eq!(client.stream_status(id), StreamStatus::Open);
    match client.relay(&mut task, RelayEvent::Inbox(Some(Bytes::from("down")))) {
        RelayAction::WriteLocal(payload) => assert_eq!(payload, Bytes::from("down")),
        other => panic!("expected a local write, got {:?}", other),
    }
    // Local end of stream: CLOSE, and the stream is gone.
    match client.relay(&mut task, RelayEvent::LocalRead(Ok(Bytes::new()))) {
        RelayAction::Finish(TunnelMessage::Close { stream_id }) => assert_eq!(stream_id, id),
        other => panic!("expected CLOSE, got {:?}", other),
    }
    assert!(task.is_finished());
    assert_eq!(client.active_stream_count(), 0);
    // The other direction ends too: nothing more is asked for.
    assert!(matches!(client.relay(&mut task, RelayEvent::Inbox(None)), RelayAction::Idle));
    assert!(matches!(
        client.relay(&mut task, RelayEvent::LocalRead(Ok(Bytes::from("late")))),
        RelayAction::Idle
    ));
}

#[test]
fn every_failure_ends_the_relay_with_close() {
    let events = vec![
        RelayEvent::LocalRead(Err("reset".to_string())),
        RelayEvent::UpstreamClosed,
        RelayEvent::Inbox(None),
        RelayEvent::LocalWriteFailed,
    ];
    for event in events {
        let mut client = TunnelClient::new();
        let (id, _) = client.open_stream("a.example", 80).unwrap();
        let mut task = RelayTask::new(id);
        assert!(matches!(
            client.relay(&mut task, event),
            RelayAction::Finish(TunnelMessage::Close { stream_id }) if stream_id == id
        ));
        assert!(task.is_finished());
        assert_eq!(client.active_stream_count(), 0);
    }
}

#[test]
fn losing_the_channel_releases_every_stream() {
    let mut client = TunnelClient::new();
    client.open_stream("a.example", 80).unwrap();
    client.open_stream("b.example", 80).unwrap();
    client.open_stream("c.example", 80).unwrap();
    client.close_local(2);
    let released = client.transport_closed();
    let mut ids = Vec::new();
    for frame in released {
        match frame {
            TunnelMessage::ErrorReply { stream_id, code, message } => {
                assert_eq!(code, 0);
                assert_eq!(message, "Transport closed");
                ids.push(stream_id);
            }
            other => panic!("expected an error of code 0, got {:?}", other),
        }
    }
    ids.sort();
    assert_eq!(ids, vec![1, 3]);
    assert_eq!(client.active_stream_count(), 0);
    assert!(client.transport_closed().is_empty());
    let (id, _) = client.open_stream("d.example", 80).unwrap();
    assert_eq!(id, 4);
}

#[test]
fn both_ends_agree_on_the_live_streams_when_nothing_is_in_flight() {
    let mut client = TunnelClient::new();
    let mut relay = TunnelSession::new();
    // Three streams are opened; every frame reaches the relay and every dial succeeds.
    let mut ids = Vec::new();
    for host in ["a.example", "b.example", "c.example"] {
        let (id, connect) = client.open_stream(host, 443).unwrap();
        match relay.handle_binary_message(&connect.encode()) {
            SessionAction::Dial { stream_id, .. } => {
                assert!(matches!(
                    relay.connect_finished(stream_id, Ok(())),
                    SessionAction::StartReader { .. }
                ));
            }
            other => panic!("expected a dial, got {:?}", other),
        }
        ids.push(id);
    }
    for id in &ids {
        assert!(relay.is_active(*id));
    }
    assert_eq!(client.active_stream_count(), relay.active_stream_count());
    // The client closes one, the origin of another ends.
    let close = client.close_local(ids[0]);
    relay.handle_binary_message(&close.encode());
    match relay.origin_read(ids[1], Ok(Bytes::new())) {
        SessionAction::Reply(frame) => {
            client.dispatch(&frame.encode());
        }
        other => panic!("expected CLOSE, got {:?}", other),
    }
    assert_eq!(client.active_stream_count(), 1);
    assert_eq!(relay.active_stream_count(), 1);
    assert!(relay.is_active(ids[2]));
    assert_eq!(client.stream_status(ids[2]), StreamStatus::Opening);
    // A denied target: the relay answers with an error and the client forgets the stream.
    let (id, connect) = client.open_stream("127.0.0.1", 80).unwrap();
    match relay.handle_binary_message(&connect.encode()) {
        SessionAction::Reply(frame) => {
            assert!(matches!(client.dispatch(&frame.encode()), Dispatch::CloseInbox { .. }));
        }
        other => panic!("expected an error, got {:?}", other),
    }
    assert!(!relay.is_active(id));
    assert_eq!(client.stream_status(id), StreamStatus::Closed);
    assert_eq!(client.active_stream_count(), relay.active_stream_count());
}

#[test]
fn bytes_written_locally_reach_the_origin_in_order() {
    let mut client = TunnelClient::new();
    let mut relay = TunnelSession::new();
    let (id, connect) = client.open_stream("example.com", 80).unwrap();
    relay.handle_binary_message(&connect.encode());
    relay.connect_finished(id, Ok(()));
    let mut task = RelayTask::new(id);
    let chunks: Vec<&[u8]> = vec![b"GET / HTTP/1.1\r\n", b"Host: example.com\r\n", b"\r\n"];
    let mut written = Vec::new();
    let mut observed = Vec::new();
    for chunk in chunks {
        written.extend_from_slice(chunk);
        let event = RelayEvent::LocalRead(Ok(Bytes::copy_from_slice(chunk)));
        match client.relay(&mut task, event) {
            RelayAction::Send(frame) => match relay.handle_binary_message(&frame.encode()) {
                SessionAction::Write { stream_id, payload } => {
                    assert_eq!(stream_id, id);
                    observed.extend_from_slice(&payload);
                }
                other => panic!("expected a write, got {:?}", other),
            },
            other => panic!("expected DATA, got {:?}", other),
        }
    }
    assert_eq!(observed, written);
}

#[test]
fn the_table_registers_routes_and_forgets() {
    let mut table = StreamManager::new();
    assert_eq!(table.len(), 0);
    table.create_stream(7);
    assert!(table.contains(7));
    assert_eq!(table.status(7), Some(StreamStatus::Opening));
    assert!(table.send_to_stream(7));
    assert_eq!(table.status(7), Some(StreamStatus::Open));
    assert!(!table.send_to_stream(8));
    assert!(!table.contains(8));
    assert!(table.remove_stream(7));
    assert!(!table.remove_stream(7));
    assert_eq!(table.status(7), None);
    table.create_stream(1);
    table.create_stream(2);
    let mut ids = table.ids();
    ids.sort();
    assert_eq!(ids, vec![1, 2]);
    assert_eq!(table.clear(), 2);
    assert_eq!(table.len(), 0);
    assert!(table.ids().is_empty());
}

#[test]
fn test_reproduce_insufficient_data_error() {
    // A relay sends a malformed binary packet: a CONNECT tag and one byte more.
    println!("TEST: Sending malformed binary packet");
    let packet = vec![0x01, 0x02];

    let mut client = TunnelClient::new();
    let (id, _) = client.open_stream("example.com", 443).unwrap();
    assert!(matches!(
        TunnelMessage::decode(&packet),
        Err(zks_tunnel::ProtoError::InsufficientData)
    ));
    assert!(matches!(client.dispatch(&packet), Dispatch::Nothing));
    println!("TEST: Packet sent");

    // The packet is dropped and the stream is as it was.
    assert_eq!(client.active_stream_count(), 1);
    assert_eq!(client.stream_status(id), StreamStatus::Opening);
}
