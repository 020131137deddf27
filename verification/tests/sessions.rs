use ardl_socket::protocol::FrameBuilder;
use ardl_socket::sockets::listener::{
    on_accept_response, AcceptStep, Delivery, ListenAction, ListenEvent, Listening, StreamRx,
};
use ardl_socket::sockets::{AcceptError, BindConfig};
use ardl_socket::utils::buf::{BufSlice, OwnedBufWtr};
use ardl_socket::utils::channel::SendOutcome;
use ardl_socket::utils::SocketAddr;
use std::time::{Duration, Instant};

const TIMEOUT: Duration = Duration::from_secs(300);

fn frame(id: u32, body: &[u8]) -> BufSlice {
    let mut wtr = OwnedBufWtr::new(1300);
    FrameBuilder { id }.build().append_to(&mut wtr).unwrap();
    wtr.append(body).unwrap();
    BufSlice::from_bytes(wtr.data().to_vec())
}

fn peer(port: u16) -> SocketAddr {
    SocketAddr::V4 {
        ip: 0x7f00_0001,
        port,
    }
}

fn accept(listening: &mut Listening) -> StreamRx {
    listening.on_accept_request().unwrap()
}

#[test]
fn default_bind_config() {
    let config = BindConfig::default();
    assert_eq!(config.mtu, 1300);
    assert_eq!(config.inactive_timeout, Duration::from_secs(300));
    assert_eq!(config.accept_queue_len_cap, 1280);
}

#[test]
fn nothing_to_accept_at_first() {
    let mut listening = Listening::new(8, TIMEOUT);
    assert!(listening.on_accept_request().is_none());
}

#[test]
fn first_frame_opens_a_session_and_waits_in_its_channel() {
    let mut listening = Listening::new(8, TIMEOUT);
    let delivery = listening.on_datagram(frame(5, b"hello"), peer(1), Instant::now());
    assert_eq!(delivery, Delivery::Opened);
    let mut session = accept(&mut listening);
    assert_eq!(session.id, 5);
    assert_eq!(session.remote_addr, peer(1));
    assert_eq!(session.input_rx.try_recv().unwrap().data(), b"hello");
    assert!(listening.on_accept_request().is_none());
}

#[test]
fn short_datagrams_are_ignored() {
    let mut listening = Listening::new(8, TIMEOUT);
    for len in 0..4 {
        let datagram = BufSlice::from_bytes(vec![0; len]);
        let delivery = listening.on_datagram(datagram, peer(1), Instant::now());
        assert_eq!(delivery, Delivery::Ignored);
    }
    assert!(listening.on_accept_request().is_none());
}

#[test]
fn pending_sessions_ignore_further_frames() {
    let mut listening = Listening::new(8, TIMEOUT);
    listening.on_datagram(frame(5, b"first"), peer(1), Instant::now());
    for from in [1, 2] {
        let delivery = listening.on_datagram(frame(5, b"second"), peer(from), Instant::now());
        assert_eq!(delivery, Delivery::Ignored);
    }
    let mut session = accept(&mut listening);
    assert_eq!(session.input_rx.try_recv().unwrap().data(), b"first");
    assert!(session.input_rx.try_recv().is_err());
    assert!(listening.on_accept_request().is_none());
}

#[test]
fn accepted_session_is_fed_until_its_channel_is_full() {
    let mut listening = Listening::new(8, TIMEOUT);
    let now = Instant::now();
    listening.on_datagram(frame(5, b"one"), peer(1), now);
    let mut session = accept(&mut listening);
    // The channel buffers one packet, and still holds the first.
    let delivery = listening.on_datagram(frame(5, b"two"), peer(1), now);
    assert_eq!(delivery, Delivery::Overflowed);
    assert_eq!(session.input_rx.try_recv().unwrap().data(), b"one");
    let delivery = listening.on_datagram(frame(5, b"three"), peer(1), now);
    assert_eq!(delivery, Delivery::Forwarded);
    assert_eq!(session.input_rx.try_recv().unwrap().data(), b"three");
}

#[test]
fn frames_from_another_address_do_not_reach_a_session() {
    let mut listening = Listening::new(8, TIMEOUT);
    let now = Instant::now();
    listening.on_datagram(frame(5, b"one"), peer(1), now);
    let mut session = accept(&mut listening);
    session.input_rx.try_recv().unwrap();
    let other_family = SocketAddr::V6 {
        ip: 1,
        port: 1,
        flowinfo: 0,
        scope_id: 0,
    };
    for from in [peer(2), other_family] {
        let delivery = listening.on_datagram(frame(5, b"replay"), from, now);
        assert_eq!(delivery, Delivery::Ignored);
    }
    assert!(session.input_rx.try_recv().is_err());
    let delivery = listening.on_datagram(frame(5, b"two"), peer(1), now);
    assert_eq!(delivery, Delivery::Forwarded);
}

#[test]
fn closed_session_is_opened_anew() {
    let mut listening = Listening::new(8, TIMEOUT);
    let now = Instant::now();
    listening.on_datagram(frame(5, b"one"), peer(1), now);
    drop(accept(&mut listening));
    let delivery = listening.on_datagram(frame(5, b"two"), peer(1), now);
    assert_eq!(delivery, Delivery::Opened);
    let mut session = accept(&mut listening);
    assert_eq!(session.id, 5);
    assert_eq!(session.input_rx.try_recv().unwrap().data(), b"two");
}

#[test]
fn closed_session_is_gone_even_if_the_queue_is_full() {
    let mut listening = Listening::new(1, TIMEOUT);
    let now = Instant::now();
    listening.on_datagram(frame(5, b"one"), peer(1), now);
    drop(accept(&mut listening));
    listening.on_datagram(frame(6, b"other"), peer(2), now);
    let delivery = listening.on_datagram(frame(5, b"two"), peer(1), now);
    assert_eq!(delivery, Delivery::Refused);
    // The ID is free now: its next frame opens a session, from whatever address.
    accept(&mut listening);
    let delivery = listening.on_datagram(frame(5, b"three"), peer(3), now);
    assert_eq!(delivery, Delivery::Opened);
}

#[test]
fn accept_queue_keeps_to_its_limit() {
    let mut listening = Listening::new(2, TIMEOUT);
    let now = Instant::now();
    for id in 0..2 {
        let delivery = listening.on_datagram(frame(id, b""), peer(1), now);
        assert_eq!(delivery, Delivery::Opened);
    }
    let delivery = listening.on_datagram(frame(2, b""), peer(1), now);
    assert_eq!(delivery, Delivery::Refused);
    assert_eq!(accept(&mut listening).id, 0);
    let delivery = listening.on_datagram(frame(2, b""), peer(1), now);
    assert_eq!(delivery, Delivery::Opened);
}

#[test]
fn no_room_in_a_queue_of_length_zero() {
    let mut listening = Listening::new(0, TIMEOUT);
    let delivery = listening.on_datagram(frame(1, b""), peer(1), Instant::now());
    assert_eq!(delivery, Delivery::Refused);
}

#[test]
fn sessions_are_accepted_in_the_order_of_their_first_frames() {
    let mut listening = Listening::new(8, TIMEOUT);
    let ids = [30, 10, 20];
    for id in ids {
        listening.on_datagram(frame(id, b""), peer(1), Instant::now());
    }
    for id in ids {
        assert_eq!(accept(&mut listening).id, id);
    }
}

#[test]
fn inactive_sessions_are_removed_and_their_ids_freed() {
    let mut listening = Listening::new(8, TIMEOUT);
    let start = Instant::now();
    listening.on_datagram(frame(1, b"old"), peer(1), start);
    let mut old = accept(&mut listening);
    listening.on_datagram(frame(2, b"young"), peer(1), start + Duration::from_secs(1));
    let mut young = accept(&mut listening);
    listening.on_datagram(frame(3, b"pending"), peer(1), start);
    old.input_rx.try_recv().unwrap();
    young.input_rx.try_recv().unwrap();

    // One nanosecond before the timeout nothing happens.
    listening.on_tick(start + TIMEOUT - Duration::from_nanos(1));
    let delivery = listening.on_datagram(frame(1, b"again"), peer(1), start);
    assert_eq!(delivery, Delivery::Forwarded);
    old.input_rx.try_recv().unwrap();

    listening.on_tick(start + TIMEOUT);
    assert!(old.input_rx.try_recv().is_err());
    let delivery = listening.on_datagram(frame(2, b"again"), peer(1), start);
    assert_eq!(delivery, Delivery::Forwarded);
    let delivery = listening.on_datagram(frame(3, b"again"), peer(1), start);
    assert_eq!(delivery, Delivery::Ignored);
    let delivery = listening.on_datagram(frame(1, b"again"), peer(9), start);
    assert_eq!(delivery, Delivery::Opened);
    assert_eq!(accept(&mut listening).id, 3);
    assert_eq!(accept(&mut listening).id, 1);
}

#[test]
fn many_inactive_sessions_are_removed_at_once() {
    let mut listening = Listening::new(64, TIMEOUT);
    let start = Instant::now();
    let mut kept = Vec::new();
    for id in 0..64 {
        let opened = if id % 2 == 0 { start } else { start + TIMEOUT };
        listening.on_datagram(frame(id, b""), peer(1), opened);
        let mut session = accept(&mut listening);
        session.input_rx.try_recv().unwrap();
        kept.push(session);
    }
    listening.on_tick(start + TIMEOUT);
    for id in 0..64 {
        let delivery = listening.on_datagram(frame(id, b""), peer(1), start);
        if id % 2 == 0 {
            assert_eq!(delivery, Delivery::Opened);
        } else {
            assert_eq!(delivery, Delivery::Forwarded);
        }
    }
}

#[test]
fn outcomes_of_an_offer() {
    let mut listening = Listening::new(8, TIMEOUT);
    let now = Instant::now();
    listening.on_datagram(frame(5, b"one"), peer(1), now);
    let _session = accept(&mut listening);
    let delivery = listening.on_send_outcome(5, peer(1), now, SendOutcome::Sent);
    assert_eq!(delivery, Delivery::Forwarded);
    let packet = BufSlice::from_bytes(vec![1]);
    let delivery = listening.on_send_outcome(5, peer(1), now, SendOutcome::Full(packet));
    assert_eq!(delivery, Delivery::Overflowed);
    let packet = BufSlice::from_bytes(vec![2]);
    let delivery = listening.on_send_outcome(5, peer(1), now, SendOutcome::Closed(packet));
    assert_eq!(delivery, Delivery::Opened);
    assert_eq!(accept(&mut listening).input_rx.try_recv().unwrap().data(), &[2]);
}

#[test]
fn answers_to_an_accept() {
    let mut listening = Listening::new(8, TIMEOUT);
    listening.on_datagram(frame(5, b""), peer(1), Instant::now());
    match on_accept_response::<(), ()>(Ok(listening.on_accept_request())) {
        AcceptStep::Accepted(session) => assert_eq!(session.id, 5),
        _ => panic!(),
    }
    assert!(matches!(
        on_accept_response::<(), ()>(Ok(None)),
        AcceptStep::Retry
    ));
    assert!(matches!(
        on_accept_response::<(), ()>(Err(())),
        AcceptStep::Failed(AcceptError::UdpError)
    ));
}

fn received(id: u32, body: &[u8], from: SocketAddr) -> ListenEvent {
    ListenEvent::Received {
        datagram: Some((frame(id, body), from)),
        now: Instant::now(),
    }
}

fn request(listening: &mut Listening) -> Option<StreamRx> {
    match listening.step(ListenEvent::AcceptRequested(Some(()))) {
        ListenAction::Answer(stream_rx) => stream_rx,
        _ => panic!(),
    }
}

fn is_delivered(action: ListenAction, delivery: Delivery) -> bool {
    matches!(action, ListenAction::Delivered(d) if d == delivery)
}

/// The packets that are in the channel of a stream.
fn drain(stream_rx: &mut StreamRx) -> Vec<Vec<u8>> {
    let mut packets = Vec::new();
    while let Ok(packet) = stream_rx.input_rx.try_recv() {
        packets.push(packet.data().to_vec());
    }
    packets
}

#[test]
fn listening_ends() {
    let mut listening = Listening::new(4, TIMEOUT);
    let now = Instant::now();
    let action = listening.step(ListenEvent::Tick { now });
    assert!(matches!(action, ListenAction::Wait));
    let short = ListenEvent::Received {
        datagram: Some((BufSlice::from_bytes(vec![1, 2, 3]), peer(1))),
        now,
    };
    assert!(is_delivered(listening.step(short), Delivery::Ignored));
    let failed = ListenEvent::Received {
        datagram: None,
        now,
    };
    assert!(matches!(listening.step(failed), ListenAction::Stop));
    let dropped = ListenEvent::AcceptRequested(None);
    assert!(matches!(listening.step(dropped), ListenAction::Stop));
}

#[test]
fn foreign_frame_leaves_the_stream_with_its_first_packet() {
    let mut listening = Listening::new(4, TIMEOUT);
    let action = listening.step(received(7, &[1], peer(1000)));
    assert!(is_delivered(action, Delivery::Opened));
    let mut stream = request(&mut listening).unwrap();
    assert_eq!(stream.id, 7);
    assert_eq!(stream.remote_addr, peer(1000));
    let action = listening.step(received(7, &[2], peer(2000)));
    assert!(is_delivered(action, Delivery::Ignored));
    assert!(request(&mut listening).is_none());
    assert_eq!(drain(&mut stream), [[1]]);
}

#[test]
fn frame_for_a_waiting_session_leaves_no_trace() {
    let mut listening = Listening::new(4, TIMEOUT);
    listening.step(received(7, &[1], peer(1000)));
    let action = listening.step(received(7, &[2], peer(1000)));
    assert!(is_delivered(action, Delivery::Ignored));
    let mut stream = request(&mut listening).unwrap();
    assert!(request(&mut listening).is_none());
    assert_eq!(drain(&mut stream), [[1]]);
}

#[test]
fn refused_datagram_leaves_no_trace() {
    let mut listening = Listening::new(1, TIMEOUT);
    listening.step(received(1, &[10], peer(1000)));
    let action = listening.step(received(2, &[20], peer(1000)));
    assert!(is_delivered(action, Delivery::Refused));
    let mut first = request(&mut listening).unwrap();
    let action = listening.step(received(2, &[21], peer(1000)));
    assert!(is_delivered(action, Delivery::Opened));
    let mut second = request(&mut listening).unwrap();
    assert!(request(&mut listening).is_none());
    assert_eq!((first.id, second.id), (1, 2));
    assert_eq!(drain(&mut first), [[10]]);
    assert_eq!(drain(&mut second), [[21]]);
}

#[test]
fn streams_get_their_own_frames_in_order() {
    let mut listening = Listening::new(4, TIMEOUT);
    listening.step(received(1, &[10], peer(1)));
    listening.step(received(2, &[20], peer(1)));
    let mut first = request(&mut listening).unwrap();
    let mut second = request(&mut listening).unwrap();
    let mut packets = (Vec::new(), Vec::new());
    for body in [1, 2, 3] {
        packets.0.extend(drain(&mut first));
        packets.1.extend(drain(&mut second));
        listening.step(received(1, &[10 + body], peer(1)));
        listening.step(received(1, &[99], peer(1)));
        listening.step(received(1, &[98], peer(2)));
        listening.step(received(2, &[20 + body], peer(1)));
    }
    packets.0.extend(drain(&mut first));
    packets.1.extend(drain(&mut second));
    assert_eq!(packets.0, [[10], [11], [12], [13]]);
    assert_eq!(packets.1, [[20], [21], [22], [23]]);
}
