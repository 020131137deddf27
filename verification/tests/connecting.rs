use ardl_socket::sockets::connection::{
    pick_addrs, Connecting, ReceiveAction, ReceiveEvent, Receiving, INPUT_QUEUE_LEN,
};
use ardl_socket::sockets::ConnectConfig;
use ardl_socket::stream;
use ardl_socket::streams::uploader::{LayerHdrLens, UploadEvent, LayerOutput, UploadAction};
use ardl_socket::utils::buf::BufSlice;
use ardl_socket::utils::time::is_timed_out;
use ardl_socket::utils::{SocketAddr, UdpEndpoint};
use std::collections::HashSet;
use std::time::{Duration, Instant};

const TIMEOUT: Duration = Duration::from_secs(300);

fn received(bytes: &[u8], now: Instant) -> ReceiveEvent {
    ReceiveEvent::Received {
        datagram: Some(BufSlice::from_bytes(bytes.to_vec())),
        now,
    }
}

#[test]
fn default_connect_config() {
    let config = ConnectConfig::default(5);
    assert_eq!(config.stream.mtu, 1300);
    assert_eq!(config.stream.flush_interval, Duration::from_millis(10));
    assert_eq!(config.stream.ardl_builder, 5);
    assert_eq!(config.inactive_timeout, Duration::from_secs(300));
}

#[test]
fn socket_is_bound_in_the_family_of_the_peer() {
    let v4 = SocketAddr::V4 { ip: 7, port: 8 };
    let v6 = SocketAddr::V6 {
        ip: 7,
        port: 8,
        flowinfo: 0,
        scope_id: 0,
    };
    assert_eq!(pick_addrs(&vec![v4, v6]), (v4, "0.0.0.0:0"));
    assert_eq!(pick_addrs(&vec![v6, v4]), (v6, "[::]:0"));
}

#[test]
fn own_frames_are_forwarded_without_their_header() {
    let now = Instant::now();
    let mut receiving = Receiving::new(258, TIMEOUT, now);
    match receiving.step(received(&[0, 0, 1, 2, 42], now)) {
        ReceiveAction::Forward(packet) => assert_eq!(packet.data(), &[42]),
        _ => panic!(),
    }
    let action = receiving.step(ReceiveEvent::Forwarded { delivered: true });
    assert!(matches!(action, ReceiveAction::Wait));
}

#[test]
fn other_frames_do_not_break_the_silence() {
    let start = Instant::now();
    let mut receiving = Receiving::new(258, TIMEOUT, start);
    let late = start + TIMEOUT - Duration::from_nanos(1);
    let action = receiving.step(received(&[0, 0, 1, 3, 42], late));
    assert!(matches!(action, ReceiveAction::Wait));
    let action = receiving.step(received(&[0, 0, 1], late));
    assert!(matches!(action, ReceiveAction::Wait));
    let action = receiving.step(ReceiveEvent::Tick { now: late });
    assert!(matches!(action, ReceiveAction::Wait));
    let action = receiving.step(ReceiveEvent::Tick {
        now: start + TIMEOUT,
    });
    assert!(matches!(action, ReceiveAction::Stop));
}

#[test]
fn own_frames_break_the_silence() {
    let start = Instant::now();
    let mut receiving = Receiving::new(1, TIMEOUT, start);
    receiving.step(received(&[0, 0, 0, 1], start + Duration::from_secs(1)));
    receiving.step(ReceiveEvent::Forwarded { delivered: true });
    let action = receiving.step(ReceiveEvent::Tick {
        now: start + TIMEOUT,
    });
    assert!(matches!(action, ReceiveAction::Wait));
    let action = receiving.step(ReceiveEvent::Tick {
        now: start + TIMEOUT + Duration::from_secs(1),
    });
    assert!(matches!(action, ReceiveAction::Stop));
}

#[test]
fn receiving_ends() {
    let now = Instant::now();
    let mut receiving = Receiving::new(1, TIMEOUT, now);
    let action = receiving.step(ReceiveEvent::Received {
        datagram: None,
        now,
    });
    assert!(matches!(action, ReceiveAction::Stop));

    let mut receiving = Receiving::new(1, TIMEOUT, now);
    receiving.step(received(&[0, 0, 0, 1], now));
    let action = receiving.step(ReceiveEvent::Forwarded { delivered: false });
    assert!(matches!(action, ReceiveAction::Stop));
}

#[test]
fn connection_has_a_channel_and_an_id() {
    let now = Instant::now();
    let mut connecting = Connecting::with_id(77, TIMEOUT, now);
    assert_eq!(connecting.id, 77);
    assert_eq!(connecting.input_tx.max_capacity(), INPUT_QUEUE_LEN);
    assert_eq!(INPUT_QUEUE_LEN, 128);
    let sent = connecting.input_tx.try_send(BufSlice::from_bytes(vec![3]));
    assert!(sent.is_ok());
    assert_eq!(connecting.input_rx.try_recv().unwrap().data(), &[3]);
    let action = connecting.receiving.step(received(&[0, 0, 0, 77, 1], now));
    assert!(matches!(action, ReceiveAction::Forward(_)));
}

#[test]
fn connections_have_random_ids() {
    let ids: HashSet<u32> = (0..16)
        .map(|_| Connecting::new(TIMEOUT, Instant::now()).id)
        .collect();
    assert!(ids.len() > 1);
}

#[test]
fn silence_only_grows() {
    let start = Instant::now();
    assert!(!is_timed_out(start, TIMEOUT, start));
    assert!(!is_timed_out(
        start,
        TIMEOUT,
        start + TIMEOUT - Duration::from_nanos(1)
    ));
    assert!(is_timed_out(start, TIMEOUT, start + TIMEOUT));
    assert!(is_timed_out(start, TIMEOUT, start + TIMEOUT + TIMEOUT));
    // An instant before the last datagram counts as no time at all.
    assert!(!is_timed_out(start + TIMEOUT + TIMEOUT, TIMEOUT, start));
    assert!(is_timed_out(start + TIMEOUT, Duration::from_secs(0), start));
}

#[test]
fn peer_stream_forwards_whole_datagrams() {
    match stream::on_received(Some(BufSlice::from_bytes(vec![1, 2]))) {
        stream::ReceiveAction::Forward(packet) => assert_eq!(packet.data(), &[1, 2]),
        _ => panic!(),
    }
    assert!(matches!(
        stream::on_received(None),
        stream::ReceiveAction::Stop
    ));
    assert!(matches!(
        stream::on_forwarded(true),
        stream::ReceiveAction::Receive
    ));
    assert!(matches!(
        stream::on_forwarded(false),
        stream::ReceiveAction::Stop
    ));
}

#[test]
fn peer_stream_sends_bare_packets() {
    let (input_tx, input_rx) = stream::input_channel();
    assert_eq!(input_tx.max_capacity(), 1);
    let lens = LayerHdrLens {
        packet: 7,
        push: 11,
        ack: 5,
    };
    let builder = stream::ArdlStreamBuilder {
        udp_endpoint: UdpEndpoint::Connection { connection: 's' },
        flush_interval: Duration::from_millis(10),
        mtu: 23,
        socket_recv_task: Some('t'),
        input_rx,
    };
    let layer: Result<(u8, u16), ()> = Ok((1, 2));
    let (mut task, downloader) = builder
        .build(layer, (), (), lens)
        .unwrap_or_else(|_| panic!());
    assert_eq!(downloader.ardl_downloader, 2);
    assert!(task.uploading.datagram().is_empty());
    task.uploading.step::<(), ()>(UploadEvent::FlushDue);
    let action = task
        .uploading
        .step::<(), ()>(UploadEvent::Output(LayerOutput::Packet(vec![5; 23])));
    assert!(matches!(action, UploadAction::SendDatagram));
    assert_eq!(task.uploading.datagram(), &[5; 23]);
}

#[test]
fn peer_stream_build_errors() {
    let build = |layer: Result<(u8, u16), u32>, mtu: usize| {
        let (_, input_rx) = stream::input_channel();
        let lens = LayerHdrLens {
            packet: 7,
            push: 11,
            ack: 5,
        };
        stream::ArdlStreamBuilder::<char, char> {
            udp_endpoint: UdpEndpoint::Connection { connection: 's' },
            flush_interval: Duration::from_millis(10),
            mtu,
            socket_recv_task: None,
            input_rx,
        }
        .build(layer, (), (), lens)
        .map(|_| ())
    };
    assert!(build(Ok((1, 2)), 23).is_ok());
    assert!(matches!(
        build(Ok((1, 2)), 22),
        Err(stream::BuildError::UploaderError(_))
    ));
    assert!(matches!(
        build(Err(9), 22),
        Err(stream::BuildError::ArdlError(9))
    ));
}
