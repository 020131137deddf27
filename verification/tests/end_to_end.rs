use ardl_socket::listener;
use ardl_socket::sockets::connection::{ReceiveAction, ReceiveEvent, Receiving};
use ardl_socket::sockets::listener::{Delivery, Listening};
use ardl_socket::streams::uploader::{
    on_write_response, LayerHdrLens, LayerOutput, SendFailure, UploadAction, UploadEvent,
    Uploading, WriteStep,
};
use ardl_socket::streams::WriteError;
use ardl_socket::utils::buf::BufSlice;
use ardl_socket::utils::{SocketAddr, UdpEndpoint};
use std::time::{Duration, Instant};

const TIMEOUT: Duration = Duration::from_secs(300);

const LENS: LayerHdrLens = LayerHdrLens {
    packet: 7,
    push: 11,
    ack: 5,
};

const PEER: SocketAddr = SocketAddr::V4 {
    ip: 0x7f00_0001,
    port: 9,
};

fn step(uploading: &mut Uploading, event: UploadEvent<u8, u8>) -> UploadAction<u8, u8> {
    uploading.step(event)
}

/// The datagram that a due flush sends of this packet.
fn upload(uploading: &mut Uploading, packet: &[u8]) -> BufSlice {
    step(uploading, UploadEvent::FlushDue);
    let output = LayerOutput::Packet(packet.to_vec());
    let action = step(uploading, UploadEvent::Output(output));
    assert!(matches!(action, UploadAction::SendDatagram));
    let datagram = BufSlice::from_bytes(uploading.datagram().to_vec());
    step(uploading, UploadEvent::DatagramSent(Ok(())));
    step(
        uploading,
        UploadEvent::Output(LayerOutput::NothingToOutput),
    );
    datagram
}

#[test]
fn uploaded_packets_reach_their_session() {
    let mut uploading = Uploading::new(64, 0x0a0b_0c0d);
    let mut listening = Listening::new(8, TIMEOUT);
    let now = Instant::now();
    let delivery = listening.on_datagram(upload(&mut uploading, b"one"), PEER, now);
    assert_eq!(delivery, Delivery::Opened);
    let mut session = listening.on_accept_request().unwrap();
    assert_eq!(session.id, 0x0a0b_0c0d);
    assert_eq!(session.input_rx.try_recv().unwrap().data(), b"one");
    let delivery = listening.on_datagram(upload(&mut uploading, b"two"), PEER, now);
    assert_eq!(delivery, Delivery::Forwarded);
    assert_eq!(session.input_rx.try_recv().unwrap().data(), b"two");
}

#[test]
fn uploaded_packets_are_forwarded_by_a_connection() {
    let mut uploading = Uploading::new(64, 77);
    let now = Instant::now();
    let mut receiving = Receiving::new(77, TIMEOUT, now);
    for body in [b"one", b"two"] {
        let datagram = Some(upload(&mut uploading, body));
        match receiving.step(ReceiveEvent::Received { datagram, now }) {
            ReceiveAction::Forward(packet) => assert_eq!(packet.data(), body),
            _ => panic!(),
        }
        receiving.step(ReceiveEvent::Forwarded { delivered: true });
    }
}

#[test]
fn every_datagram_of_a_run_starts_with_the_header() {
    let mut uploading = Uploading::new(64, 258);
    for failure in [false, true, false] {
        assert!(uploading.datagram().starts_with(&[0, 0, 1, 2]));
        step(&mut uploading, UploadEvent::StateReceived(Some(3)));
        step(&mut uploading, UploadEvent::StateSet);
        let output = LayerOutput::Packet(vec![9, 9]);
        step(&mut uploading, UploadEvent::Output(output));
        assert!(uploading.datagram().starts_with(&[0, 0, 1, 2]));
        let sent = if failure {
            Err(SendFailure::OutOfMemory)
        } else {
            Ok(())
        };
        step(&mut uploading, UploadEvent::DatagramSent(sent));
        if !failure {
            step(
                &mut uploading,
                UploadEvent::Output(LayerOutput::NothingToOutput),
            );
        }
    }
}

#[test]
fn accepted_session_becomes_a_stream() {
    let mut listening = Listening::new(8, TIMEOUT);
    let datagram = upload(&mut Uploading::new(64, 258), b"hello");
    listening.on_datagram(datagram, PEER, Instant::now());
    let session = listening.on_accept_request().unwrap();
    let builder = session.into_stream_builder::<char, u8>('s', Duration::from_millis(3), 40);
    assert_eq!(builder.id, 258);
    let (task, mut downloader) = builder
        .build::<_, _, (), _, _>(Ok(('u', 'd')), 't', 'r', LENS)
        .unwrap();
    match task.udp_endpoint {
        UdpEndpoint::Listener {
            listener,
            remote_addr,
        } => {
            assert_eq!(listener, 's');
            assert_eq!(remote_addr, PEER);
        }
        _ => panic!(),
    }
    assert_eq!(task.flush_interval, Duration::from_millis(3));
    assert_eq!(task.mtu, 40);
    assert_eq!(task.uploading.datagram(), &[0, 0, 1, 2]);
    assert_eq!(downloader.socket_recv_task, None);
    assert_eq!(downloader.input_rx.try_recv().unwrap().data(), b"hello");
}

#[test]
fn built_stream_sends_under_its_id_and_ends_with_its_other_half() {
    let mut listening = Listening::new(8, TIMEOUT);
    let datagram = upload(&mut Uploading::new(64, 258), b"hello");
    listening.on_datagram(datagram, PEER, Instant::now());
    let session = listening.on_accept_request().unwrap();
    let builder = session.into_stream_builder::<char, u8>('s', Duration::from_millis(3), 40);
    let (mut task, _) = builder
        .build::<_, _, (), _, _>(Ok(('u', 'd')), 't', 'r', LENS)
        .unwrap();
    assert_eq!(task.ardl_uploader, 'u');
    assert_eq!(task.set_state_rx, 'r');
    let sent = upload(&mut task.uploading, b"answer");
    assert_eq!(sent.data(), b"\x00\x00\x01\x02answer");
    let action = step(&mut task.uploading, UploadEvent::StateReceived(None));
    assert!(matches!(action, UploadAction::Stop));
    assert!(matches!(
        on_write_response::<u8, ()>(Err(())),
        WriteStep::Failed(WriteError::RemoteClosedOrDownloaderDropped)
    ));
}

#[test]
fn accepted_address_becomes_a_stream() {
    let mut listening = listener::Listening::new(8);
    listening.on_datagram(BufSlice::from_bytes(b"hello".to_vec()), PEER);
    let path = match listener::on_accept_response(listening.on_accept_request()) {
        listener::AcceptStep::Accepted(path) => path,
        _ => panic!(),
    };
    assert!(matches!(
        listener::on_accept_response(listening.on_accept_request()),
        listener::AcceptStep::Retry
    ));
    let mut builder = path.into_stream_builder::<char, u8>('s', Duration::from_millis(3), 40);
    match builder.udp_endpoint {
        UdpEndpoint::Listener {
            listener,
            remote_addr,
        } => {
            assert_eq!(listener, 's');
            assert_eq!(remote_addr, PEER);
        }
        _ => panic!(),
    }
    assert_eq!(builder.flush_interval, Duration::from_millis(3));
    assert_eq!(builder.mtu, 40);
    assert_eq!(builder.socket_recv_task, None);
    assert_eq!(builder.input_rx.try_recv().unwrap().data(), b"hello");
}
