use ardl_socket::protocol::FrameHdr;
use ardl_socket::streams::uploader::{
    check_mtu, on_write_response, BuildError, LayerHdrLens, LayerOutput, OutputAll, OutputError,
    OutputStep, SendFailure, UploadAction, UploadEvent, Uploading, UploadingToSendResponse,
    WriteStep,
};
use ardl_socket::streams::{self, ArdlStreamBuilder, ArdlStreamConfig, ArdlStreamUploaderBuilder};
use ardl_socket::streams::WriteError;
use ardl_socket::utils::buf::{BufSlice, OwnedBufWtr};
use ardl_socket::utils::{SocketAddr, UdpEndpoint};
use std::time::Duration;

type Event = UploadEvent<u8, &'static str>;
type Action = UploadAction<u8, &'static str>;

const LENS: LayerHdrLens = LayerHdrLens {
    packet: 7,
    push: 11,
    ack: 5,
};

fn step(uploading: &mut Uploading, event: Event) -> Action {
    uploading.step(event)
}

fn packet(bytes: &[u8]) -> Event {
    UploadEvent::Output(LayerOutput::Packet(bytes.to_vec()))
}

fn io_error() -> std::io::Error {
    std::io::Error::from(std::io::ErrorKind::ConnectionRefused)
}

#[test]
fn smallest_mtu_holds_a_push_of_one_byte() {
    assert_eq!(check_mtu(4 + 7 + 11 + 1, LENS), Ok(()));
    assert_eq!(check_mtu(4 + 7 + 11, LENS), Err(BuildError::MtuTooSmall));
    assert_eq!(check_mtu(0, LENS), Err(BuildError::MtuTooSmall));
    assert_eq!(check_mtu(10, LENS), Err(BuildError::MtuTooSmall));
}

#[test]
fn smallest_mtu_holds_an_acknowledgement() {
    let lens = LayerHdrLens {
        packet: 7,
        push: 1,
        ack: 20,
    };
    assert_eq!(check_mtu(31, lens), Ok(()));
    assert_eq!(check_mtu(30, lens), Err(BuildError::MtuTooSmall));
}

#[test]
fn huge_headers_fit_no_mtu() {
    let lens = LayerHdrLens {
        packet: usize::MAX,
        push: usize::MAX,
        ack: usize::MAX,
    };
    assert_eq!(check_mtu(usize::MAX, lens), Err(BuildError::MtuTooSmall));
}

#[test]
fn output_appends_sends_and_resets() {
    let mut wtr = OwnedBufWtr::new(8);
    wtr.append(&[1, 2]).unwrap();
    let output = OutputAll::begin(&wtr);
    let next = output.on_output(&mut wtr, LayerOutput::Packet(vec![3, 4]));
    assert!(matches!(next, OutputStep::SendDatagram));
    assert_eq!(wtr.data(), &[1, 2, 3, 4]);
    let next = output.on_sent(&mut wtr, Ok(()));
    assert!(matches!(next, OutputStep::OutputPacket));
    assert_eq!(wtr.data(), &[1, 2]);
    let next = output.on_output(&mut wtr, LayerOutput::NothingToOutput);
    assert!(matches!(next, OutputStep::Finished(Ok(()))));
}

#[test]
fn output_errors() {
    let mut wtr = OwnedBufWtr::new(8);
    let output = OutputAll::begin(&wtr);
    let next = output.on_output(&mut wtr, LayerOutput::BufferTooSmall);
    assert!(matches!(
        next,
        OutputStep::Finished(Err(OutputError::BufferTooSmall))
    ));
    output.on_output(&mut wtr, LayerOutput::Packet(vec![3]));
    let next = output.on_sent(&mut wtr, Err(SendFailure::OutOfMemory));
    assert!(matches!(
        next,
        OutputStep::Finished(Err(OutputError::SendBufferNotEnough))
    ));
    let next = output.on_sent(&mut wtr, Err(SendFailure::Other(io_error())));
    match next {
        OutputStep::Finished(Err(OutputError::OtherIoError(e))) => {
            assert_eq!(e.kind(), std::io::ErrorKind::ConnectionRefused)
        }
        _ => panic!(),
    }
    assert_eq!(wtr.data(), &[3]);
}

#[test]
fn flush_sends_every_packet_in_a_frame_of_its_own() {
    let mut uploading = Uploading::new(64, 0x0a0b_0c0d);
    assert_eq!(uploading.datagram(), &[0x0a, 0x0b, 0x0c, 0x0d]);
    let action = step(&mut uploading, UploadEvent::FlushDue);
    assert!(matches!(action, UploadAction::OutputPacket));
    for bytes in [b"first".as_slice(), b"".as_slice(), b"third".as_slice()] {
        let action = step(&mut uploading, packet(bytes));
        assert!(matches!(action, UploadAction::SendDatagram));
        let mut slice = BufSlice::from_bytes(uploading.datagram().to_vec());
        assert_eq!(FrameHdr::from_slice(&mut slice).unwrap().id(), 0x0a0b_0c0d);
        assert_eq!(slice.data(), bytes);
        let action = step(&mut uploading, UploadEvent::DatagramSent(Ok(())));
        assert!(matches!(action, UploadAction::OutputPacket));
    }
    let action = step(
        &mut uploading,
        UploadEvent::Output(LayerOutput::NothingToOutput),
    );
    assert!(matches!(action, UploadAction::Wait));
    assert_eq!(uploading.datagram(), &[0x0a, 0x0b, 0x0c, 0x0d]);
}

#[test]
fn new_state_is_set_and_then_flushed() {
    let mut uploading = Uploading::new(64, 1);
    let action = step(&mut uploading, UploadEvent::StateReceived(Some(9)));
    assert!(matches!(action, UploadAction::SetState(9)));
    let action = step(&mut uploading, UploadEvent::StateSet);
    assert!(matches!(action, UploadAction::OutputPacket));
}

#[test]
fn accepted_data_is_answered_and_then_flushed() {
    let mut uploading = Uploading::new(64, 1);
    let action = step(&mut uploading, UploadEvent::ToSendRequested(Some("data")));
    assert!(matches!(action, UploadAction::ToSend("data")));
    let action = step(&mut uploading, UploadEvent::ToSendAccepted);
    assert!(matches!(
        action,
        UploadAction::Answer(UploadingToSendResponse::Taken)
    ));
    let action = step(&mut uploading, UploadEvent::Answered);
    assert!(matches!(action, UploadAction::OutputPacket));
}

#[test]
fn refused_data_is_handed_back() {
    let mut uploading = Uploading::new(64, 1);
    step(&mut uploading, UploadEvent::ToSendRequested(Some("data")));
    let action = step(&mut uploading, UploadEvent::ToSendRefused("data"));
    match action {
        UploadAction::Answer(answer) => match on_write_response::<_, ()>(Ok(answer)) {
            WriteStep::Retry(data) => assert_eq!(data, "data"),
            _ => panic!(),
        },
        _ => panic!(),
    }
    let action = step(&mut uploading, UploadEvent::Answered);
    assert!(matches!(action, UploadAction::Wait));
}

#[test]
fn uploading_ends() {
    let mut uploading = Uploading::new(64, 1);
    let action = step(&mut uploading, UploadEvent::StateReceived(None));
    assert!(matches!(action, UploadAction::Stop));

    let mut uploading = Uploading::new(64, 1);
    let action = step(&mut uploading, UploadEvent::ToSendRequested(None));
    assert!(matches!(action, UploadAction::Stop));

    let mut uploading = Uploading::new(64, 1);
    step(&mut uploading, UploadEvent::FlushDue);
    step(&mut uploading, packet(b"x"));
    let action = step(
        &mut uploading,
        UploadEvent::DatagramSent(Err(SendFailure::Other(io_error()))),
    );
    assert!(matches!(action, UploadAction::Stop));
}

#[test]
fn unsent_datagram_stays_in_front_of_the_next_packet() {
    let mut uploading = Uploading::new(64, 1);
    step(&mut uploading, UploadEvent::FlushDue);
    step(&mut uploading, packet(b"old"));
    let action = step(
        &mut uploading,
        UploadEvent::DatagramSent(Err(SendFailure::OutOfMemory)),
    );
    assert!(matches!(action, UploadAction::Wait));
    step(&mut uploading, UploadEvent::FlushDue);
    step(&mut uploading, packet(b"new"));
    assert_eq!(uploading.datagram(), b"\x00\x00\x00\x01oldnew");
    step(&mut uploading, UploadEvent::DatagramSent(Ok(())));
    assert_eq!(uploading.datagram(), b"\x00\x00\x00\x01old");
}

#[test]
fn answers_to_a_write() {
    assert!(matches!(
        on_write_response::<u8, ()>(Ok(UploadingToSendResponse::Taken)),
        WriteStep::Done
    ));
    assert!(matches!(
        on_write_response::<u8, ()>(Ok(UploadingToSendResponse::Refused(4))),
        WriteStep::Retry(4)
    ));
    assert!(matches!(
        on_write_response::<u8, ()>(Err(())),
        WriteStep::Failed(WriteError::RemoteClosedOrDownloaderDropped)
    ));
}

#[test]
fn default_stream_config() {
    let config = ArdlStreamConfig::default("layer");
    assert_eq!(config.mtu, 1300);
    assert_eq!(config.flush_interval, Duration::from_millis(10));
    assert_eq!(config.ardl_builder, "layer");
}

fn uploader_builder(mtu: usize) -> ArdlStreamUploaderBuilder<char, u8, u16> {
    ArdlStreamUploaderBuilder {
        udp_endpoint: UdpEndpoint::Listener {
            listener: 's',
            remote_addr: SocketAddr::V4 { ip: 1, port: 2 },
        },
        ardl_uploader: 3,
        set_state_rx: 4,
        flush_interval: Duration::from_millis(10),
        mtu,
        id: 6,
    }
}

#[test]
fn uploader_task_has_the_parts_of_its_builder() {
    let task = uploader_builder(23).build(LENS).unwrap_or_else(|_| panic!());
    assert!(matches!(
        task.udp_endpoint,
        UdpEndpoint::Listener {
            listener: 's',
            remote_addr: SocketAddr::V4 { ip: 1, port: 2 }
        }
    ));
    assert_eq!(task.ardl_uploader, 3);
    assert_eq!(task.set_state_rx, 4);
    assert_eq!(task.flush_interval, Duration::from_millis(10));
    assert_eq!(task.mtu, 23);
    assert_eq!(task.uploading.datagram(), &[0, 0, 0, 6]);
}

#[test]
fn uploader_task_needs_a_large_mtu() {
    let built = uploader_builder(22).build(LENS);
    assert!(matches!(built, Err(BuildError::MtuTooSmall)));
}

fn stream_builder(mtu: usize) -> ArdlStreamBuilder<char, u8> {
    let (_, input_rx) = ardl_socket::stream::input_channel();
    ArdlStreamBuilder {
        udp_endpoint: UdpEndpoint::Connection { connection: 's' },
        flush_interval: Duration::from_millis(10),
        mtu,
        socket_recv_task: Some(5),
        input_rx,
        id: 0x0100_0000,
    }
}

#[test]
fn stream_has_an_uploading_and_a_downloading_half() {
    let layer: Result<(u8, u16), ()> = Ok((1, 2));
    let (task, downloader) = stream_builder(1300)
        .build(layer, "tx", "rx", LENS)
        .unwrap_or_else(|_| panic!());
    assert_eq!(task.ardl_uploader, 1);
    assert_eq!(task.set_state_rx, "rx");
    assert_eq!(task.uploading.datagram(), &[1, 0, 0, 0]);
    assert_eq!(downloader.ardl_downloader, 2);
    assert_eq!(downloader.set_state_tx, "tx");
    assert_eq!(downloader.socket_recv_task, Some(5));
}

#[test]
fn stream_build_errors() {
    let layer: Result<(u8, u16), &str> = Err("layer");
    let built = stream_builder(0).build(layer, (), (), LENS);
    assert!(matches!(built, Err(streams::BuildError::ArdlError("layer"))));
    let layer: Result<(u8, u16), &str> = Ok((1, 2));
    let built = stream_builder(0).build(layer, (), (), LENS);
    assert!(matches!(
        built,
        Err(streams::BuildError::UploaderError(BuildError::MtuTooSmall))
    ));
}
