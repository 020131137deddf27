use ardl_socket::streams::downloader::{
    on_read_response, on_try_read_response, DownloadAction, DownloadEvent, Downloading, ReadStep,
};
use ardl_socket::streams::ReadError;
use ardl_socket::utils::buf::BufSlice;

type Event = DownloadEvent<u8, &'static str>;
type Action = DownloadAction<u8, &'static str>;

fn step(downloading: &mut Downloading, event: Event) -> Action {
    downloading.step(event)
}

fn input() -> Event {
    DownloadEvent::Input(Some(BufSlice::from_bytes(vec![1, 2, 3])))
}

#[test]
fn decoded_packet_wakes_the_reader() {
    let mut downloading = Downloading::new();
    match step(&mut downloading, input()) {
        DownloadAction::InputPacket(packet) => assert_eq!(packet.data(), &[1, 2, 3]),
        _ => panic!(),
    }
    let action = step(&mut downloading, DownloadEvent::Decoded(Some(7)));
    assert!(matches!(action, DownloadAction::SendState(7)));
    let action = step(&mut downloading, DownloadEvent::StateSent { delivered: true });
    assert!(matches!(action, DownloadAction::NotifyAndWait));
}

#[test]
fn undecodable_packet_is_ignored() {
    let mut downloading = Downloading::new();
    step(&mut downloading, input());
    let action = step(&mut downloading, DownloadEvent::Decoded(None));
    assert!(matches!(action, DownloadAction::Wait));
    let action = step(&mut downloading, input());
    assert!(matches!(action, DownloadAction::InputPacket(_)));
}

#[test]
fn read_is_answered_with_what_there_is() {
    let mut downloading = Downloading::new();
    for data in [Some("data"), None] {
        let action = step(&mut downloading, DownloadEvent::ReadRequested(Some(1024)));
        assert!(matches!(action, DownloadAction::RecvMax(1024)));
        match step(&mut downloading, DownloadEvent::Received(data)) {
            DownloadAction::Answer(answer) => assert_eq!(answer, data),
            _ => panic!(),
        }
        let action = step(&mut downloading, DownloadEvent::Answered);
        assert!(matches!(action, DownloadAction::Wait));
    }
}

#[test]
fn downloading_ends() {
    let mut downloading = Downloading::new();
    let action = step(&mut downloading, DownloadEvent::Input(None));
    assert!(matches!(action, DownloadAction::Stop));

    let mut downloading = Downloading::new();
    let action = step(&mut downloading, DownloadEvent::ReadRequested(None));
    assert!(matches!(action, DownloadAction::Stop));

    let mut downloading = Downloading::new();
    step(&mut downloading, input());
    step(&mut downloading, DownloadEvent::Decoded(Some(7)));
    let action = step(&mut downloading, DownloadEvent::StateSent { delivered: false });
    assert!(matches!(action, DownloadAction::Stop));
}

#[test]
fn answers_to_a_read() {
    assert!(matches!(
        on_read_response::<u8, ()>(Ok(Some(3))),
        ReadStep::Done(3)
    ));
    assert!(matches!(
        on_read_response::<u8, ()>(Ok(None)),
        ReadStep::Retry
    ));
    assert!(matches!(
        on_read_response::<u8, ()>(Err(())),
        ReadStep::Failed(ReadError::RemoteClosedOrUploaderDropped)
    ));
}

#[test]
fn answers_to_a_read_that_does_not_wait() {
    assert_eq!(on_try_read_response::<u8, ()>(Ok(Some(3))), Ok(Some(3)));
    assert_eq!(on_try_read_response::<u8, ()>(Ok(None)), Ok(None));
    assert_eq!(
        on_try_read_response::<u8, ()>(Err(())),
        Err(ReadError::RemoteClosedOrUploaderDropped)
    );
}
