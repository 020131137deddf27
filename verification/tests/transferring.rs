use ardl_socket::transfer::{line_payload, Transfer};
use std::time::{Duration, Instant};

#[test]
fn transfer_is_done_when_all_bytes_are_back() {
    let now = Instant::now();
    let mut transfer = Transfer::new(10, now);
    assert!(!transfer.on_chunk(4, now).done);
    assert!(!transfer.on_chunk(0, now).done);
    let step = transfer.on_chunk(6, now);
    assert!(step.done);
    assert!(step.report.is_none());
    assert_eq!(transfer.bytes_written_so_far, 10);
}

#[test]
fn progress_is_reported_after_more_than_a_second() {
    let start = Instant::now();
    let mut transfer = Transfer::new(100, start);
    let second = Duration::from_secs(1);
    assert!(transfer.on_chunk(10, start + second).report.is_none());
    let later = start + second + Duration::from_nanos(1);
    let report = transfer.on_chunk(20, later).report.unwrap();
    assert_eq!(report.new_bytes, 30);
    assert_eq!(report.elapsed, second + Duration::from_nanos(1));
    assert!(transfer.on_chunk(5, later + second).report.is_none());
    let report = transfer
        .on_chunk(5, later + second + second)
        .report
        .unwrap();
    assert_eq!(report.new_bytes, 10);
    assert_eq!(report.elapsed, second + second);
}

#[test]
fn line_is_sent_without_its_line_feed() {
    assert_eq!(line_payload(b"hi\n".to_vec()), Some(b"hi".to_vec()));
    assert_eq!(line_payload(b"hi".to_vec()), Some(b"hi".to_vec()));
    assert_eq!(line_payload(b"hi\n\n".to_vec()), Some(b"hi\n".to_vec()));
    assert_eq!(line_payload(b"\n".to_vec()), None);
    assert_eq!(line_payload(Vec::new()), None);
}
