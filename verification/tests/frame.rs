use ardl_socket::protocol::{
    DecodingError, EncodingError, FrameBuilder, FrameHdr, FRAME_HDR_LEN,
};
use ardl_socket::utils::buf::{BufError, BufSlice, OwnedBufWtr};

#[test]
fn builder_keeps_the_id() {
    assert_eq!(FrameBuilder { id: 7 }.build().id(), 7);
    assert_eq!(FrameBuilder { id: u32::MAX }.build().id(), u32::MAX);
}

#[test]
fn header_is_the_id_in_network_order() {
    let mut wtr = OwnedBufWtr::new(16);
    let hdr = FrameBuilder { id: 0x0102_0304 }.build();
    assert_eq!(hdr.append_to(&mut wtr), Ok(()));
    assert_eq!(wtr.data(), &[1, 2, 3, 4]);
    assert_eq!(wtr.data_len(), FRAME_HDR_LEN);
}

#[test]
fn header_goes_behind_what_is_written() {
    let mut wtr = OwnedBufWtr::new(6);
    assert_eq!(wtr.append(&[9, 8]), Ok(()));
    let hdr = FrameBuilder { id: 0xdead_beef }.build();
    assert_eq!(hdr.append_to(&mut wtr), Ok(()));
    assert_eq!(wtr.data(), &[9, 8, 0xde, 0xad, 0xbe, 0xef]);
}

#[test]
fn header_needs_room() {
    let mut wtr = OwnedBufWtr::new(5);
    assert_eq!(wtr.append(&[1, 1]), Ok(()));
    let hdr = FrameBuilder { id: 1 }.build();
    assert_eq!(hdr.append_to(&mut wtr), Err(EncodingError::NotEnoughSpace));
    assert_eq!(wtr.data(), &[1, 1]);
}

#[test]
fn decoding_takes_the_header_off() {
    let mut slice = BufSlice::from_bytes(vec![0, 0, 1, 11, 42, 43]);
    let hdr = FrameHdr::from_slice(&mut slice).unwrap();
    assert_eq!(hdr.id(), 267);
    assert_eq!(slice.data(), &[42, 43]);
}

#[test]
fn a_bare_header_has_an_empty_body() {
    let mut slice = BufSlice::from_bytes(vec![255, 255, 255, 254]);
    assert_eq!(FrameHdr::from_slice(&mut slice).unwrap().id(), u32::MAX - 1);
    assert!(slice.data().is_empty());
}

#[test]
fn short_slices_cannot_be_decoded() {
    for len in 0..4 {
        let mut slice = BufSlice::from_bytes(vec![7; len]);
        assert_eq!(
            FrameHdr::from_slice(&mut slice).unwrap_err(),
            DecodingError::NotEnoughSpace
        );
        assert_eq!(slice.data().len(), len);
    }
}

#[test]
fn decoding_gives_back_what_was_encoded() {
    for id in [0, 1, 255, 256, 0x1_0000, 0x7fff_ffff, 0x8000_0000, u32::MAX] {
        let mut wtr = OwnedBufWtr::new(64);
        FrameBuilder { id }.build().append_to(&mut wtr).unwrap();
        wtr.append(b"body").unwrap();
        let mut slice = BufSlice::from_bytes(wtr.data().to_vec());
        assert_eq!(FrameHdr::from_slice(&mut slice).unwrap().id(), id);
        assert_eq!(slice.data(), b"body");
    }
}

#[test]
fn encoding_gives_back_what_was_decoded() {
    let datagram = vec![200, 100, 50, 25, 1, 2, 3];
    let mut slice = BufSlice::from_bytes(datagram.clone());
    let hdr = FrameHdr::from_slice(&mut slice).unwrap();
    let mut wtr = OwnedBufWtr::new(64);
    hdr.append_to(&mut wtr).unwrap();
    wtr.append(slice.data()).unwrap();
    assert_eq!(wtr.data(), datagram.as_slice());
}

#[test]
fn received_slice_ends_with_the_datagram() {
    let slice = BufSlice::from_received(vec![1, 2, 3, 0, 0], 3);
    assert_eq!(slice.data(), &[1, 2, 3]);
    let slice = BufSlice::from_received(vec![0; 8], 0);
    assert!(slice.data().is_empty());
}

#[test]
fn popping_beyond_the_end_changes_nothing() {
    let mut slice = BufSlice::from_received(vec![1, 2, 3, 4], 3);
    assert_eq!(slice.pop_front(4), Err(BufError::NotEnoughSpace));
    assert_eq!(slice.data(), &[1, 2, 3]);
    assert_eq!(slice.pop_front(1), Ok(()));
    assert_eq!(slice.data(), &[2, 3]);
    assert_eq!(slice.pop_front(2), Ok(()));
    assert!(slice.data().is_empty());
    assert_eq!(slice.pop_front(0), Ok(()));
    assert_eq!(slice.pop_front(1), Err(BufError::NotEnoughSpace));
}

#[test]
fn writer_grows_and_shrinks_at_its_back() {
    let mut wtr = OwnedBufWtr::new(4);
    assert_eq!(wtr.append(&[1, 2, 3]), Ok(()));
    assert_eq!(wtr.append(&[4, 5]), Err(BufError::NotEnoughSpace));
    assert_eq!(wtr.append(&[4]), Ok(()));
    assert_eq!(wtr.shrink_back(5), Err(BufError::NotEnoughSpace));
    assert_eq!(wtr.data(), &[1, 2, 3, 4]);
    assert_eq!(wtr.shrink_back(3), Ok(()));
    assert_eq!(wtr.data(), &[1]);
    assert_eq!(wtr.shrink_back(1), Ok(()));
    assert_eq!(wtr.data_len(), 0);
}
