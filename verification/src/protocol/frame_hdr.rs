//! The frame header: the stream's ID, four bytes in network order before every packet.
use crate::utils::buf::{BufSlice, OwnedBufWtr};
use byteorder::{BigEndian, ReadBytesExt, WriteBytesExt};
use vstd::prelude::*;

verus! {

/// The header of a frame. Its view is the ID that it carries.
#[derive(Debug)]
pub struct FrameHdr {
    id: u32,
}

/// The number of bytes of an encoded frame header.
pub const FRAME_HDR_LEN: usize = 4;

/// The encoding of the frame header with this ID: the ID's four bytes, the highest first.
pub open spec fn frame_hdr_bytes(id: u32) -> Seq<u8> {
    seq![
        (id / 0x100_0000) as u8,
        (id / 0x1_0000 % 0x100) as u8,
        (id / 0x100 % 0x100) as u8,
        (id % 0x100) as u8,
    ]
}

/// A datagram that is long enough to hold a frame header.
pub open spec fn is_frame(datagram: Seq<u8>) -> bool {
    FRAME_HDR_LEN <= datagram.len()
}

/// The ID in the header of a frame.
pub open spec fn frame_id(datagram: Seq<u8>) -> u32
    recommends
        is_frame(datagram),
{
    (datagram[0] * 0x100_0000 + datagram[1] * 0x1_0000 + datagram[2] * 0x100 + datagram[3]) as u32
}

/// What follows the header of a frame.
pub open spec fn frame_body(datagram: Seq<u8>) -> Seq<u8>
    recommends
        is_frame(datagram),
{
    datagram.skip(FRAME_HDR_LEN as int)
}

/// The frame with this ID and this body.
pub open spec fn frame(id: u32, body: Seq<u8>) -> Seq<u8> {
    frame_hdr_bytes(id) + body
}

/// `ReadBytesExt::read_u32::<BigEndian>` on a cursor at the start of `data`: it reads the first
/// four bytes, the highest first, and fails on fewer bytes.
#[verifier::external_body]
fn read_u32_be(data: &[u8]) -> (read: Result<u32, std::io::Error>)
    ensures
        read is Ok <==> is_frame(data@),
        read matches Ok(id) ==> id == frame_id(data@),
{
    std::io::Cursor::new(data).read_u32::<BigEndian>()
}

/// `WriteBytesExt::write_u32::<BigEndian>` on a vector: it appends the four bytes of `n`, the
/// highest first. Writing to a vector does not fail.
#[verifier::external_body]
fn write_u32_be(wtr: &mut Vec<u8>, n: u32) -> (written: Result<(), std::io::Error>)
    ensures
        written is Ok,
        final(wtr)@ == old(wtr)@ + frame_hdr_bytes(n),
{
    wtr.write_u32::<BigEndian>(n)
}

impl View for FrameHdr {
    type V = u32;

    closed spec fn view(&self) -> u32 {
        self.id
    }
}

impl FrameHdr {
    /// Takes the header off the front of `slice`. A slice too short to hold one stays as it is.
    pub fn from_slice(slice: &mut BufSlice) -> (hdr: Result<FrameHdr, DecodingError>)
        ensures
            hdr is Ok <==> is_frame(old(slice)@),
            hdr matches Ok(hdr) ==> {
                &&& hdr@ == frame_id(old(slice)@)
                &&& final(slice)@ == frame_body(old(slice)@)
            },
            hdr is Err ==> final(slice)@ == old(slice)@,
    {
        match read_u32_be(slice.data()) {
            Ok(id) => {
                let _ = slice.pop_front(FRAME_HDR_LEN);
                Ok(FrameHdr { id })
            },
            Err(_) => Err(DecodingError::NotEnoughSpace),
        }
    }

    /// Writes the header at the back of `wtr` if it fits, and nothing otherwise.
    pub fn append_to(&self, wtr: &mut OwnedBufWtr) -> (appended: Result<(), EncodingError>)
        ensures
            final(wtr).capacity() == old(wtr).capacity(),
            appended is Ok <==> old(wtr)@.len() + FRAME_HDR_LEN <= old(wtr).capacity(),
            appended is Ok ==> final(wtr)@ == old(wtr)@ + frame_hdr_bytes(self@),
            appended is Err ==> final(wtr)@ == old(wtr)@,
    {
        let mut hdr: Vec<u8> = Vec::new();
        let _ = write_u32_be(&mut hdr, self.id);
        assert(hdr@ =~= frame_hdr_bytes(self.id));
        match wtr.append(hdr.as_slice()) {
            Ok(()) => Ok(()),
            Err(_) => Err(EncodingError::NotEnoughSpace),
        }
    }

    /// The ID that the header carries.
    pub fn id(&self) -> (id: u32)
        ensures
            id == self@,
    {
        self.id
    }
}

/// The parts of a frame header.
pub struct FrameBuilder {
    pub id: u32,
}

impl FrameBuilder {
    /// The frame header with these parts.
    pub fn build(self) -> (hdr: FrameHdr)
        ensures
            hdr@ == self.id,
    {
        FrameHdr { id: self.id }
    }
}

#[derive(Debug, PartialEq, Eq, Structural, Clone, Copy)]
pub enum EncodingError {
    NotEnoughSpace,
}

#[derive(Debug, PartialEq, Eq, Structural, Clone, Copy)]
pub enum DecodingError {
    NotEnoughSpace,
}

/// Decoding gives back what was encoded: the ID and the body of a frame.
pub proof fn law_decode_of_encode(id: u32, body: Seq<u8>)
    ensures
        is_frame(frame(id, body)),
        frame_id(frame(id, body)) == id,
        frame_body(frame(id, body)) == body,
{
    assert(frame_body(frame(id, body)) =~= body);
}

/// Encoding gives back what was decoded: every datagram with room for a header is the frame of
/// its ID and its body.
pub proof fn law_encode_of_decode(datagram: Seq<u8>)
    requires
        is_frame(datagram),
    ensures
        frame(frame_id(datagram), frame_body(datagram)) == datagram,
{
    assert(frame(frame_id(datagram), frame_body(datagram)) =~= datagram);
}

/// The header is four bytes long and is the ID as a number written to the base of 256, the highest
/// digit first; and a datagram is a frame exactly when it has these four bytes.
pub proof fn law_header_is_the_id_in_network_order(id: u32, datagram: Seq<u8>)
    ensures
        frame_hdr_bytes(id).len() == 4,
        id == frame_hdr_bytes(id)[0] * 0x100_0000 + frame_hdr_bytes(id)[1] * 0x1_0000
            + frame_hdr_bytes(id)[2] * 0x100 + frame_hdr_bytes(id)[3],
        is_frame(datagram) <==> datagram.len() >= 4,
        is_frame(datagram) ==> {
            &&& frame_id(datagram) == datagram[0] * 0x100_0000 + datagram[1] * 0x1_0000
                + datagram[2] * 0x100 + datagram[3]
            &&& frame_body(datagram) == datagram.subrange(4, datagram.len() as int)
        },
{
    assert(is_frame(datagram) ==> frame_body(datagram) =~= datagram.subrange(
        4,
        datagram.len() as int,
    ));
}

/// Frames are told apart by their headers: two frames are equal exactly when their IDs and their
/// bodies are, and the length of a frame is that of its body and the header.
pub proof fn law_frames_are_told_apart(id: u32, body: Seq<u8>, other_id: u32, other_body: Seq<u8>)
    ensures
        frame(id, body) == frame(other_id, other_body) <==> id == other_id && body == other_body,
        frame(id, body).len() == 4 + body.len(),
{
    law_decode_of_encode(id, body);
    law_decode_of_encode(other_id, other_body);
}

} // verus!
