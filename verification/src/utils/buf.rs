//! Byte buffers: the packets that come in and the datagram that goes out.
use vstd::prelude::*;
use vstd::slice::slice_subrange;

verus! {

/// A buffer holds fewer bytes, or has less room, than was asked of it.
#[derive(Debug, PartialEq, Eq, Structural, Clone, Copy)]
pub enum BufError {
    NotEnoughSpace,
}

/// A packet that can be consumed from its front.
///
/// The packet is the run of `bytes` from `start` up to `end`, and that run is its view.
#[derive(Debug)]
pub struct BufSlice {
    bytes: Vec<u8>,
    start: usize,
    end: usize,
}

impl View for BufSlice {
    type V = Seq<u8>;

    closed spec fn view(&self) -> Seq<u8> {
        self.bytes@.subrange(self.start as int, self.end as int)
    }
}

impl BufSlice {
    #[verifier::type_invariant]
    spec fn in_bounds(self) -> bool {
        self.start <= self.end <= self.bytes@.len()
    }

    /// A packet of all of `bytes`.
    pub fn from_bytes(bytes: Vec<u8>) -> (slice: BufSlice)
        ensures
            slice@ == bytes@,
    {
        let end: usize = bytes.len();
        let slice = BufSlice { bytes, start: 0, end };
        assert(slice@ =~= bytes@);
        slice
    }

    /// The packet that a receive of `len` bytes left at the front of the buffer `bytes`.
    pub fn from_received(bytes: Vec<u8>, len: usize) -> (slice: BufSlice)
        requires
            len <= bytes@.len(),
        ensures
            slice@ == bytes@.take(len as int),
    {
        let slice = BufSlice { bytes, start: 0, end: len };
        assert(slice@ =~= bytes@.take(len as int));
        slice
    }

    /// The bytes of the packet.
    pub fn data(&self) -> (data: &[u8])
        ensures
            data@ == self@,
    {
        proof {
            use_type_invariant(self);
        }
        slice_subrange(self.bytes.as_slice(), self.start, self.end)
    }

    /// Drops the first `len` bytes; a packet with fewer bytes stays as it is.
    pub fn pop_front(&mut self, len: usize) -> (popped: Result<(), BufError>)
        ensures
            popped is Ok <==> len <= old(self)@.len(),
            popped is Ok ==> final(self)@ == old(self)@.skip(len as int),
            popped is Err ==> final(self)@ == old(self)@,
    {
        proof {
            use_type_invariant(&*self);
        }
        if len <= self.end - self.start {
            self.start = self.start + len;
            assert(self@ =~= old(self)@.skip(len as int));
            Ok(())
        } else {
            Err(BufError::NotEnoughSpace)
        }
    }
}

/// A datagram under construction: it grows and shrinks at its back, up to a capacity.
///
/// Its view is the bytes written so far.
#[derive(Debug)]
pub struct OwnedBufWtr {
    data: Vec<u8>,
    cap: usize,
}

impl View for OwnedBufWtr {
    type V = Seq<u8>;

    closed spec fn view(&self) -> Seq<u8> {
        self.data@
    }
}

impl OwnedBufWtr {
    /// The number of bytes that fit.
    pub closed spec fn capacity(&self) -> nat {
        self.cap as nat
    }

    /// An empty writer with room for `cap` bytes.
    pub fn new(cap: usize) -> (wtr: OwnedBufWtr)
        ensures
            wtr@ == Seq::<u8>::empty(),
            wtr.capacity() == cap,
    {
        OwnedBufWtr { data: Vec::new(), cap }
    }

    /// The bytes written so far.
    pub fn data(&self) -> (data: &[u8])
        ensures
            data@ == self@,
    {
        self.data.as_slice()
    }

    /// The number of bytes written so far.
    pub fn data_len(&self) -> (len: usize)
        ensures
            len == self@.len(),
    {
        self.data.len()
    }

    /// Writes `bytes` at the back if they fit, and nothing otherwise.
    pub fn append(&mut self, bytes: &[u8]) -> (appended: Result<(), BufError>)
        ensures
            final(self).capacity() == old(self).capacity(),
            appended is Ok <==> old(self)@.len() + bytes@.len() <= old(self).capacity(),
            appended is Ok ==> final(self)@ == old(self)@ + bytes@,
            appended is Err ==> final(self)@ == old(self)@,
    {
        if self.data.len() <= self.cap && bytes.len() <= self.cap - self.data.len() {
            self.data.extend_from_slice(bytes);
            assert(self@ =~= old(self)@ + bytes@);
            Ok(())
        } else {
            Err(BufError::NotEnoughSpace)
        }
    }

    /// Takes the last `len` bytes back; with fewer bytes written, nothing changes.
    pub fn shrink_back(&mut self, len: usize) -> (shrunk: Result<(), BufError>)
        ensures
            final(self).capacity() == old(self).capacity(),
            shrunk is Ok <==> len <= old(self)@.len(),
            shrunk is Ok ==> final(self)@ == old(self)@.take(old(self)@.len() - len),
            shrunk is Err ==> final(self)@ == old(self)@,
    {
        if len <= self.data.len() {
            let left: usize = self.data.len() - len;
            self.data.truncate(left);
            assert(self@ =~= old(self)@.take(old(self)@.len() - len));
            Ok(())
        } else {
            Err(BufError::NotEnoughSpace)
        }
    }
}

} // verus!
