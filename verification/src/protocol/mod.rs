pub mod frame_hdr;

pub use frame_hdr::{DecodingError, EncodingError, FrameBuilder, FrameHdr, FRAME_HDR_LEN};
