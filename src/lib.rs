//! Frame staging for screen video: NV12 plane packing, a byte ring that
//! reassembles whole frames, codec preference lists and the decisions of
//! the encode loop.

pub mod nv12;
pub mod pixel;
pub mod ring;
pub mod stream;
pub mod codec;
pub mod encoder;
pub mod yuv;
