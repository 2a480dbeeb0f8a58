//! Framing of the camera helper's output: each JPEG frame is preceded by its
//! length as a 4-byte big-endian integer.
use vstd::prelude::*;

verus! {

/// The largest frame accepted from the camera helper (5 MiB).
pub const MAX_FRAME_BYTES: u32 = 5242880;

/// The width of camera frames.
pub const CAMERA_WIDTH: i64 = 640;

/// The height of camera frames.
pub const CAMERA_HEIGHT: i64 = 480;

/// The refusal of a frame longer than [`MAX_FRAME_BYTES`].
pub const FRAME_TOO_LARGE: &'static str = "Frame size too large (exceeds 5MB limit)";

/// The value of a 4-byte big-endian header.
pub open spec fn be_u32(h: Seq<u8>) -> int {
    h[0] * 16777216 + h[1] * 65536 + h[2] * 256 + h[3]
}

/// The length of the frame that follows a header: its big-endian value, or a
/// refusal when it exceeds [`MAX_FRAME_BYTES`].
pub fn frame_length(header: [u8; 4]) -> (res: Result<u32, &'static str>)
    ensures
        be_u32(header@) > MAX_FRAME_BYTES ==> (res matches Err(e) && e@ == FRAME_TOO_LARGE@),
        be_u32(header@) <= MAX_FRAME_BYTES ==> (res matches Ok(n) && n == be_u32(header@)),
{
    let len: u64 = header[0] as u64 * 16777216 + header[1] as u64 * 65536 + header[2] as u64 * 256
        + header[3] as u64;
    if len > MAX_FRAME_BYTES as u64 {
        Err(FRAME_TOO_LARGE)
    } else {
        Ok(len as u32)
    }
}

} // verus!
