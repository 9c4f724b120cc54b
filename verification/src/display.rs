//! The 320 x 240 RGB565 panel: how fast a full-screen fill went.
use vstd::prelude::*;

verus! {

/// Panel width in pixels (landscape).
pub const DISPLAY_WIDTH: u16 = 320;

/// Panel height in pixels (landscape).
pub const DISPLAY_HEIGHT: u16 = 240;

/// Bytes of one full frame: 320 x 240 pixels of 16 bits.
pub const FRAME_BYTES: u64 = 153_600;

/// The throughput of a full-screen fill that took `elapsed_ms`
/// milliseconds, in KiB per second, rounded down; zero when the fill took
/// under a millisecond.
pub fn fill_rate_kib_per_s(elapsed_ms: u64) -> (rate: u64)
    requires
        elapsed_ms * 1024 <= u64::MAX,
    ensures
        elapsed_ms > 0 ==> rate == (FRAME_BYTES * 1000) / (elapsed_ms * 1024),
        elapsed_ms == 0 ==> rate == 0,
{
    if elapsed_ms > 0 {
        (FRAME_BYTES * 1000) / (elapsed_ms * 1024)
    } else {
        0
    }
}

/// A frame holds one 16-bit pixel for each point of the panel.
pub proof fn lemma_frame_bytes()
    ensures
        FRAME_BYTES == DISPLAY_WIDTH * DISPLAY_HEIGHT * 2,
{
}

} // verus!
