//! Busy-wait timing with the free-running 32-bit DWT cycle counter.
use vstd::prelude::*;

verus! {

/// Number of counter cycles per microsecond at `sysclk_hz`.
pub open spec fn spec_cycles_per_us(sysclk_hz: u32) -> int {
    sysclk_hz as int / 1_000_000
}

/// Cycles elapsed from `start` to `now` on a counter that wraps at 2^32.
pub open spec fn spec_elapsed(start: u32, now: u32) -> int {
    if now >= start {
        now - start
    } else {
        now + 0x1_0000_0000 - start
    }
}

/// The number of cycles a delay of `us` microseconds lasts at `sysclk_hz`.
pub fn delay_ticks(us: u32, sysclk_hz: u32) -> (ticks: u32)
    requires
        us * spec_cycles_per_us(sysclk_hz) <= u32::MAX,
    ensures
        ticks == us * spec_cycles_per_us(sysclk_hz),
        ticks == us * (sysclk_hz / 1_000_000),
{
    us * (sysclk_hz / 1_000_000)
}

/// Cycles elapsed since `start`, read at `now`, across one wrap of the counter.
pub fn elapsed_ticks(start: u32, now: u32) -> (elapsed: u32)
    ensures
        elapsed == spec_elapsed(start, now),
{
    now.wrapping_sub(start)
}

/// Whether a busy wait of `ticks` cycles begun at `start` is over at `now`.
pub fn delay_done(start: u32, now: u32, ticks: u32) -> (done: bool)
    ensures
        done == (spec_elapsed(start, now) >= ticks),
{
    !(elapsed_ticks(start, now) < ticks)
}

/// A counter that advanced by fewer than 2^32 cycles, whether or not it
/// wrapped on the way, reports exactly that many elapsed cycles.
pub proof fn lemma_elapsed_across_wrap(start: u32, advance: nat)
    requires
        advance < 0x1_0000_0000,
    ensures
        spec_elapsed(start, ((start + advance) % 0x1_0000_0000) as u32) == advance,
{
    if start + advance < 0x1_0000_0000 {
        assert((start + advance) % 0x1_0000_0000 == start + advance);
    } else {
        assert((start + advance) % 0x1_0000_0000 == start + advance - 0x1_0000_0000);
    }
}

/// On a whole-megahertz clock a delay of `us` microseconds lasts exactly
/// `us` times the clock in megahertz cycles.
pub proof fn lemma_delay_ticks_whole_mhz(us: u32, mhz: u32)
    requires
        mhz <= 4294,
        us * mhz <= u32::MAX,
    ensures
        us * spec_cycles_per_us((mhz * 1_000_000) as u32) == us * mhz,
{
    assert(((mhz * 1_000_000) as u32) as int / 1_000_000 == mhz);
}

} // verus!
