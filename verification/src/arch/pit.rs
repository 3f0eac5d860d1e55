//! Programmable interval timer (8254) arithmetic.

use vstd::prelude::*;

verus! {

/// Input clock of the timer in Hz.
pub const PIT_BASE_FREQUENCY_HZ: u32 = 1_193_182;
/// Default tick rate in Hz.
pub const PIT_FREQUENCY_HZ: u32 = 100;
/// Lowest rate whose divisor fits 16 bits.
pub const PIT_MIN_FREQUENCY_HZ: u32 = 19;
/// Highest rate (divisor 1).
pub const PIT_MAX_FREQUENCY_HZ: u32 = 1_193_182;
/// Divisor of the default rate.
pub const PIT_DIVISOR: u16 = 11931;
/// Command byte: channel 0, low/high byte access, mode 3, binary.
pub const PIT_COMMAND: u8 = 0x36;

/// The reload divisor for a rate of `hz`, if the rate is supported.
pub fn pit_calc_divisor(hz: u32) -> (r: Option<u16>)
    ensures
        (hz < PIT_MIN_FREQUENCY_HZ || hz > PIT_MAX_FREQUENCY_HZ) ==> r is None,
        (PIT_MIN_FREQUENCY_HZ <= hz <= PIT_MAX_FREQUENCY_HZ) ==> r == Some((PIT_BASE_FREQUENCY_HZ / hz) as u16)
            && PIT_BASE_FREQUENCY_HZ / hz <= 0xFFFF && PIT_BASE_FREQUENCY_HZ / hz >= 1,
{
    if hz < PIT_MIN_FREQUENCY_HZ || hz > PIT_MAX_FREQUENCY_HZ {
        return None;
    }
    let d = PIT_BASE_FREQUENCY_HZ / hz;
    assert(d <= 0xFFFF && d >= 1) by (nonlinear_arith)
        requires
            d == PIT_BASE_FREQUENCY_HZ / hz,
            PIT_MIN_FREQUENCY_HZ <= hz <= PIT_MAX_FREQUENCY_HZ,
    {
        assert(PIT_BASE_FREQUENCY_HZ / hz <= PIT_BASE_FREQUENCY_HZ / 19);
    }
    Some(d as u16)
}

/// The rate the timer actually runs at with reload divisor `divisor`.
pub fn pit_effective_freq(divisor: u16) -> (r: u32)
    requires
        divisor > 0,
    ensures
        r == PIT_BASE_FREQUENCY_HZ / (divisor as u32),
{
    PIT_BASE_FREQUENCY_HZ / (divisor as u32)
}

/// The three bytes programming channel 0 for `hz`: the command byte, then
/// the divisor's low and high bytes; `None` when the rate is unsupported
/// (where the kernel panics).
pub fn pit_init_bytes(hz: u32) -> (r: Option<(u8, u8, u8)>)
    ensures
        match r {
            None => hz < PIT_MIN_FREQUENCY_HZ || hz > PIT_MAX_FREQUENCY_HZ,
            Some((c, lo, hi)) => {
                let d = (PIT_BASE_FREQUENCY_HZ / hz) as u16;
                &&& PIT_MIN_FREQUENCY_HZ <= hz <= PIT_MAX_FREQUENCY_HZ
                &&& c == PIT_COMMAND
                &&& lo == (d & 0xFF) as u8
                &&& hi == ((d >> 8u16) & 0xFF) as u8
            },
        },
{
    match pit_calc_divisor(hz) {
        None => None,
        Some(d) => Some((PIT_COMMAND, (d & 0xFF) as u8, ((d >> 8u16) & 0xFF) as u8)),
    }
}

} // verus!
