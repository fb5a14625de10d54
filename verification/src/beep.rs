//! The tone of the beeper.
use vstd::prelude::*;

verus! {

/// The lowest beep frequency, in Hz.
pub const BEEP_FREQ_MIN_HZ: u32 = 80;

/// The highest beep frequency, in Hz.
pub const BEEP_FREQ_MAX_HZ: u32 = 2000;

/// The beep frequency brought into the range the beeper plays.
pub fn clamp_beep_frequency(frequency_hz: u32) -> (clamped: u32)
    ensures
        clamped == if frequency_hz < BEEP_FREQ_MIN_HZ {
            BEEP_FREQ_MIN_HZ
        } else if frequency_hz > BEEP_FREQ_MAX_HZ {
            BEEP_FREQ_MAX_HZ
        } else {
            frequency_hz
        },
{
    if frequency_hz < BEEP_FREQ_MIN_HZ {
        BEEP_FREQ_MIN_HZ
    } else if frequency_hz > BEEP_FREQ_MAX_HZ {
        BEEP_FREQ_MAX_HZ
    } else {
        frequency_hz
    }
}

} // verus!
