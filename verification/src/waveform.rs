//! The in-memory waveform model: a finite signed 8-bit PCM waveform with an
//! optional sustain loop region, measured in coarse units of two data bytes.

use vstd::prelude::*;
use crate::pitch::step_int_of;

verus! {

/// One waveform of the song, immutable once loaded.  Lengths and loop bounds
/// are in coarse units (one unit = 2 data bytes); indices into `data` are in
/// fine units (bytes).
#[derive(Clone, Debug)]
pub struct Waveform {
    /// Coarse length; `data` holds `2 * length_units` bytes.
    pub length_units: u16,
    /// Coarse start of the repeat region.
    pub repeat_start_units: u16,
    /// Coarse length of the repeat region; `<= 2` means no meaningful loop.
    pub repeat_length_units: u16,
    /// Default playback volume, 0 to 64.
    pub base_volume: u8,
    /// The signed 8-bit samples.
    pub data: Vec<i8>,
}

impl Waveform {
    /// Structural well-formedness: the data matches the declared coarse
    /// length and the repeat region lies within the waveform.
    pub open spec fn wf(self) -> bool {
        &&& self.data@.len() == 2 * self.length_units
        &&& 2 * self.repeat_start_units + 2 * self.repeat_length_units <= 2 * self.length_units
    }
}

/// The waveform can be stepped at pitch `period` and host rate `rate` without
/// the cursor ever escaping the waveform: each correction of the playback
/// position (one rewrap into the repeat region, or one subtractive wrap
/// within it) outruns a single step, and positions stay within `u16`.
pub open spec fn playable(w: Waveform, period: u16, rate: u32) -> bool {
    let si = step_int_of(period as int, rate as int);
    &&& period > 0
    &&& rate > 0
    &&& w.wf()
    &&& 2 * w.repeat_start_units + si < 2 * w.length_units
    &&& (w.repeat_length_units > 2 ==> si + 1 <= 2 * w.repeat_length_units)
    &&& 2 * w.length_units + si <= u16::MAX
}

/// Decides `playable` for a concrete waveform, pitch and host rate.
pub fn playable_check(w: &Waveform, period: u16, sample_rate: u32) -> (ok: bool)
    ensures
        ok == playable(*w, period, sample_rate),
{
    if period == 0 || sample_rate == 0 {
        return false;
    }
    if w.data.len() != 2 * (w.length_units as usize) {
        return false;
    }
    if 2 * (w.repeat_start_units as u32) + 2 * (w.repeat_length_units as u32) > 2 * (
    w.length_units as u32) {
        return false;
    }
    proof {
        assert(10 <= 10 * (period as int) * (sample_rate as int) <= 10 * (u16::MAX as int) * (
        u32::MAX as int)) by (nonlinear_arith)
            requires
                1 <= period <= u16::MAX,
                1 <= sample_rate <= u32::MAX,
        ;
    }
    let den: u64 = 10u64 * (period as u64) * (sample_rate as u64);
    let si: u64 = (9080050176u64 / den) / 256;
    if 2 * (w.repeat_start_units as u64) + si >= 2 * (w.length_units as u64) {
        return false;
    }
    if w.repeat_length_units > 2 && si + 1 > 2 * (w.repeat_length_units as u64) {
        return false;
    }
    if 2 * (w.length_units as u64) + si > 65535 {
        return false;
    }
    true
}

} // verus!
