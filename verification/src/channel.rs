//! Per-channel playback state: a fixed-point cursor into the active waveform,
//! loop resolution with two wrap policies, and the per-tick mixing step that
//! accumulates one channel's samples into a shared buffer.

use vstd::prelude::*;
use crate::pitch::{
    compute_step, samples_per_tick, samples_per_tick_of, step_frac_of, step_int_of,
    lemma_step_fixed_point,
};
use crate::waveform::{playable, Waveform};

verus! {

/// Mathematical model of a playback cursor: the loop flag, the position in
/// fine units (bytes), and the sub-unit phase in 1/256ths.
pub ghost struct CursorModel {
    pub looped: bool,
    pub offset: int,
    pub frac: int,
}

/// The cursor of a channel that has just been triggered.
pub open spec fn start_cursor() -> CursorModel {
    CursorModel { looped: false, offset: 0, frac: 0 }
}

/// Per-channel fixed-point waveform playback position and loop state.
#[derive(Copy, Clone, Debug)]
pub struct SampleState {
    pub looped_yet: bool,
    pub sample_offset: u16,
    pub sample_frac: u8,
}

impl SampleState {
    pub open spec fn model(self) -> CursorModel {
        CursorModel {
            looped: self.looped_yet,
            offset: self.sample_offset as int,
            frac: self.sample_frac as int,
        }
    }

    pub fn new() -> (s: Self)
        ensures
            s.model() == start_cursor(),
    {
        Self { looped_yet: false, sample_offset: 0, sample_frac: 0 }
    }
}

/// A channel in the terminal no-loop state: the waveform defines no
/// meaningful repeat region and has already played through once.
pub open spec fn stopped(c: CursorModel, w: Waveform) -> bool {
    w.repeat_length_units <= 2 && c.looped
}

/// One mixing step of the cursor: advance by the 24.8 fixed-point increment
/// `(si, sf)`, then resolve looping.  Overshoot past the end of the waveform
/// is carried into the repeat region rather than discarded, preserving phase.
pub open spec fn cursor_step(c: CursorModel, w: Waveform, si: int, sf: int) -> CursorModel {
    let frac2 = (c.frac + sf) % 256;
    let carry: int = if c.frac + sf >= 256 {
        1
    } else {
        0
    };
    let off = c.offset + si + carry;
    if off >= 2 * w.length_units && !c.looped {
        CursorModel {
            looped: true,
            offset: 2 * w.repeat_start_units + (off - 2 * w.length_units),
            frac: frac2,
        }
    } else if c.looped && off >= 2 * w.repeat_start_units + 2 * w.repeat_length_units {
        CursorModel { looped: true, offset: off - 2 * w.repeat_length_units, frac: frac2 }
    } else {
        CursorModel { looped: c.looped, offset: off, frac: frac2 }
    }
}

/// The cursor after `n` mixing steps, halting in the terminal no-loop state.
pub open spec fn cursor_after(c: CursorModel, w: Waveform, si: int, sf: int, n: nat) -> CursorModel
    decreases n,
{
    if n == 0 {
        c
    } else {
        let prev = cursor_after(c, w, si, sf, (n - 1) as nat);
        if stopped(prev, w) {
            prev
        } else {
            cursor_step(prev, w, si, sf)
        }
    }
}

/// The cursor invariant: the phase is a byte, the position indexes the
/// waveform's data, and once looped (with a meaningful repeat region) the
/// position lies inside the repeat region.
pub open spec fn cursor_ok(c: CursorModel, w: Waveform) -> bool {
    &&& 0 <= c.frac < 256
    &&& 0 <= c.offset < 2 * w.length_units
    &&& (c.looped && w.repeat_length_units > 2 ==> 2 * w.repeat_start_units <= c.offset
        < 2 * w.repeat_start_units + 2 * w.repeat_length_units)
}

/// Division by 64 that truncates toward zero, as machine signed division does.
pub open spec fn trunc_div_64(a: int) -> int {
    if a >= 0 {
        a / 64
    } else {
        -((-a) / 64)
    }
}

/// The value one channel adds to the mixing buffer for one sample: the raw
/// signed byte scaled by the effective volume (in 64ths), then boosted by the
/// fixed headroom gain of 8.
pub open spec fn scaled_sample(vol: int, raw: int) -> int {
    8 * trunc_div_64(vol * raw)
}

/// What the channel adds at sample index `i` of a tick that started from
/// cursor `c0`: zero once the terminal no-loop state is reached.
pub open spec fn tick_contribution(
    c0: CursorModel,
    w: Waveform,
    si: int,
    sf: int,
    vol: int,
    i: nat,
) -> int {
    let prev = cursor_after(c0, w, si, sf, i);
    if stopped(prev, w) {
        0
    } else {
        let c = cursor_step(prev, w, si, sf);
        scaled_sample(vol, w.data@[c.offset] as int)
    }
}

/// Useful consequences of `playable`: the step parts are in range and the
/// waveform is nonempty.
pub proof fn lemma_playable_bounds(w: Waveform, period: u16, rate: u32)
    requires
        playable(w, period, rate),
    ensures
        0 <= step_int_of(period as int, rate as int),
        step_int_of(period as int, rate as int) + 2 * w.length_units <= u16::MAX,
        0 <= step_frac_of(period as int, rate as int) < 256,
        w.length_units >= 1,
{
    lemma_step_fixed_point(period as int, rate as int);
}

/// One step keeps the cursor invariant, provided a single wrap correction
/// outruns a single step (which `playable` guarantees).
pub proof fn lemma_cursor_step_ok(c: CursorModel, w: Waveform, si: int, sf: int)
    requires
        w.wf(),
        0 <= si,
        0 <= sf < 256,
        2 * w.repeat_start_units + si < 2 * w.length_units,
        w.repeat_length_units > 2 ==> si + 1 <= 2 * w.repeat_length_units,
        cursor_ok(c, w),
        !stopped(c, w),
    ensures
        cursor_ok(cursor_step(c, w, si, sf), w),
{
    assert(0 <= (c.frac + sf) % 256 < 256);
}

/// Cursor wrap invariant: after any number of mixing steps from a valid
/// cursor, the invariant still holds; in particular, if the waveform has a
/// meaningful repeat region (`repeat_length_units > 2`), the position lies in
/// `[repeat_start_units * 2, repeat_start_units * 2 + repeat_length_units * 2)`
/// once the cursor has looped.
pub proof fn lemma_cursor_wrap_invariant(
    c: CursorModel,
    w: Waveform,
    period: u16,
    rate: u32,
    n: nat,
)
    requires
        playable(w, period, rate),
        cursor_ok(c, w),
    ensures
        cursor_ok(
            cursor_after(
                c,
                w,
                step_int_of(period as int, rate as int),
                step_frac_of(period as int, rate as int),
                n,
            ),
            w,
        ),
    decreases n,
{
    lemma_playable_bounds(w, period, rate);
    let si = step_int_of(period as int, rate as int);
    let sf = step_frac_of(period as int, rate as int);
    if n > 0 {
        lemma_cursor_wrap_invariant(c, w, period, rate, (n - 1) as nat);
        let prev = cursor_after(c, w, si, sf, (n - 1) as nat);
        if !stopped(prev, w) {
            lemma_cursor_step_ok(prev, w, si, sf);
        }
    }
}

/// Once in the terminal no-loop state, the cursor never moves again.
pub proof fn lemma_stopped_stable(c: CursorModel, w: Waveform, si: int, sf: int, n: nat)
    requires
        stopped(c, w),
    ensures
        cursor_after(c, w, si, sf, n) == c,
    decreases n,
{
    if n > 0 {
        lemma_stopped_stable(c, w, si, sf, (n - 1) as nat);
    }
}

/// Degenerate-loop invariant: if the repeat region is meaningless
/// (`repeat_length_units <= 2`) and the cursor has looped, the channel adds
/// no further contribution at any later sample index, and the cursor stays
/// put, until a new waveform resets it.
pub proof fn lemma_degenerate_loop_silent(
    c: CursorModel,
    w: Waveform,
    si: int,
    sf: int,
    vol: int,
    i: nat,
)
    requires
        stopped(c, w),
    ensures
        tick_contribution(c, w, si, sf, vol, i) == 0,
        cursor_after(c, w, si, sf, i) == c,
{
    lemma_stopped_stable(c, w, si, sf, i);
}

/// If the cursor reaches the terminal state after `m` steps, every
/// contribution from index `m` on is zero and the cursor no longer moves.
pub proof fn lemma_contributions_after_stop(
    c0: CursorModel,
    w: Waveform,
    si: int,
    sf: int,
    vol: int,
    m: nat,
    j: nat,
)
    requires
        stopped(cursor_after(c0, w, si, sf, m), w),
        m <= j,
    ensures
        cursor_after(c0, w, si, sf, j) == cursor_after(c0, w, si, sf, m),
        tick_contribution(c0, w, si, sf, vol, j) == 0,
    decreases j - m,
{
    if j > m {
        lemma_contributions_after_stop(c0, w, si, sf, vol, m, (j - 1) as nat);
    }
}

/// A contribution never exceeds the headroom bound.
pub proof fn lemma_contribution_bounds(
    c0: CursorModel,
    w: Waveform,
    si: int,
    sf: int,
    vol: int,
    i: nat,
)
    requires
        0 <= vol <= 255,
    ensures
        -4080 <= tick_contribution(c0, w, si, sf, vol, i) <= 4048,
{
    let prev = cursor_after(c0, w, si, sf, i);
    if !stopped(prev, w) {
        let c = cursor_step(prev, w, si, sf);
        let raw = w.data@[c.offset] as int;
        assert(-128 <= raw <= 127);
        assert(-32640 <= vol * raw <= 32385) by (nonlinear_arith)
            requires
                0 <= vol <= 255,
                -128 <= raw <= 127,
        ;
        assert(-510 <= trunc_div_64(vol * raw) <= 506);
    }
}

/// Mathematical model of a whole channel.
pub ghost struct ChannelModel {
    pub cursor: CursorModel,
    pub num: Option<u8>,
    pub period: u16,
    pub volume: Option<u8>,
}

/// The effective volume of a channel: its override if a volume effect set
/// one, else the waveform's base volume.
pub open spec fn effective_volume(ch: ChannelModel, w: Waveform) -> int {
    match ch.volume {
        Some(v) => v as int,
        None => w.base_volume as int,
    }
}

/// One playback channel: a cursor plus the channel's current waveform
/// selection, pitch and volume override.
#[derive(Copy, Clone, Debug)]
pub struct ChannelState {
    pub state: SampleState,
    pub num: Option<u8>,
    pub period: u16,
    pub volume: Option<u8>,
}

impl ChannelState {
    pub open spec fn model(self) -> ChannelModel {
        ChannelModel {
            cursor: self.state.model(),
            num: self.num,
            period: self.period,
            volume: self.volume,
        }
    }

    pub fn new() -> (c: Self)
        ensures
            c.model() == (ChannelModel {
                cursor: start_cursor(),
                num: None::<u8>,
                period: 0u16,
                volume: None::<u8>,
            }),
    {
        Self { state: SampleState::new(), num: None, period: 0, volume: None }
    }

    /// Triggers waveform `num` on this channel: the cursor restarts and any
    /// volume override is cleared.
    pub fn new_sample(&mut self, num: u8)
        requires
            num > 0,
        ensures
            final(self).model() == (ChannelModel {
                cursor: start_cursor(),
                num: Some(num),
                period: old(self).period,
                volume: None::<u8>,
            }),
    {
        self.state = SampleState::new();
        self.num = Some(num);
        self.volume = None;
    }

    pub fn set_volume(&mut self, vol: u8)
        ensures
            final(self).model() == (ChannelModel { volume: Some(vol), ..old(self).model() }),
    {
        self.volume = Some(vol);
    }

    pub fn set_period(&mut self, period: u16)
        ensures
            final(self).model() == (ChannelModel { period: period, ..old(self).model() }),
    {
        self.period = period;
    }

    pub fn sample_num(&self) -> (num: Option<u8>)
        ensures
            num == self.num,
    {
        self.num
    }

    /// Mixes one tick of this channel into `buf`: for each of the
    /// `sample_rate / 50` output samples, advance the cursor by the
    /// fixed-point step for the channel's period and add the scaled waveform
    /// byte to the buffer — summing, not overwriting.  Stops early, adding
    /// nothing further, once the terminal no-loop state is reached.
    #[verifier::loop_isolation(false)]
    pub fn mix_sample_for_tick(&mut self, buf: &mut Vec<i16>, sample: &Waveform, sample_rate: u32)
        requires
            playable(*sample, old(self).period, sample_rate),
            cursor_ok(old(self).state.model(), *sample),
            samples_per_tick_of(sample_rate as int) <= old(buf)@.len(),
            forall|j: int| 0 <= j < old(buf)@.len() ==> -28688 <= #[trigger] old(buf)@[j] <= 28687,
        ensures
            final(buf)@.len() == old(buf)@.len(),
            forall|j: int|
                0 <= j < samples_per_tick_of(sample_rate as int) ==> final(buf)@[j] == old(buf)@[j]
                    + tick_contribution(
                    old(self).state.model(),
                    *sample,
                    step_int_of(old(self).period as int, sample_rate as int),
                    step_frac_of(old(self).period as int, sample_rate as int),
                    effective_volume(old(self).model(), *sample),
                    j as nat,
                ),
            forall|j: int|
                samples_per_tick_of(sample_rate as int) <= j < old(buf)@.len() ==> final(buf)@[j]
                    == old(buf)@[j],
            final(self).state.model() == cursor_after(
                old(self).state.model(),
                *sample,
                step_int_of(old(self).period as int, sample_rate as int),
                step_frac_of(old(self).period as int, sample_rate as int),
                samples_per_tick_of(sample_rate as int) as nat,
            ),
            cursor_ok(final(self).state.model(), *sample),
            final(self).num == old(self).num,
            final(self).period == old(self).period,
            final(self).volume == old(self).volume,
    {
        let ghost c0 = self.state.model();
        let ghost si = step_int_of(self.period as int, sample_rate as int);
        let ghost sf = step_frac_of(self.period as int, sample_rate as int);
        proof {
            lemma_playable_bounds(*sample, self.period, sample_rate);
        }
        let (inc_rate, inc_rate_frac) = compute_step(self.period, sample_rate);
        let n32 = samples_per_tick(sample_rate);
        let n = n32 as usize;
        let vol: u8 = match self.volume {
            Some(v) => v,
            None => sample.base_volume,
        };

        let mut i: usize = 0;
        while i < n && !(sample.repeat_length_units <= 2 && self.state.looped_yet)
            invariant
                i <= n,
                buf@.len() == old(buf)@.len(),
                self.state.model() == cursor_after(c0, *sample, si, sf, i as nat),
                cursor_ok(self.state.model(), *sample),
                self.num == old(self).num,
                self.period == old(self).period,
                self.volume == old(self).volume,
                forall|j: int|
                    0 <= j < i ==> buf@[j] == old(buf)@[j] + tick_contribution(
                        c0,
                        *sample,
                        si,
                        sf,
                        vol as int,
                        j as nat,
                    ),
                forall|j: int| i <= j < buf@.len() ==> buf@[j] == old(buf)@[j],
            decreases n - i,
        {
            let ghost prev = self.state.model();
            assert(!stopped(prev, *sample));

            // Advance the 8-bit phase accumulator with wraparound carry.
            let s: u16 = self.state.sample_frac as u16 + inc_rate_frac as u16;
            let carry: u16 = if s >= 256 {
                1
            } else {
                0
            };
            self.state.sample_frac = (s % 256) as u8;
            self.state.sample_offset = self.state.sample_offset + inc_rate + carry;

            // Loop resolution: first wrap carries the overshoot into the
            // repeat region; later wraps subtract the repeat length.
            if self.state.sample_offset >= 2 * sample.length_units && !self.state.looped_yet {
                self.state.looped_yet = true;
                self.state.sample_offset = 2 * sample.repeat_start_units + (
                self.state.sample_offset - 2 * sample.length_units);
            } else if self.state.looped_yet && self.state.sample_offset >= 2
                * sample.repeat_start_units + 2 * sample.repeat_length_units {
                self.state.sample_offset = self.state.sample_offset - 2
                    * sample.repeat_length_units;
            }
            proof {
                assert(self.state.model() == cursor_step(prev, *sample, si, sf));
                lemma_cursor_step_ok(prev, *sample, si, sf);
            }

            let raw: i8 = sample.data[self.state.sample_offset as usize];
            proof {
                assert(-32640 <= (vol as int) * (raw as int) <= 32385) by (nonlinear_arith)
                    requires
                        0 <= vol <= 255,
                        -128 <= raw <= 127,
                ;
            }
            let prod: i32 = (vol as i32) * (raw as i32);
            let scaled: i32 = if prod >= 0 {
                ((prod as u32) / 64) as i32
            } else {
                -((((-prod) as u32) / 64) as i32)
            };
            proof {
                assert(scaled == trunc_div_64(prod as int));
                assert(-510 <= scaled <= 506);
            }
            let boosted: i16 = (scaled * 8) as i16;
            let cur: i16 = buf[i];
            buf[i] = cur + boosted;
            assert(buf@[i as int] == old(buf)@[i as int] + tick_contribution(
                c0,
                *sample,
                si,
                sf,
                vol as int,
                i as nat,
            ));

            i = i + 1;
        }

        proof {
            assert(vol as int == effective_volume(old(self).model(), *sample));
            if i < n {
                assert(stopped(cursor_after(c0, *sample, si, sf, i as nat), *sample));
                assert forall|j: int| i <= j < n implies #[trigger] tick_contribution(
                    c0,
                    *sample,
                    si,
                    sf,
                    vol as int,
                    j as nat,
                ) == 0 by {
                    lemma_contributions_after_stop(c0, *sample, si, sf, vol as int, i as nat, j as nat);
                }
                lemma_contributions_after_stop(c0, *sample, si, sf, vol as int, i as nat, n as nat);
            }
        }
    }
}

} // verus!
