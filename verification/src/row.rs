//! The row sequencer: applies one song row's four channel commands, drives
//! the row's ticks through the mixer into a sink, and reports the row-level
//! control-flow outcome (continue, or jump into the next position's pattern).

use vstd::prelude::*;
use crate::channel::{
    cursor_after, cursor_ok, effective_volume, lemma_contribution_bounds,
    lemma_cursor_wrap_invariant, start_cursor, tick_contribution, ChannelModel, ChannelState,
};
use crate::pitch::{samples_per_tick_of, step_frac_of, step_int_of};
use crate::sink::PushSamples;
use crate::waveform::{playable, Waveform};

verus! {

/// One channel's command in one row: which waveform to trigger (0 = keep the
/// current one), what pitch (0 = keep the current one), and a 12-bit effect.
#[derive(Copy, Clone, Debug)]
pub struct ChannelCommand {
    pub sample_number: u8,
    pub period: u16,
    pub effect: u16,
}

/// One row of a pattern: exactly one command per playback channel.
#[derive(Clone, Debug)]
pub struct Row {
    pub channels: Vec<ChannelCommand>,
}

/// Top nibble of a 12-bit effect: the effect number.
pub open spec fn effect_no(e: u16) -> u16 {
    (e / 256) % 16
}

/// Second nibble of the effect: its first argument.
pub open spec fn effect_x(e: u16) -> u16 {
    (e / 16) % 16
}

/// Low nibble of the effect: its second argument.
pub open spec fn effect_y(e: u16) -> u16 {
    e % 16
}

/// Low byte of the effect: both arguments together.
pub open spec fn effect_xy(e: u16) -> u16 {
    e % 256
}

/// What the row sequencer reports to the playback driver after a row: carry
/// on with the next row, or abandon the pattern and resume at the given row
/// of the next position's pattern.
#[derive(Copy, Clone, PartialEq, Eq, Structural, Debug)]
pub enum NextAction {
    Continue,
    Jump(usize),
}

/// A channel after the row's pre-tick phase: a nonzero waveform id triggers a
/// restart (clearing any volume override), a nonzero period retunes, and the
/// set-volume effect overrides the volume.
pub open spec fn channel_after_command(ch: ChannelModel, cmd: ChannelCommand) -> ChannelModel {
    let ch1 = if cmd.sample_number != 0 {
        ChannelModel {
            cursor: start_cursor(),
            num: Some(cmd.sample_number),
            period: ch.period,
            volume: None,
        }
    } else {
        ch
    };
    let ch2 = if cmd.period != 0 {
        ChannelModel { period: cmd.period, ..ch1 }
    } else {
        ch1
    };
    if effect_no(cmd.effect) == 0xc {
        ChannelModel { volume: Some(effect_xy(cmd.effect) as u8), ..ch2 }
    } else {
        ch2
    }
}

/// The models of a sequence of channels.
pub open spec fn channel_models(chs: Seq<ChannelState>) -> Seq<ChannelModel> {
    Seq::new(chs.len(), |k: int| chs[k].model())
}

/// The part of a channel's state that decides whether it can be mixed: its
/// waveform selection and its pitch.  Commands are the only thing that
/// changes it — ticks move only the cursor — so walking the song's rows over
/// these states is enough to decide whether playback can be honored.
#[derive(Copy, Clone, Debug)]
pub struct ChannelPitch {
    pub num: Option<u8>,
    pub period: u16,
}

/// The pitch state of a channel.
pub open spec fn pitch_of(ch: ChannelModel) -> ChannelPitch {
    ChannelPitch { num: ch.num, period: ch.period }
}

/// The pitch states of a sequence of channels.
pub open spec fn channel_pitches(chs: Seq<ChannelModel>) -> Seq<ChannelPitch> {
    Seq::new(chs.len(), |k: int| pitch_of(chs[k]))
}

/// A channel's pitch state after one row command: a nonzero waveform id
/// selects that waveform, a nonzero period retunes.
pub open spec fn pitch_after_command(np: ChannelPitch, cmd: ChannelCommand) -> ChannelPitch {
    let np1 = if cmd.sample_number != 0 {
        ChannelPitch { num: Some(cmd.sample_number), period: np.period }
    } else {
        np
    };
    if cmd.period != 0 {
        ChannelPitch { num: np1.num, period: cmd.period }
    } else {
        np1
    }
}

/// All four pitch states after the row's pre-tick phase.
pub open spec fn pitches_after_commands(nps: Seq<ChannelPitch>, row: Row) -> Seq<ChannelPitch> {
    Seq::new(nps.len(), |k: int| pitch_after_command(nps[k], row.channels@[k]))
}

/// The pre-tick phase changes pitch states exactly as `pitch_after_command`
/// says.
pub proof fn lemma_pitches_after_commands(chs: Seq<ChannelModel>, row: Row)
    ensures
        channel_pitches(channels_after_commands(chs, row)) == pitches_after_commands(
            channel_pitches(chs),
            row,
        ),
{
    assert(channel_pitches(channels_after_commands(chs, row)) =~= pitches_after_commands(
        channel_pitches(chs),
        row,
    ));
}

/// Ticks leave every channel's pitch state untouched.
pub proof fn lemma_pitches_after_ticks(chs: Seq<ChannelModel>, ws: Seq<Waveform>, rate: u32, t: nat)
    ensures
        channel_pitches(channels_after_ticks(chs, ws, rate, t)) == channel_pitches(chs),
    decreases t,
{
    if t > 0 {
        lemma_pitches_after_ticks(chs, ws, rate, (t - 1) as nat);
        assert(channel_pitches(channels_after_ticks(chs, ws, rate, t)) =~= channel_pitches(
            channels_after_ticks(chs, ws, rate, (t - 1) as nat),
        ));
    }
}

/// All four channels after the row's pre-tick phase.
pub open spec fn channels_after_commands(chs: Seq<ChannelModel>, row: Row) -> Seq<ChannelModel> {
    Seq::new(chs.len(), |k: int| channel_after_command(chs[k], row.channels@[k]))
}

/// A channel is ready to mix: either silent, or its waveform id resolves,
/// its waveform is playable at its period, and its cursor is valid.
pub open spec fn channel_ready(ch: ChannelModel, ws: Seq<Waveform>, rate: u32) -> bool {
    match ch.num {
        None => true,
        Some(n) => {
            &&& 1 <= n
            &&& n as int <= ws.len()
            &&& playable(ws[n as int - 1], ch.period, rate)
            &&& cursor_ok(ch.cursor, ws[n as int - 1])
        },
    }
}

/// What one channel adds to the mixing buffer at sample `i` of a tick: a
/// silent channel adds nothing.
pub open spec fn channel_contribution(ch: ChannelModel, ws: Seq<Waveform>, rate: u32, i: nat) -> int {
    match ch.num {
        None => 0,
        Some(n) => tick_contribution(
            ch.cursor,
            ws[n as int - 1],
            step_int_of(ch.period as int, rate as int),
            step_frac_of(ch.period as int, rate as int),
            effective_volume(ch, ws[n as int - 1]),
            i,
        ),
    }
}

/// One channel after one tick: its cursor has advanced a tick's worth of
/// samples through its waveform; a silent channel is unchanged.
pub open spec fn channel_after_tick(ch: ChannelModel, ws: Seq<Waveform>, rate: u32) -> ChannelModel {
    match ch.num {
        None => ch,
        Some(n) => ChannelModel {
            cursor: cursor_after(
                ch.cursor,
                ws[n as int - 1],
                step_int_of(ch.period as int, rate as int),
                step_frac_of(ch.period as int, rate as int),
                samples_per_tick_of(rate as int) as nat,
            ),
            ..ch
        },
    }
}

/// The sum of the first `k` channels' contributions at sample `i`.
pub open spec fn partial_tick_sample(
    chs: Seq<ChannelModel>,
    ws: Seq<Waveform>,
    rate: u32,
    i: nat,
    k: nat,
) -> int
    decreases k,
{
    if k == 0 {
        0
    } else {
        partial_tick_sample(chs, ws, rate, i, (k - 1) as nat) + channel_contribution(
            chs[k - 1],
            ws,
            rate,
            i,
        )
    }
}

/// The mixed value at sample `i` of one tick: the four channels are summed,
/// not overwritten.
pub open spec fn tick_sample(chs: Seq<ChannelModel>, ws: Seq<Waveform>, rate: u32, i: nat) -> int {
    partial_tick_sample(chs, ws, rate, i, 4)
}

/// The whole mixing buffer after one tick: mixed samples up to the tick
/// length, zeros beyond it (the buffer is zeroed once per tick before any
/// channel mixes into it).
pub open spec fn tick_buffer(
    chs: Seq<ChannelModel>,
    ws: Seq<Waveform>,
    rate: u32,
    len: nat,
) -> Seq<i16> {
    Seq::new(
        len,
        |i: int|
            if i < samples_per_tick_of(rate as int) {
                tick_sample(chs, ws, rate, i as nat) as i16
            } else {
                0i16
            },
    )
}

/// All channels after one tick.
pub open spec fn channels_after_tick(
    chs: Seq<ChannelModel>,
    ws: Seq<Waveform>,
    rate: u32,
) -> Seq<ChannelModel> {
    Seq::new(chs.len(), |k: int| channel_after_tick(chs[k], ws, rate))
}

/// All channels after `t` ticks.
pub open spec fn channels_after_ticks(
    chs: Seq<ChannelModel>,
    ws: Seq<Waveform>,
    rate: u32,
    t: nat,
) -> Seq<ChannelModel>
    decreases t,
{
    if t == 0 {
        chs
    } else {
        channels_after_tick(channels_after_ticks(chs, ws, rate, (t - 1) as nat), ws, rate)
    }
}

/// The samples `t` consecutive ticks hand to the sink, in order.
pub open spec fn ticks_output(
    chs: Seq<ChannelModel>,
    ws: Seq<Waveform>,
    rate: u32,
    len: nat,
    t: nat,
) -> Seq<i16>
    decreases t,
{
    if t == 0 {
        Seq::<i16>::empty()
    } else {
        tick_buffer(chs, ws, rate, len) + ticks_output(
            channels_after_tick(chs, ws, rate),
            ws,
            rate,
            len,
            (t - 1) as nat,
        )
    }
}

/// Folding the ticks from the front or from the back agrees.
proof fn lemma_channels_after_ticks_shift(
    chs: Seq<ChannelModel>,
    ws: Seq<Waveform>,
    rate: u32,
    t: nat,
)
    requires
        t >= 1,
    ensures
        channels_after_ticks(chs, ws, rate, t) == channels_after_ticks(
            channels_after_tick(chs, ws, rate),
            ws,
            rate,
            (t - 1) as nat,
        ),
    decreases t,
{
    let stepped = channels_after_tick(chs, ws, rate);
    if t == 1 {
        assert(channels_after_ticks(chs, ws, rate, 1) == channels_after_tick(
            channels_after_ticks(chs, ws, rate, 0),
            ws,
            rate,
        ));
        assert(channels_after_ticks(chs, ws, rate, 0) == chs);
        assert(channels_after_ticks(stepped, ws, rate, 0) == stepped);
    } else {
        lemma_channels_after_ticks_shift(chs, ws, rate, (t - 1) as nat);
        assert(channels_after_ticks(chs, ws, rate, t) == channels_after_tick(
            channels_after_ticks(chs, ws, rate, (t - 1) as nat),
            ws,
            rate,
        ));
        assert(channels_after_ticks(stepped, ws, rate, (t - 1) as nat) == channels_after_tick(
            channels_after_ticks(stepped, ws, rate, (t - 2) as nat),
            ws,
            rate,
        ));
    }
}

/// Peeling a tick off the end instead of the front.
proof fn lemma_ticks_output_snoc(
    chs: Seq<ChannelModel>,
    ws: Seq<Waveform>,
    rate: u32,
    len: nat,
    t: nat,
)
    ensures
        ticks_output(chs, ws, rate, len, (t + 1) as nat) == ticks_output(chs, ws, rate, len, t)
            + tick_buffer(channels_after_ticks(chs, ws, rate, t), ws, rate, len),
    decreases t,
{
    let stepped = channels_after_tick(chs, ws, rate);
    if t == 0 {
        assert(ticks_output(chs, ws, rate, len, 1) == tick_buffer(chs, ws, rate, len)
            + ticks_output(stepped, ws, rate, len, 0));
        assert(tick_buffer(chs, ws, rate, len) + Seq::<i16>::empty() =~= Seq::<i16>::empty()
            + tick_buffer(chs, ws, rate, len));
    } else {
        lemma_ticks_output_snoc(stepped, ws, rate, len, (t - 1) as nat);
        lemma_channels_after_ticks_shift(chs, ws, rate, t);
        let a = tick_buffer(chs, ws, rate, len);
        let b = ticks_output(stepped, ws, rate, len, (t - 1) as nat);
        let c = tick_buffer(channels_after_ticks(chs, ws, rate, t), ws, rate, len);
        assert(ticks_output(chs, ws, rate, len, (t + 1) as nat) == a + (b + c));
        assert(ticks_output(chs, ws, rate, len, t) == a + b);
        assert(a + (b + c) =~= (a + b) + c);
    }
}

/// A channel's contribution never exceeds the headroom bound.
proof fn lemma_channel_contribution_bounds(ch: ChannelModel, ws: Seq<Waveform>, rate: u32, i: nat)
    ensures
        -4080 <= channel_contribution(ch, ws, rate, i) <= 4048,
{
    match ch.num {
        None => {},
        Some(n) => {
            let w = ws[n as int - 1];
            lemma_contribution_bounds(
                ch.cursor,
                w,
                step_int_of(ch.period as int, rate as int),
                step_frac_of(ch.period as int, rate as int),
                effective_volume(ch, w),
                i,
            );
        },
    }
}

/// Partial mixes of up to four channels stay well inside `i16`.
proof fn lemma_partial_tick_sample_bounds(
    chs: Seq<ChannelModel>,
    ws: Seq<Waveform>,
    rate: u32,
    i: nat,
    k: nat,
)
    requires
        k <= 4,
    ensures
        -4080 * k <= partial_tick_sample(chs, ws, rate, i, k) <= 4048 * k,
    decreases k,
{
    if k > 0 {
        lemma_partial_tick_sample_bounds(chs, ws, rate, i, (k - 1) as nat);
        lemma_channel_contribution_bounds(chs[k - 1], ws, rate, i);
    }
}

/// Readiness survives a tick: the cursor invariant is preserved by any
/// number of mixing steps.
proof fn lemma_ready_after_tick(ch: ChannelModel, ws: Seq<Waveform>, rate: u32)
    requires
        channel_ready(ch, ws, rate),
    ensures
        channel_ready(channel_after_tick(ch, ws, rate), ws, rate),
{
    match ch.num {
        None => {},
        Some(n) => {
            lemma_cursor_wrap_invariant(
                ch.cursor,
                ws[n as int - 1],
                ch.period,
                rate,
                samples_per_tick_of(rate as int) as nat,
            );
        },
    }
}

/// Ready channels stay ready through any number of ticks.
pub proof fn lemma_ready_after_ticks(chs: Seq<ChannelModel>, ws: Seq<Waveform>, rate: u32, t: nat)
    requires
        forall|k: int| 0 <= k < chs.len() ==> channel_ready(#[trigger] chs[k], ws, rate),
    ensures
        channels_after_ticks(chs, ws, rate, t).len() == chs.len(),
        forall|k: int|
            0 <= k < chs.len() ==> channel_ready(
                #[trigger] channels_after_ticks(chs, ws, rate, t)[k],
                ws,
                rate,
            ),
    decreases t,
{
    if t > 0 {
        lemma_ready_after_ticks(chs, ws, rate, (t - 1) as nat);
        let prev = channels_after_ticks(chs, ws, rate, (t - 1) as nat);
        assert forall|k: int| 0 <= k < chs.len() implies channel_ready(
            #[trigger] channels_after_ticks(chs, ws, rate, t)[k],
            ws,
            rate,
        ) by {
            lemma_ready_after_tick(prev[k], ws, rate);
        }
    }
}

/// Mixing is additive: at every sample index, a tick mixed from two active
/// channels (the other two silent) equals the sum of what each channel
/// contributes alone — superposition of channels into the shared buffer.
pub proof fn lemma_mixing_superposition(
    a: ChannelModel,
    b: ChannelModel,
    silent: ChannelModel,
    ws: Seq<Waveform>,
    rate: u32,
    i: nat,
)
    requires
        silent.num is None,
    ensures
        tick_sample(seq![a, b, silent, silent], ws, rate, i) == channel_contribution(a, ws, rate, i)
            + channel_contribution(b, ws, rate, i),
{
    let chs = seq![a, b, silent, silent];
    assert(chs[0] == a && chs[1] == b && chs[2] == silent && chs[3] == silent);
    assert(partial_tick_sample(chs, ws, rate, i, 0) == 0);
    assert(partial_tick_sample(chs, ws, rate, i, 1) == channel_contribution(a, ws, rate, i));
    assert(partial_tick_sample(chs, ws, rate, i, 2) == channel_contribution(a, ws, rate, i)
        + channel_contribution(b, ws, rate, i));
    assert(channel_contribution(silent, ws, rate, i) == 0);
    assert(partial_tick_sample(chs, ws, rate, i, 3) == partial_tick_sample(chs, ws, rate, i, 2));
    assert(partial_tick_sample(chs, ws, rate, i, 4) == partial_tick_sample(chs, ws, rate, i, 3));
}

/// Zeroes the buffer, then mixes every channel with an active waveform into
/// it, summing; advances each mixed channel's cursor by one tick.
#[verifier::loop_isolation(false)]
fn mix_tick(
    channels: &mut Vec<ChannelState>,
    samples: &Vec<Waveform>,
    buf: &mut Vec<i16>,
    sample_rate: u32,
)
    requires
        old(channels)@.len() == 4,
        samples_per_tick_of(sample_rate as int) <= old(buf)@.len(),
        forall|k: int|
            0 <= k < 4 ==> channel_ready(
                #[trigger] channel_models(old(channels)@)[k],
                samples@,
                sample_rate,
            ),
    ensures
        final(buf)@ == tick_buffer(
            channel_models(old(channels)@),
            samples@,
            sample_rate,
            old(buf)@.len(),
        ),
        final(buf)@.len() == old(buf)@.len(),
        channel_models(final(channels)@) == channels_after_tick(
            channel_models(old(channels)@),
            samples@,
            sample_rate,
        ),
        final(channels)@.len() == 4,
{
    let ghost chs0 = channel_models(old(channels)@);
    let ghost spt = samples_per_tick_of(sample_rate as int);

    let mut j: usize = 0;
    while j < buf.len()
        invariant
            j <= buf@.len(),
            buf@.len() == old(buf)@.len(),
            forall|l: int| 0 <= l < j ==> buf@[l] == 0i16,
        decreases buf@.len() - j,
    {
        buf[j] = 0;
        j = j + 1;
    }

    let mut k: usize = 0;
    while k < 4
        invariant
            k <= 4,
            channels@.len() == 4,
            buf@.len() == old(buf)@.len(),
            forall|l: int| k <= l < 4 ==> channels@[l] == old(channels)@[l],
            forall|l: int|
                0 <= l < k ==> (#[trigger] channels@[l]).model() == channel_after_tick(
                    chs0[l],
                    samples@,
                    sample_rate,
                ),
            forall|i: int|
                0 <= i < spt && i < buf@.len() ==> buf@[i] == partial_tick_sample(
                    chs0,
                    samples@,
                    sample_rate,
                    i as nat,
                    k as nat,
                ),
            forall|i: int| spt <= i < buf@.len() ==> buf@[i] == 0i16,
        decreases 4 - k,
    {
        proof {
            assert forall|i: int| 0 <= i < buf@.len() implies -28688 <= #[trigger] buf@[i]
                <= 28687 by {
                if i < spt {
                    lemma_partial_tick_sample_bounds(chs0, samples@, sample_rate, i as nat, k as nat);
                }
            }
        }
        let ch = channels[k];
        match ch.num {
            Some(n) => {
                let mut ch2 = ch;
                let w = &samples[(n - 1) as usize];
                ch2.mix_sample_for_tick(buf, w, sample_rate);
                channels[k] = ch2;
            },
            None => {
            },
        }
        k = k + 1;
    }

    proof {
        let target = tick_buffer(chs0, samples@, sample_rate, old(buf)@.len());
        assert forall|i: int| 0 <= i < buf@.len() implies buf@[i] == target[i] by {
            if i < spt {
                assert(buf@[i] == partial_tick_sample(chs0, samples@, sample_rate, i as nat, 4));
            }
        }
        assert(buf@ =~= target);
        assert(channel_models(channels@) =~= channels_after_tick(chs0, samples@, sample_rate));
    }
}

/// Whether the row carries the fatal extended effect before any pattern
/// break: the one extended effect this player refuses to perform, which the
/// sequencer's precondition rules out.
pub open spec fn row_fatal_from(row: Row, k: nat) -> bool
    decreases 4 - k,
{
    if k >= 4 {
        false
    } else {
        let e = row.channels@[k as int].effect;
        if effect_no(e) == 0xd {
            false
        } else if effect_no(e) == 0xe && effect_x(e) == 15 {
            true
        } else {
            row_fatal_from(row, (k + 1) as nat)
        }
    }
}

pub open spec fn row_fatal(row: Row) -> bool {
    row_fatal_from(row, 0)
}

/// The row's control-flow outcome: the first pattern-break effect (channel
/// order 0..3) wins and jumps to row `x * 10 + y` — a decimal-digit
/// encoding, a deliberate quirk of the format — of the next position's
/// pattern; otherwise playback continues with the next row.
pub open spec fn row_action_from(row: Row, k: nat) -> NextAction
    decreases 4 - k,
{
    if k >= 4 {
        NextAction::Continue
    } else {
        let e = row.channels@[k as int].effect;
        if effect_no(e) == 0xd {
            NextAction::Jump((effect_x(e) * 10 + effect_y(e)) as usize)
        } else {
            row_action_from(row, (k + 1) as nat)
        }
    }
}

pub open spec fn row_action(row: Row) -> NextAction {
    row_action_from(row, 0)
}

/// The ticks-per-row speed after the row's post-tick phase: each set-speed
/// effect masks its argument to five bits and takes effect from the next row
/// on; a pattern break aborts the scan, so effects on later channels of the
/// row are not applied.
pub open spec fn speed_after_row_from(row: Row, k: nat, s: u8) -> u8
    decreases 4 - k,
{
    if k >= 4 {
        s
    } else {
        let e = row.channels@[k as int].effect;
        if effect_no(e) == 0xd {
            s
        } else if effect_no(e) == 0xf {
            speed_after_row_from(row, (k + 1) as nat, (effect_xy(e) % 32) as u8)
        } else {
            speed_after_row_from(row, (k + 1) as nat, s)
        }
    }
}

pub open spec fn speed_after_row(row: Row, s: u8) -> u8 {
    speed_after_row_from(row, 0, s)
}

/// Applies one row to all four channels and advances exactly `speed` ticks,
/// pushing each tick's mixed buffer to the sink; then applies the row's
/// deferred effects.  Reports whether the caller must perform a pattern
/// jump.  Recognized-but-unhandled effects change no state; diagnostics for
/// them are a caller's concern (the effect nibbles are plain field reads),
/// since this function's job is the state change and the mixed audio.
#[verifier::loop_isolation(false)]
pub fn drive_row<S: PushSamples>(
    sink: &mut S,
    mixing_buf: &mut Vec<i16>,
    row: &Row,
    channels: &mut Vec<ChannelState>,
    samples: &Vec<Waveform>,
    speed: &mut u8,
    sample_rate: u32,
) -> (action: NextAction)
    requires
        old(channels)@.len() == 4,
        row.channels@.len() == 4,
        samples_per_tick_of(sample_rate as int) <= old(mixing_buf)@.len(),
        !row_fatal(*row),
        forall|k: int|
            0 <= k < 4 ==> channel_ready(
                #[trigger] channels_after_commands(channel_models(old(channels)@), *row)[k],
                samples@,
                sample_rate,
            ),
    ensures
        final(sink).pushed() == old(sink).pushed() + ticks_output(
            channels_after_commands(channel_models(old(channels)@), *row),
            samples@,
            sample_rate,
            old(mixing_buf)@.len(),
            *old(speed) as nat,
        ),
        channel_models(final(channels)@) == channels_after_ticks(
            channels_after_commands(channel_models(old(channels)@), *row),
            samples@,
            sample_rate,
            *old(speed) as nat,
        ),
        final(channels)@.len() == 4,
        *final(speed) == speed_after_row(*row, *old(speed)),
        action == row_action(*row),
        final(mixing_buf)@.len() == old(mixing_buf)@.len(),
{
    let ghost chs1 = channels_after_commands(channel_models(old(channels)@), *row);

    // Pre-tick phase: apply each channel's command.
    let mut k: usize = 0;
    while k < 4
        invariant
            channels@.len() == 4,
            forall|l: int|
                0 <= l < k ==> (#[trigger] channels@[l]).model() == chs1[l],
            forall|l: int| k <= l < 4 ==> channels@[l] == old(channels)@[l],
        decreases 4 - k,
    {
        let cmd = row.channels[k];
        let mut ch = channels[k];
        if cmd.sample_number != 0 {
            ch.new_sample(cmd.sample_number);
        }
        if cmd.period != 0 {
            ch.set_period(cmd.period);
        }
        if (cmd.effect / 256) % 16 == 0xc {
            ch.set_volume((cmd.effect % 256) as u8);
        }
        channels[k] = ch;
        k = k + 1;
    }
    proof {
        assert(channel_models(channels@) =~= chs1);
    }

    // Tick phase: run the row's ticks through the mixer into the sink.
    let speed0: u8 = *speed;
    let mut tick: u8 = 0;
    while tick < speed0
        invariant
            tick <= speed0,
            channels@.len() == 4,
            mixing_buf@.len() == old(mixing_buf)@.len(),
            channel_models(channels@) == channels_after_ticks(
                chs1,
                samples@,
                sample_rate,
                tick as nat,
            ),
            forall|l: int|
                0 <= l < 4 ==> channel_ready(
                    #[trigger] channel_models(channels@)[l],
                    samples@,
                    sample_rate,
                ),
            sink.pushed() == old(sink).pushed() + ticks_output(
                chs1,
                samples@,
                sample_rate,
                old(mixing_buf)@.len(),
                tick as nat,
            ),
        decreases speed0 - tick,
    {
        mix_tick(channels, samples, mixing_buf, sample_rate);
        sink.push_samples(mixing_buf.as_slice());
        proof {
            lemma_ticks_output_snoc(
                chs1,
                samples@,
                sample_rate,
                old(mixing_buf)@.len(),
                tick as nat,
            );
            assert forall|l: int| 0 <= l < 4 implies channel_ready(
                #[trigger] channel_models(channels@)[l],
                samples@,
                sample_rate,
            ) by {
                lemma_ready_after_tick(
                    channels_after_ticks(chs1, samples@, sample_rate, tick as nat)[l],
                    samples@,
                    sample_rate,
                );
            }
        }
        tick = tick + 1;
    }

    // Post-tick phase: deferred effects, scanned in channel order; the first
    // pattern break aborts the scan.  The fatal extended effect cannot occur
    // here: the precondition rules it out.
    let mut s: u8 = speed0;
    let mut k2: usize = 0;
    while k2 < 4
        invariant
            k2 <= 4,
            row_action(*row) == row_action_from(*row, k2 as nat),
            speed_after_row(*row, speed0) == speed_after_row_from(*row, k2 as nat, s),
            !row_fatal_from(*row, k2 as nat),
            *speed == speed0,
        decreases 4 - k2,
    {
        let e = row.channels[k2].effect;
        let eno = (e / 256) % 16;
        if eno == 0xd {
            let ex = ((e / 16) % 16) as u8;
            let ey = (e % 16) as u8;
            *speed = s;
            return NextAction::Jump((ex * 10 + ey) as usize);
        } else if eno == 0xf {
            s = ((e % 256) % 32) as u8;
        }
        k2 = k2 + 1;
    }
    *speed = s;
    NextAction::Continue
}

/// One tick of a single channel on its own: zero the buffer, mix the channel
/// into it, and hand the buffer to the sink.
#[verifier::loop_isolation(false)]
pub fn play_tick<S: PushSamples>(
    sink: &mut S,
    mixing_buf: &mut Vec<i16>,
    cstate: &mut ChannelState,
    sample: &Waveform,
    sample_rate: u32,
)
    requires
        playable(*sample, old(cstate).period, sample_rate),
        cursor_ok(old(cstate).state.model(), *sample),
        samples_per_tick_of(sample_rate as int) <= old(mixing_buf)@.len(),
    ensures
        final(mixing_buf)@.len() == old(mixing_buf)@.len(),
        forall|j: int|
            0 <= j < samples_per_tick_of(sample_rate as int) ==> final(mixing_buf)@[j]
                == tick_contribution(
                old(cstate).state.model(),
                *sample,
                step_int_of(old(cstate).period as int, sample_rate as int),
                step_frac_of(old(cstate).period as int, sample_rate as int),
                effective_volume(old(cstate).model(), *sample),
                j as nat,
            ),
        forall|j: int|
            samples_per_tick_of(sample_rate as int) <= j < old(mixing_buf)@.len()
                ==> final(mixing_buf)@[j] == 0i16,
        final(sink).pushed() == old(sink).pushed() + final(mixing_buf)@,
        final(cstate).state.model() == cursor_after(
            old(cstate).state.model(),
            *sample,
            step_int_of(old(cstate).period as int, sample_rate as int),
            step_frac_of(old(cstate).period as int, sample_rate as int),
            samples_per_tick_of(sample_rate as int) as nat,
        ),
        cursor_ok(final(cstate).state.model(), *sample),
        final(cstate).num == old(cstate).num,
        final(cstate).period == old(cstate).period,
        final(cstate).volume == old(cstate).volume,
{
    let mut j: usize = 0;
    while j < mixing_buf.len()
        invariant
            j <= mixing_buf@.len(),
            mixing_buf@.len() == old(mixing_buf)@.len(),
            forall|l: int| 0 <= l < j ==> mixing_buf@[l] == 0i16,
        decreases mixing_buf@.len() - j,
    {
        mixing_buf[j] = 0;
        j = j + 1;
    }
    cstate.mix_sample_for_tick(mixing_buf, sample, sample_rate);
    sink.push_samples(mixing_buf.as_slice());
}

} // verus!
