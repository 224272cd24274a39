//! The playback driver: walks the song's position list, drives the row
//! sequencer over each pattern's rows, and honors pattern-break jumps — a
//! jump abandons the rest of the current pattern and resumes at the given
//! row of the next position's pattern.

use vstd::prelude::*;
use crate::channel::{
    lemma_playable_bounds, start_cursor, ChannelModel, ChannelState,
};
use crate::pitch::samples_per_tick_of;
use crate::row::{
    channel_models, channel_pitches, channel_ready, channels_after_commands, channels_after_ticks,
    drive_row, lemma_pitches_after_commands, lemma_pitches_after_ticks, pitch_after_command,
    pitch_of, pitches_after_commands, row_action, row_action_from, row_fatal, row_fatal_from,
    speed_after_row, ticks_output, ChannelPitch, NextAction, Row,
};
use crate::sink::PushSamples;
use crate::waveform::{playable, playable_check, Waveform};

verus! {

/// One pattern: an ordered sequence of rows.
#[derive(Clone, Debug)]
pub struct Pattern {
    pub rows: Vec<Row>,
}

/// A whole song: the position list (each entry names a pattern), its
/// declared usable length, the patterns, and the waveform table (waveform
/// ids in commands are 1-based; 0 means "keep the current waveform").
#[derive(Clone, Debug)]
pub struct Song {
    pub positions: Vec<u8>,
    pub length: u8,
    pub patterns: Vec<Pattern>,
    pub waveforms: Vec<Waveform>,
}

/// A freshly created channel: silent, pitchless, no volume override.
pub open spec fn init_channel() -> ChannelModel {
    ChannelModel { cursor: start_cursor(), num: None, period: 0u16, volume: None }
}

/// The four channels at sequencer start.
pub open spec fn init_channels() -> Seq<ChannelModel> {
    seq![init_channel(), init_channel(), init_channel(), init_channel()]
}

/// A freshly created channel's pitch state.
pub open spec fn init_pitch() -> ChannelPitch {
    ChannelPitch { num: None, period: 0u16 }
}

/// The four channels' pitch states at sequencer start.
pub open spec fn init_pitches() -> Seq<ChannelPitch> {
    seq![init_pitch(), init_pitch(), init_pitch(), init_pitch()]
}

/// A pitch state the mixer can honor: the channel is silent, or its waveform
/// id resolves in the table and that waveform is playable at the channel's
/// current period.
pub open spec fn pitch_ok(np: ChannelPitch, ws: Seq<Waveform>, rate: u32) -> bool {
    match np.num {
        None => true,
        Some(n) => {
            &&& 1 <= n
            &&& n as int <= ws.len()
            &&& playable(ws[n as int - 1], np.period, rate)
        },
    }
}

/// The rows of the pattern at position `pos` of the song's position list.
pub open spec fn pattern_rows_of(song: Song, pos: int) -> Seq<Row> {
    song.patterns@[song.positions@[pos] as int].rows@
}

/// Whether the driver can honor the song from position `pos` on, about to
/// enter that position's pattern at row offset `skip`, with the four
/// channels in the given pitch states.  Commands are the only thing that
/// moves a channel's pitch state, and control flow depends on effects alone,
/// so playback follows one deterministic path; this predicate follows that
/// same path, through jumps, retained periods and skipped patterns alike.
/// Waveforms no visited row triggers, and patterns no used position names,
/// are never consulted.
pub open spec fn song_safe(
    song: Song,
    nps: Seq<ChannelPitch>,
    pos: nat,
    skip: nat,
    rate: u32,
) -> bool
    decreases
            song.length as int - pos,
            pattern_rows_of(song, pos as int).len() as int - skip + 1,
{
    if pos >= song.length as nat {
        true
    } else if skip >= pattern_rows_of(song, pos as int).len() {
        song_safe(song, nps, (pos + 1) as nat, skip, rate)
    } else {
        pattern_safe(song, nps, pos, skip, rate)
    }
}

/// Whether the driver can honor row `r` of the pattern at position `pos` and
/// everything the playback path visits after it: the row has four commands,
/// carries no fatal extended effect before its first pattern break, and its
/// pre-tick phase leaves every channel in a pitch state the mixer can honor.
pub open spec fn pattern_safe(
    song: Song,
    nps: Seq<ChannelPitch>,
    pos: nat,
    r: nat,
    rate: u32,
) -> bool
    decreases song.length as int - pos, pattern_rows_of(song, pos as int).len() as int - r,
{
    let rows = pattern_rows_of(song, pos as int);
    if pos >= song.length as nat {
        true
    } else if r >= rows.len() {
        song_safe(song, nps, (pos + 1) as nat, 0, rate)
    } else {
        let row = rows[r as int];
        let nps1 = pitches_after_commands(nps, row);
        &&& row.channels@.len() == 4
        &&& !row_fatal(row)
        &&& (forall|k: int| 0 <= k < 4 ==> pitch_ok(#[trigger] nps1[k], song.waveforms@, rate))
        &&& match row_action(row) {
            NextAction::Continue => pattern_safe(song, nps1, pos, (r + 1) as nat, rate),
            NextAction::Jump(o) => song_safe(song, nps1, (pos + 1) as nat, o as nat, rate),
        }
    }
}

/// A song the playback driver can honor at host rate `rate`: the declared
/// length fits the position list, every listed position names a pattern, and
/// every row on the playback path can be honored.  A song whose path carries
/// the fatal extended effect is refused here, before any audio, rather than
/// aborted in the middle of playback.
pub open spec fn song_ok(song: Song, rate: u32) -> bool {
    &&& song.length as int <= song.positions@.len()
    &&& forall|p: int|
        0 <= p < song.length as int ==> ((#[trigger] song.positions@[p]) as int)
            < song.patterns@.len()
    &&& song_safe(song, init_pitches(), 0, 0, rate)
}

/// Every sample the song delivers to the sink from position `pos` on, about
/// to enter that position's pattern at row offset `skip`.  A row offset that
/// overshoots the pattern skips the whole pattern and carries over to the
/// next position, as the sequencer's row iteration does.
pub open spec fn song_trace(
    song: Song,
    chs: Seq<ChannelModel>,
    speed: u8,
    pos: nat,
    skip: nat,
    len: nat,
    rate: u32,
) -> Seq<i16>
    decreases
            song.length as int - pos,
            pattern_rows_of(song, pos as int).len() as int - skip + 1,
{
    if pos >= song.length as nat {
        Seq::<i16>::empty()
    } else if skip >= pattern_rows_of(song, pos as int).len() {
        song_trace(song, chs, speed, (pos + 1) as nat, skip, len, rate)
    } else {
        pattern_trace(song, chs, speed, pos, skip, len, rate)
    }
}

/// Every sample the song delivers from row `r` of the pattern at position
/// `pos` on: the row's ticks, then — depending on the row's outcome — either
/// the rest of this pattern, or the next position's pattern from the jump
/// target.  A pattern finished normally hands over to the next position from
/// its top.
pub open spec fn pattern_trace(
    song: Song,
    chs: Seq<ChannelModel>,
    speed: u8,
    pos: nat,
    r: nat,
    len: nat,
    rate: u32,
) -> Seq<i16>
    decreases song.length as int - pos, pattern_rows_of(song, pos as int).len() as int - r,
{
    let rows = pattern_rows_of(song, pos as int);
    if pos >= song.length as nat {
        Seq::<i16>::empty()
    } else if r >= rows.len() {
        song_trace(song, chs, speed, (pos + 1) as nat, 0, len, rate)
    } else {
        let row = rows[r as int];
        let chs1 = channels_after_commands(chs, row);
        let out = ticks_output(chs1, song.waveforms@, rate, len, speed as nat);
        let chs2 = channels_after_ticks(chs1, song.waveforms@, rate, speed as nat);
        let speed2 = speed_after_row(row, speed);
        match row_action(row) {
            NextAction::Continue => out + pattern_trace(
                song,
                chs2,
                speed2,
                pos,
                (r + 1) as nat,
                len,
                rate,
            ),
            NextAction::Jump(o) => out + song_trace(
                song,
                chs2,
                speed2,
                (pos + 1) as nat,
                o as nat,
                len,
                rate,
            ),
        }
    }
}

/// Applying a row's commands to ready channels leaves them ready, provided
/// the pitch states the commands produce can be honored.
proof fn lemma_commands_keep_ready(
    chs: Seq<ChannelModel>,
    row: Row,
    ws: Seq<Waveform>,
    rate: u32,
)
    requires
        chs.len() == 4,
        row.channels@.len() == 4,
        forall|k: int| 0 <= k < 4 ==> channel_ready(#[trigger] chs[k], ws, rate),
        forall|k: int|
            0 <= k < 4 ==> pitch_ok(
                #[trigger] pitches_after_commands(channel_pitches(chs), row)[k],
                ws,
                rate,
            ),
    ensures
        forall|k: int|
            0 <= k < 4 ==> channel_ready(
                #[trigger] channels_after_commands(chs, row)[k],
                ws,
                rate,
            ),
{
    assert forall|k: int| 0 <= k < 4 implies channel_ready(
        #[trigger] channels_after_commands(chs, row)[k],
        ws,
        rate,
    ) by {
        let after = channels_after_commands(chs, row)[k];
        let np1 = pitches_after_commands(channel_pitches(chs), row)[k];
        assert(pitch_ok(np1, ws, rate));
        assert(np1 == pitch_after_command(pitch_of(chs[k]), row.channels@[k]));
        assert(pitch_of(after) == np1);
        match after.num {
            None => {},
            Some(n) => {
                assert(playable(ws[n as int - 1], after.period, rate));
                lemma_playable_bounds(ws[n as int - 1], after.period, rate);
            },
        }
    }
}

/// Plays the whole song into the sink: positions in order up to the declared
/// length, each pattern row by row at the current speed, honoring pattern
/// breaks.  Everything the sink receives is exactly the song's trace.
#[verifier::loop_isolation(false)]
pub fn play_mod<S: PushSamples>(
    song: &Song,
    sink: &mut S,
    mixing_buf: &mut Vec<i16>,
    sample_rate: u32,
)
    requires
        song_ok(*song, sample_rate),
        samples_per_tick_of(sample_rate as int) <= old(mixing_buf)@.len(),
    ensures
        final(sink).pushed() == old(sink).pushed() + song_trace(
            *song,
            init_channels(),
            6,
            0,
            0,
            old(mixing_buf)@.len(),
            sample_rate,
        ),
        final(mixing_buf)@.len() == old(mixing_buf)@.len(),
{
    let ghost total = song_trace(
        *song,
        init_channels(),
        6,
        0,
        0,
        old(mixing_buf)@.len(),
        sample_rate,
    );
    let ghost len = old(mixing_buf)@.len();

    let mut speed: u8 = 6;
    let mut channels: Vec<ChannelState> = Vec::new();
    channels.push(ChannelState::new());
    channels.push(ChannelState::new());
    channels.push(ChannelState::new());
    channels.push(ChannelState::new());
    proof {
        assert(channel_models(channels@) =~= init_channels());
        assert(channel_pitches(channel_models(channels@)) =~= init_pitches());
    }

    let mut pos: usize = 0;
    let mut skip: usize = 0;
    while pos < song.length as usize
        invariant
            channels@.len() == 4,
            mixing_buf@.len() == len,
            forall|k: int|
                0 <= k < 4 ==> channel_ready(
                    #[trigger] channel_models(channels@)[k],
                    song.waveforms@,
                    sample_rate,
                ),
            song_safe(
                *song,
                channel_pitches(channel_models(channels@)),
                pos as nat,
                skip as nat,
                sample_rate,
            ),
            old(sink).pushed() + total == sink.pushed() + song_trace(
                *song,
                channel_models(channels@),
                speed,
                pos as nat,
                skip as nat,
                len,
                sample_rate,
            ),
        decreases song.length as int - pos,
    {
        let pidx = song.positions[pos] as usize;
        let pat = &song.patterns[pidx];
        let nrows = pat.rows.len();
        if skip >= nrows {
            pos = pos + 1;
        } else {
            let mut r: usize = skip;
            let mut jumped: bool = false;
            while r < nrows && !jumped
                invariant
                    channels@.len() == 4,
                    mixing_buf@.len() == len,
                    pos < song.length as usize,
                    pidx == song.positions@[pos as int] as usize,
                    nrows == pattern_rows_of(*song, pos as int).len(),
                    forall|k: int|
                        0 <= k < 4 ==> channel_ready(
                            #[trigger] channel_models(channels@)[k],
                            song.waveforms@,
                            sample_rate,
                        ),
                    !jumped ==> pattern_safe(
                        *song,
                        channel_pitches(channel_models(channels@)),
                        pos as nat,
                        r as nat,
                        sample_rate,
                    ),
                    jumped ==> song_safe(
                        *song,
                        channel_pitches(channel_models(channels@)),
                        (pos + 1) as nat,
                        skip as nat,
                        sample_rate,
                    ),
                    !jumped ==> old(sink).pushed() + total == sink.pushed() + pattern_trace(
                        *song,
                        channel_models(channels@),
                        speed,
                        pos as nat,
                        r as nat,
                        len,
                        sample_rate,
                    ),
                    jumped ==> old(sink).pushed() + total == sink.pushed() + song_trace(
                        *song,
                        channel_models(channels@),
                        speed,
                        (pos + 1) as nat,
                        skip as nat,
                        len,
                        sample_rate,
                    ),
                decreases nrows - r, (if jumped { 0int } else { 1int }),
            {
                let row = &pat.rows[r];
                let ghost chs0 = channel_models(channels@);
                let ghost nps0 = channel_pitches(chs0);
                let ghost speed0 = speed;
                proof {
                    assert(pattern_safe(*song, nps0, pos as nat, r as nat, sample_rate));
                    lemma_commands_keep_ready(chs0, *row, song.waveforms@, sample_rate);
                }
                let action = drive_row(
                    sink,
                    mixing_buf,
                    row,
                    &mut channels,
                    &song.waveforms,
                    &mut speed,
                    sample_rate,
                );
                proof {
                    crate::row::lemma_ready_after_ticks(
                        channels_after_commands(chs0, *row),
                        song.waveforms@,
                        sample_rate,
                        speed0 as nat,
                    );
                    lemma_pitches_after_commands(chs0, *row);
                    lemma_pitches_after_ticks(
                        channels_after_commands(chs0, *row),
                        song.waveforms@,
                        sample_rate,
                        speed0 as nat,
                    );
                    assert(channel_pitches(channel_models(channels@)) == pitches_after_commands(
                        nps0,
                        *row,
                    ));
                }
                match action {
                    NextAction::Continue => {
                        r = r + 1;
                    },
                    NextAction::Jump(o) => {
                        skip = o;
                        jumped = true;
                    },
                }
            }
            if jumped {
                pos = pos + 1;
            } else {
                skip = 0;
                pos = pos + 1;
            }
        }
    }
    proof {
        assert(song_trace(
            *song,
            channel_models(channels@),
            speed,
            pos as nat,
            skip as nat,
            len,
            sample_rate,
        ) == Seq::<i16>::empty());
        assert(sink.pushed() + Seq::<i16>::empty() =~= sink.pushed());
        assert(old(sink).pushed() + total == sink.pushed());
    }
}

/// Decides whether the row carries the fatal extended effect before any
/// pattern break.
#[verifier::loop_isolation(false)]
pub fn row_fatal_check(row: &Row) -> (f: bool)
    requires
        row.channels@.len() == 4,
    ensures
        f == row_fatal(*row),
{
    let mut k: usize = 0;
    while k < 4
        invariant
            k <= 4,
            row_fatal(*row) == row_fatal_from(*row, k as nat),
        decreases 4 - k,
    {
        let e = row.channels[k].effect;
        let eno = (e / 256) % 16;
        if eno == 0xd {
            return false;
        } else if eno == 0xe && (e / 16) % 16 == 15 {
            return true;
        }
        k = k + 1;
    }
    false
}

/// Computes the row's control-flow outcome, as the sequencer's post-tick
/// scan decides it.
#[verifier::loop_isolation(false)]
fn row_action_of(row: &Row) -> (a: NextAction)
    requires
        row.channels@.len() == 4,
    ensures
        a == row_action(*row),
{
    let mut k: usize = 0;
    while k < 4
        invariant
            k <= 4,
            row_action(*row) == row_action_from(*row, k as nat),
        decreases 4 - k,
    {
        let e = row.channels[k].effect;
        if (e / 256) % 16 == 0xd {
            let ex = ((e / 16) % 16) as u8;
            let ey = (e % 16) as u8;
            return NextAction::Jump((ex * 10 + ey) as usize);
        }
        k = k + 1;
    }
    NextAction::Continue
}

/// Decides `song_ok`: whether the playback driver can honor the whole song
/// at the given host rate.  It walks the one path playback takes — the same
/// positions, rows, jumps and retained periods — checking each visited row,
/// without mixing anything.  A caller that cannot prove the driver's
/// precondition checks it here first.
#[verifier::loop_isolation(false)]
pub fn song_ok_check(song: &Song, sample_rate: u32) -> (ok: bool)
    ensures
        ok == song_ok(*song, sample_rate),
{
    if song.length as usize > song.positions.len() {
        return false;
    }
    let mut p: usize = 0;
    while p < song.length as usize
        invariant
            p <= song.length as usize,
            forall|l: int|
                0 <= l < p ==> ((#[trigger] song.positions@[l]) as int) < song.patterns@.len(),
        decreases song.length as int - p,
    {
        if song.positions[p] as usize >= song.patterns.len() {
            return false;
        }
        p = p + 1;
    }

    let mut nps: Vec<ChannelPitch> = Vec::new();
    nps.push(ChannelPitch { num: None, period: 0 });
    nps.push(ChannelPitch { num: None, period: 0 });
    nps.push(ChannelPitch { num: None, period: 0 });
    nps.push(ChannelPitch { num: None, period: 0 });
    proof {
        assert(nps@ =~= init_pitches());
    }

    let mut pos: usize = 0;
    let mut skip: usize = 0;
    while pos < song.length as usize
        invariant
            nps@.len() == 4,
            song_safe(*song, init_pitches(), 0, 0, sample_rate) == song_safe(
                *song,
                nps@,
                pos as nat,
                skip as nat,
                sample_rate,
            ),
        decreases song.length as int - pos,
    {
        let pidx = song.positions[pos] as usize;
        let pat = &song.patterns[pidx];
        let nrows = pat.rows.len();
        if skip >= nrows {
            pos = pos + 1;
        } else {
            let mut r: usize = skip;
            let mut jumped: bool = false;
            while r < nrows && !jumped
                invariant
                    nps@.len() == 4,
                    pos < song.length as usize,
                    pidx == song.positions@[pos as int] as usize,
                    nrows == pattern_rows_of(*song, pos as int).len(),
                    !jumped ==> song_safe(*song, init_pitches(), 0, 0, sample_rate)
                        == pattern_safe(*song, nps@, pos as nat, r as nat, sample_rate),
                    jumped ==> song_safe(*song, init_pitches(), 0, 0, sample_rate) == song_safe(
                        *song,
                        nps@,
                        (pos + 1) as nat,
                        skip as nat,
                        sample_rate,
                    ),
                decreases nrows - r, (if jumped { 0int } else { 1int }),
            {
                let row = &pat.rows[r];
                if row.channels.len() != 4 {
                    return false;
                }
                if row_fatal_check(row) {
                    return false;
                }
                let ghost nps0 = nps@;
                let mut k: usize = 0;
                while k < 4
                    invariant
                        k <= 4,
                        nps@.len() == 4,
                        forall|l: int|
                            0 <= l < k ==> nps@[l] == #[trigger] pitches_after_commands(
                                nps0,
                                *row,
                            )[l],
                        forall|l: int| k <= l < 4 ==> nps@[l] == nps0[l],
                        forall|l: int|
                            0 <= l < k ==> pitch_ok(
                                #[trigger] pitches_after_commands(nps0, *row)[l],
                                song.waveforms@,
                                sample_rate,
                            ),
                    decreases 4 - k,
                {
                    let cmd = row.channels[k];
                    let mut np = nps[k];
                    if cmd.sample_number != 0 {
                        np = ChannelPitch { num: Some(cmd.sample_number), period: np.period };
                    }
                    if cmd.period != 0 {
                        np = ChannelPitch { num: np.num, period: cmd.period };
                    }
                    proof {
                        assert(np == pitch_after_command(nps0[k as int], row.channels@[k as int]));
                    }
                    match np.num {
                        None => {},
                        Some(n) => {
                            if !(1 <= n && (n as usize) <= song.waveforms.len()) {
                                proof {
                                    assert(pitches_after_commands(nps0, *row)[k as int] == np);
                                    assert(!pitch_ok(np, song.waveforms@, sample_rate));
                                    assert(!pattern_safe(*song, nps0, pos as nat, r as nat, sample_rate));
                                }
                                return false;
                            }
                            if !playable_check(
                                &song.waveforms[(n - 1) as usize],
                                np.period,
                                sample_rate,
                            ) {
                                proof {
                                    assert(pitches_after_commands(nps0, *row)[k as int] == np);
                                    assert(!pitch_ok(np, song.waveforms@, sample_rate));
                                    assert(!pattern_safe(*song, nps0, pos as nat, r as nat, sample_rate));
                                }
                                return false;
                            }
                        },
                    }
                    nps[k] = np;
                    k = k + 1;
                }
                proof {
                    assert(nps@ =~= pitches_after_commands(nps0, *row));
                }
                match row_action_of(row) {
                    NextAction::Continue => {
                        r = r + 1;
                    },
                    NextAction::Jump(o) => {
                        skip = o;
                        jumped = true;
                    },
                }
            }
            if jumped {
                pos = pos + 1;
            } else {
                skip = 0;
                pos = pos + 1;
            }
        }
    }
    true
}

} // verus!
