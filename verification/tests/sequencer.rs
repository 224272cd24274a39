//! The row sequencer: commands and effects on one row.

use playmod::channel::ChannelState;
use playmod::row::{drive_row, play_tick, ChannelCommand, NextAction, Row};
use playmod::sink::CaptureSink;
use playmod::waveform::Waveform;

fn empty_cmd() -> ChannelCommand {
    ChannelCommand { sample_number: 0, period: 0, effect: 0 }
}

fn square_oneshot() -> Waveform {
    Waveform {
        length_units: 4,
        repeat_start_units: 0,
        repeat_length_units: 0,
        base_volume: 64,
        data: vec![10, -10, 10, -10, 10, -10, 10, -10],
    }
}

fn four_channels() -> Vec<ChannelState> {
    vec![
        ChannelState::new(),
        ChannelState::new(),
        ChannelState::new(),
        ChannelState::new(),
    ]
}

fn row_with_channel0(cmd: ChannelCommand) -> Row {
    Row { channels: vec![cmd, empty_cmd(), empty_cmd(), empty_cmd()] }
}

#[test]
fn row_runs_speed_ticks_and_mixes_trigger() {
    let mut sink = CaptureSink::new();
    let mut buf = vec![0i16; 160];
    let mut channels = four_channels();
    let waveforms = vec![square_oneshot()];
    let mut speed: u8 = 6;
    let row = row_with_channel0(ChannelCommand { sample_number: 1, period: 428, effect: 0 });
    let action = drive_row(
        &mut sink,
        &mut buf,
        &row,
        &mut channels,
        &waveforms,
        &mut speed,
        8000,
    );
    assert_eq!(action, NextAction::Continue);
    assert_eq!(speed, 6);
    assert_eq!(sink.samples.len(), 6 * 160);
    assert_eq!(&sink.samples[..8], &[-80, 80, -80, 80, -80, 80, -80, 80]);
    // The one-shot waveform has fallen silent within the first tick.
    assert!(sink.samples[8..].iter().all(|&v| v == 0));
    assert_eq!(channels[0].sample_num(), Some(1));
}

#[test]
fn volume_effect_overrides_base_volume() {
    let mut sink = CaptureSink::new();
    let mut buf = vec![0i16; 160];
    let mut channels = four_channels();
    let waveforms = vec![square_oneshot()];
    let mut speed: u8 = 6;
    // Effect 0xC20: set volume to 0x20 = 32.
    let row = row_with_channel0(ChannelCommand { sample_number: 1, period: 428, effect: 0xC20 });
    drive_row(&mut sink, &mut buf, &row, &mut channels, &waveforms, &mut speed, 8000);
    assert_eq!(sink.samples[0], -40);
}

#[test]
fn pattern_break_reports_decimal_target() {
    let mut sink = CaptureSink::new();
    let mut buf = vec![0i16; 160];
    let mut channels = four_channels();
    let waveforms = vec![square_oneshot()];
    let mut speed: u8 = 6;
    // Effect 0xD12 jumps to row 1 * 10 + 2 = 12, not 0x12.
    let row = row_with_channel0(ChannelCommand { sample_number: 0, period: 0, effect: 0xD12 });
    let action = drive_row(
        &mut sink,
        &mut buf,
        &row,
        &mut channels,
        &waveforms,
        &mut speed,
        8000,
    );
    assert_eq!(action, NextAction::Jump(12));
    // The row still ran its six ticks before the break took effect.
    assert_eq!(sink.samples.len(), 6 * 160);
}

#[test]
fn speed_effect_takes_effect_from_next_row() {
    let mut sink = CaptureSink::new();
    let mut buf = vec![0i16; 160];
    let mut channels = four_channels();
    let waveforms = vec![square_oneshot()];
    let mut speed: u8 = 6;
    let row = row_with_channel0(ChannelCommand { sample_number: 0, period: 0, effect: 0xF03 });
    let action = drive_row(
        &mut sink,
        &mut buf,
        &row,
        &mut channels,
        &waveforms,
        &mut speed,
        8000,
    );
    assert_eq!(action, NextAction::Continue);
    // The row that declares the effect still spans the old six ticks; the
    // new speed stands afterwards.
    assert_eq!(sink.samples.len(), 6 * 160);
    assert_eq!(speed, 3);
}

#[test]
fn speed_argument_is_masked_to_five_bits() {
    let mut sink = CaptureSink::new();
    let mut buf = vec![0i16; 160];
    let mut channels = four_channels();
    let waveforms = vec![square_oneshot()];
    let mut speed: u8 = 6;
    // 0xF25: argument 0x25 = 37, masked to 37 & 0x1F = 5.
    let row = row_with_channel0(ChannelCommand { sample_number: 0, period: 0, effect: 0xF25 });
    drive_row(&mut sink, &mut buf, &row, &mut channels, &waveforms, &mut speed, 8000);
    assert_eq!(speed, 5);
}

#[test]
fn first_pattern_break_wins_and_skips_later_effects() {
    let mut sink = CaptureSink::new();
    let mut buf = vec![0i16; 160];
    let mut channels = four_channels();
    let waveforms = vec![square_oneshot()];
    let mut speed: u8 = 6;
    let row = Row {
        channels: vec![
            ChannelCommand { sample_number: 0, period: 0, effect: 0xD05 },
            ChannelCommand { sample_number: 0, period: 0, effect: 0xF02 },
            ChannelCommand { sample_number: 0, period: 0, effect: 0xD99 },
            empty_cmd(),
        ],
    };
    let action = drive_row(
        &mut sink,
        &mut buf,
        &row,
        &mut channels,
        &waveforms,
        &mut speed,
        8000,
    );
    assert_eq!(action, NextAction::Jump(5));
    // The set-speed on a later channel was never reached.
    assert_eq!(speed, 6);
}

#[test]
fn unrecognized_effect_is_ignored() {
    let mut sink = CaptureSink::new();
    let mut buf = vec![0i16; 160];
    let mut channels = four_channels();
    let waveforms = vec![square_oneshot()];
    let mut speed: u8 = 6;
    // Effect 0x123 is not one this player implements: reported upstream in
    // spirit, but state and control flow are untouched.
    let row = row_with_channel0(ChannelCommand { sample_number: 0, period: 0, effect: 0x123 });
    let action = drive_row(
        &mut sink,
        &mut buf,
        &row,
        &mut channels,
        &waveforms,
        &mut speed,
        8000,
    );
    assert_eq!(action, NextAction::Continue);
    assert_eq!(speed, 6);
    assert_eq!(channels[0].sample_num(), None);
}

#[test]
fn play_tick_pushes_one_mixed_tick() {
    let mut sink = CaptureSink::new();
    let mut buf = vec![0i16; 160];
    let w = square_oneshot();
    let mut ch = ChannelState::new();
    ch.new_sample(1);
    ch.set_volume(64);
    ch.set_period(428);
    play_tick(&mut sink, &mut buf, &mut ch, &w, 8000);
    assert_eq!(sink.samples.len(), 160);
    assert_eq!(&sink.samples[..8], &[-80, 80, -80, 80, -80, 80, -80, 80]);
    // A second tick pushes pure silence: the one-shot waveform is done.
    play_tick(&mut sink, &mut buf, &mut ch, &w, 8000);
    assert_eq!(sink.samples.len(), 320);
    assert!(sink.samples[160..].iter().all(|&v| v == 0));
}

#[test]
fn volume_above_sixty_four_passes_through_unclamped() {
    let mut sink = CaptureSink::new();
    let mut buf = vec![0i16; 160];
    let mut channels = four_channels();
    let waveforms = vec![square_oneshot()];
    let mut speed: u8 = 6;
    // Effect 0xCFF asks for volume 255; it is applied as given, amplifying
    // instead of clamping: (255 * -10) / 64 = -39, boosted by 8 = -312.
    let row = row_with_channel0(ChannelCommand { sample_number: 1, period: 428, effect: 0xCFF });
    drive_row(&mut sink, &mut buf, &row, &mut channels, &waveforms, &mut speed, 8000);
    assert_eq!(sink.samples[0], -312);
    assert_eq!(sink.samples[1], 312);
}
