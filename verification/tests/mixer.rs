//! The per-channel mixing step: exact output values, the degenerate-loop
//! halt, the cursor wrap invariant, and additivity of mixing.

use playmod::channel::ChannelState;
use playmod::waveform::Waveform;

fn square_oneshot() -> Waveform {
    // One-shot: no meaningful repeat region (repeat_length_units = 0 <= 2).
    Waveform {
        length_units: 4,
        repeat_start_units: 0,
        repeat_length_units: 0,
        base_volume: 64,
        data: vec![10, -10, 10, -10, 10, -10, 10, -10],
    }
}

fn looping_wave() -> Waveform {
    // Sustain loop over bytes [4, 12).
    Waveform {
        length_units: 8,
        repeat_start_units: 2,
        repeat_length_units: 4,
        base_volume: 64,
        data: vec![1, 2, 3, 4, 5, 6, 7, 8, 9, 10, 11, 12, 13, 14, 15, 16],
    }
}

#[test]
fn one_shot_mixes_then_falls_silent() {
    // Period 428 at 8000 Hz: step 1 + 9/256, 160 samples per tick.  The
    // 8-byte waveform is read at offsets 1..7, wraps its overshoot to 0,
    // and halts: exactly 8 nonzero samples.
    let w = square_oneshot();
    let mut ch = ChannelState::new();
    ch.new_sample(1);
    ch.set_period(428);
    let mut buf = vec![0i16; 160];
    ch.mix_sample_for_tick(&mut buf, &w, 8000);
    assert_eq!(
        &buf[..8],
        &[-80, 80, -80, 80, -80, 80, -80, 80]
    );
    assert!(buf[8..].iter().all(|&v| v == 0));
    assert!(ch.state.looped_yet);
    assert_eq!(ch.state.sample_offset, 0);
    assert_eq!(ch.state.sample_frac, 72);
}

#[test]
fn degenerate_loop_stays_silent_next_tick() {
    let w = square_oneshot();
    let mut ch = ChannelState::new();
    ch.new_sample(1);
    ch.set_period(428);
    let mut buf = vec![0i16; 160];
    ch.mix_sample_for_tick(&mut buf, &w, 8000);
    // A further tick adds nothing and moves nothing.
    let mut buf2 = vec![0i16; 160];
    ch.mix_sample_for_tick(&mut buf2, &w, 8000);
    assert!(buf2.iter().all(|&v| v == 0));
    assert!(ch.state.looped_yet);
    assert_eq!(ch.state.sample_offset, 0);
    assert_eq!(ch.state.sample_frac, 72);
}

#[test]
fn looped_cursor_stays_in_repeat_region() {
    let w = looping_wave();
    let mut ch = ChannelState::new();
    ch.new_sample(1);
    ch.set_period(428);
    let mut buf = vec![0i16; 160];
    for _ in 0..5 {
        ch.mix_sample_for_tick(&mut buf, &w, 8000);
        if ch.state.looped_yet {
            assert!(4 <= ch.state.sample_offset && ch.state.sample_offset < 12);
        }
    }
    assert!(ch.state.looped_yet);
}

#[test]
fn volume_override_scales_output() {
    let w = square_oneshot();
    let mut ch = ChannelState::new();
    ch.new_sample(1);
    ch.set_period(428);
    ch.set_volume(32);
    let mut buf = vec![0i16; 160];
    ch.mix_sample_for_tick(&mut buf, &w, 8000);
    // (32 * -10) / 64 = -5, boosted by 8 = -40.
    assert_eq!(buf[0], -40);
    assert_eq!(buf[1], 40);
}

#[test]
fn triggering_again_restarts_and_clears_volume() {
    let w = square_oneshot();
    let mut ch = ChannelState::new();
    ch.new_sample(1);
    ch.set_period(428);
    ch.set_volume(32);
    let mut buf = vec![0i16; 160];
    ch.mix_sample_for_tick(&mut buf, &w, 8000);
    ch.new_sample(1);
    assert!(!ch.state.looped_yet);
    assert_eq!(ch.state.sample_offset, 0);
    assert_eq!(ch.state.sample_frac, 0);
    let mut buf2 = vec![0i16; 160];
    ch.mix_sample_for_tick(&mut buf2, &w, 8000);
    // Volume override gone: back to the base volume of 64.
    assert_eq!(buf2[0], -80);
}

#[test]
fn mixing_is_additive() {
    // Mixing two channels into one buffer equals the sum of mixing each
    // alone into a zeroed buffer.
    let wa = square_oneshot();
    let wb = looping_wave();

    let mut ch_a = ChannelState::new();
    ch_a.new_sample(1);
    ch_a.set_period(428);
    let mut ch_b = ChannelState::new();
    ch_b.new_sample(2);
    ch_b.set_period(214);
    ch_b.set_volume(48);

    let mut alone_a = vec![0i16; 160];
    let mut ch = ch_a.clone();
    ch.mix_sample_for_tick(&mut alone_a, &wa, 8000);

    let mut alone_b = vec![0i16; 160];
    let mut ch = ch_b.clone();
    ch.mix_sample_for_tick(&mut alone_b, &wb, 8000);

    let mut together = vec![0i16; 160];
    ch_a.mix_sample_for_tick(&mut together, &wa, 8000);
    ch_b.mix_sample_for_tick(&mut together, &wb, 8000);

    for i in 0..160 {
        assert_eq!(together[i], alone_a[i] + alone_b[i]);
    }
    assert!(alone_b.iter().any(|&v| v != 0));
}

#[test]
fn sample_num_reports_trigger() {
    let mut ch = ChannelState::new();
    assert_eq!(ch.sample_num(), None);
    ch.new_sample(3);
    assert_eq!(ch.sample_num(), Some(3));
}
