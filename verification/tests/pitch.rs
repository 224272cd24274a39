//! Fixed-point step computation against hand-computed values.

use playmod::pitch::{compute_step, samples_per_tick};

#[test]
fn step_for_c2_at_8khz() {
    // floor(9080050176 / (10 * 428 * 8000)) = 265 = 1 * 256 + 9.
    assert_eq!(compute_step(428, 8000), (1, 9));
}

#[test]
fn step_for_c3_at_cd_rate() {
    // floor(9080050176 / (10 * 214 * 44100)) = 96.
    assert_eq!(compute_step(214, 44100), (0, 96));
}

#[test]
fn step_for_c1_at_8khz() {
    // floor(9080050176 / (10 * 856 * 8000)) = 132.
    assert_eq!(compute_step(856, 8000), (0, 132));
}

#[test]
fn tick_lengths() {
    assert_eq!(samples_per_tick(8000), 160);
    assert_eq!(samples_per_tick(44100), 882);
    assert_eq!(samples_per_tick(49), 0);
}
