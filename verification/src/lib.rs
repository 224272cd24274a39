//! Playback core for tracker-style music modules: per-channel fixed-point
//! waveform stepping with loop resolution, a row/pattern sequencer driven by
//! per-row effects, and a bounded sample queue that decouples the mixing
//! producer from a real-time consumer.

pub mod channel;
pub mod notes;
pub mod pitch;
pub mod row;
pub mod sink;
pub mod song;
pub mod waveform;

pub use channel::{ChannelState, SampleState};
pub use notes::Note;
pub use row::{drive_row, play_tick, NextAction};
pub use sink::PushSamples;
pub use song::play_mod;
