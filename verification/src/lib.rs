//! The core of a virtual musical keyboard: notes and chords, tone planning,
//! a recording session that timestamps what was played, and the encoder that
//! turns a finished recording into a Standard MIDI File.
//!
//! Times are whole nanoseconds, tempi are thousandths of a beat per minute,
//! and frequencies are hundredths of a hertz, so that every result is exact.

pub mod note;
pub mod rounding;
pub mod recording;
pub mod program;
pub mod chord;
pub mod playback;
pub mod settings;
pub mod track;
pub mod smf;
pub mod midi;
