//! Converts a standard MIDI file into a compact binary stream of monophonic
//! tones, each carrying an integer frequency in hertz and a duration in
//! microseconds.
//!
//! The pipeline decodes the file (through the `midly` parser), accumulates
//! absolute tick positions and the tempo scalar, sorts the note edges,
//! reduces the polyphonic stream to a single voice under a
//! lowest-pitch-wins policy, and serializes each tone as a little-endian
//! `u16` frequency followed by a little-endian `u32` duration.

pub mod convert;
pub mod frequency;
pub mod reducer;
pub mod serializer;
pub mod sorter;
pub mod timeline;
pub mod types;

pub use convert::convert_midi;
pub use frequency::note_to_frequency;
pub use types::{MidiError, Tone};
