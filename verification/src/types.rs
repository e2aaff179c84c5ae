use vstd::prelude::*;

verus! {

/// One record of the output stream: a single monophonic voice segment.
#[derive(Clone, Copy, Debug, PartialEq, Eq, Structural)]
pub struct Tone {
    /// Frequency in hertz.
    pub frequency: u16,
    /// Duration in microseconds.
    pub duration: u32,
}

/// A press or release of a key at an absolute tick position.
#[derive(Clone, Copy, Debug, PartialEq, Eq, Structural)]
pub struct Edge {
    /// Absolute tick of the event.
    pub tick: u32,
    /// The MIDI key, in `0..128`.
    pub key: u8,
    /// `true` for a press; a note-on with velocity zero arrives as a release.
    pub is_press: bool,
}

/// The note the reducer is currently holding.
#[derive(Clone, Copy, Debug, PartialEq, Eq, Structural)]
pub struct ActiveNote {
    pub key: u8,
    pub start_tick: u32,
}

/// The body of a track event, reduced to the parts the pipeline reads.
#[derive(Clone, Copy, Debug, PartialEq, Eq, Structural)]
pub enum EventBody {
    /// A tempo meta event carrying microseconds per quarter note.
    Tempo(u32),
    /// A note-on message; velocity zero encodes a release.
    NoteOn { key: u8, vel: u8 },
    /// A note-off message.
    NoteOff { key: u8 },
    /// Any event the pipeline ignores.
    Other,
}

/// A track event together with its delta ticks since the previous event.
#[derive(Clone, Copy, Debug, PartialEq, Eq, Structural)]
pub struct TimedEvent {
    pub delta: u32,
    pub body: EventBody,
}

/// The timing mode declared by the file header.
#[derive(Clone, Copy, Debug, PartialEq, Eq, Structural)]
pub enum Timing {
    /// Metrical timing: ticks per quarter note.
    Metrical(u16),
    /// SMPTE timecode timing, which the converter does not support.
    Smpte,
}

/// Why a conversion failed.
#[derive(Clone, Copy, Debug, PartialEq, Eq, Structural)]
pub enum MidiError {
    /// The input bytes are not a well-formed standard MIDI file.
    Malformed,
    /// The header uses SMPTE timing instead of metrical timing.
    UnsupportedTiming,
    /// A tempo event arrived while the header declared zero ticks per beat.
    ZeroTicksPerBeat,
    /// An absolute tick position does not fit in 32 bits.
    TickOverflow,
    /// An emitted duration does not fit in 32 bits of microseconds.
    DurationOverflow,
}

}
