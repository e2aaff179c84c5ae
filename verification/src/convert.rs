use vstd::prelude::*;

use crate::reducer::{lemma_duration_positive, presses_tick_ordered, reduce_ok, spec_reduce, reduce_edges};
use crate::serializer::{spec_serialize, serialize_tones, lemma_serialize_len};
use crate::sorter::{lemma_spec_sort, spec_sort, sort_edges};
use crate::timeline::{tl_run, build_timeline};
use crate::types::{MidiError, TimedEvent, Timing};
use crate::types::EventBody::{NoteOff, NoteOn, Other, Tempo};
use midly::MetaMessage::Tempo as RawTempo;
use midly::MidiMessage::{NoteOff as RawOff, NoteOn as RawOn};
use midly::Smf;
use midly::Timing as RawTiming;
use midly::TrackEventKind::{Meta, Midi};

verus! {

/// What the MIDI decoder reads out of a file image: the header's timing
/// mode and the first track's events, as plain values, or nothing when the
/// bytes are not a well-formed standard MIDI file.  A file without tracks
/// decodes to an empty event list.  The decoder is a pure function of the
/// bytes.
pub uninterp spec fn smf_of(bytes: Seq<u8>) -> Option<(Timing, Seq<TimedEvent>)>;

/// Relies on midly::Smf::parse: it decodes a standard MIDI file image —
/// header, timing mode and track events — from the bytes alone, and
/// rejects malformed input.  Only the first track is kept; the events'
/// deltas, keys, velocities and tempo values are handed over as plain
/// integers.
#[verifier::external_body]
fn parse_smf(bytes: &Vec<u8>) -> (r: Option<(Timing, Vec<TimedEvent>)>)
    ensures
        match r {
            Some(p) => smf_of(bytes@) == Some((p.0, p.1@)),
            None => smf_of(bytes@) is None,
        },
{
    let smf = Smf::parse(bytes).ok()?;
    let timing = match smf.header.timing {
        RawTiming::Metrical(t) => Timing::Metrical(t.as_int()),
        _ => Timing::Smpte,
    };
    let events = smf.tracks.iter().take(1).flatten().map(|ev| TimedEvent {
        delta: ev.delta.as_int(),
        body: match ev.kind {
            Meta(RawTempo(us)) => Tempo(us.as_int()),
            Midi { message: RawOn { key, vel }, .. } => NoteOn { key: key.as_int(), vel: vel.as_int() },
            Midi { message: RawOff { key, .. }, .. } => NoteOff { key: key.as_int() },
            _ => Other,
        },
    }).collect();
    Some((timing, events))
}

/// The whole conversion, stated over the decoder's reading of the bytes:
/// build the timeline, sort the edges, reduce to one voice, serialize.
/// Each failure is pinned to its cause: undecodable bytes, an SMPTE
/// header, a tempo event under a zero ticks-per-beat header, a tick
/// position or a duration that does not fit in 32 bits.
pub open spec fn spec_convert(parsed: Option<(Timing, Seq<TimedEvent>)>) -> Result<
    Seq<u8>,
    MidiError,
> {
    match parsed {
        None => Err(MidiError::Malformed),
        Some(p) => match p.0 {
            Timing::Smpte => Err(MidiError::UnsupportedTiming),
            Timing::Metrical(tpb) => match tl_run(p.1, tpb) {
                Err(e) => Err(e),
                Ok(st) => {
                    let sorted = spec_sort(st.edges);
                    if reduce_ok(sorted, st.mpt) {
                        Ok(spec_serialize(spec_reduce(sorted, st.mpt)))
                    } else {
                        Err(MidiError::DurationOverflow)
                    }
                },
            },
        },
    }
}

/// Convert a complete standard MIDI file image into the packed tone
/// stream: for each tone six bytes, a little-endian `u16` frequency in
/// hertz followed by a little-endian `u32` duration in microseconds.  The
/// result — success or the exact error — is a pure function of the input
/// bytes.
pub fn convert_midi(midi_file_content: Vec<u8>) -> (r: Result<Vec<u8>, MidiError>)
    ensures
        match r {
            Ok(out) => spec_convert(smf_of(midi_file_content@)) == Ok::<Seq<u8>, MidiError>(out@),
            Err(e) => spec_convert(smf_of(midi_file_content@)) == Err::<Seq<u8>, MidiError>(e),
        },
{
    let parsed = parse_smf(&midi_file_content);
    let (timing, events) = match parsed {
        Some(p) => p,
        None => {
            return Err(MidiError::Malformed);
        },
    };
    let tpb = match timing {
        Timing::Metrical(t) => t,
        Timing::Smpte => {
            return Err(MidiError::UnsupportedTiming);
        },
    };
    let (edges, mpt) = match build_timeline(&events, tpb) {
        Ok(p) => p,
        Err(e) => {
            return Err(e);
        },
    };
    let sorted = sort_edges(&edges);
    let tones = match reduce_edges(&sorted, mpt) {
        Some(t) => t,
        None => {
            return Err(MidiError::DurationOverflow);
        },
    };
    Ok(serialize_tones(&tones))
}

/// Output size law at the pipe's end: whenever a conversion succeeds, the
/// byte stream's length is a multiple of six.
pub proof fn lemma_convert_size(parsed: Option<(Timing, Seq<TimedEvent>)>)
    ensures
        spec_convert(parsed) matches Ok(out) ==> out.len() % 6 == 0,
{
    if spec_convert(parsed) is Ok {
        let p = parsed->Some_0;
        let tpb = p.0->Metrical_0;
        let st = tl_run(p.1, tpb)->Ok_0;
        let tones = spec_reduce(spec_sort(st.edges), st.mpt);
        lemma_serialize_len(tones);
        vstd::arithmetic::div_mod::lemma_mod_multiples_basic(tones.len() as int, 6);
    }
}


/// Duration positivity carried to the pipeline: under a positive tempo
/// scalar, with the sorted edges' same-tick presses in nondecreasing key
/// order and every duration representable, each tone behind the output
/// bytes lasts strictly longer than zero microseconds.  The sorter itself
/// discharges the order premise of the reducer-level law.
pub proof fn lemma_convert_durations_positive(events: Seq<TimedEvent>, tpb: u16)
    requires
        tl_run(events, tpb) matches Ok(st) && st.mpt >= 1 && presses_tick_ordered(
            spec_sort(st.edges),
        ) && reduce_ok(spec_sort(st.edges), st.mpt),
    ensures
        tl_run(events, tpb) matches Ok(st) ==> forall|j: int|
            0 <= j < spec_reduce(spec_sort(st.edges), st.mpt).len() ==> (#[trigger] spec_reduce(
                spec_sort(st.edges),
                st.mpt,
            )[j]).duration > 0,
{
    let st = tl_run(events, tpb)->Ok_0;
    lemma_spec_sort(st.edges);
    lemma_duration_positive(spec_sort(st.edges), st.mpt);
}

}
