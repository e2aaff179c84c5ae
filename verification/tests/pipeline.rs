use midi_compiler_lib::note_to_frequency;
use midi_compiler_lib::reducer::reduce_edges;
use midi_compiler_lib::serializer::{decode_tones, serialize_tones};
use midi_compiler_lib::sorter::sort_edges;
use midi_compiler_lib::timeline::build_timeline;
use midi_compiler_lib::types::{Edge, EventBody, TimedEvent, Tone};

fn edge(tick: u32, key: u8, is_press: bool) -> Edge {
    Edge { tick, key, is_press }
}

#[test]
fn frequency_table_anchors() {
    assert_eq!(note_to_frequency(69), 440);
    assert_eq!(note_to_frequency(57), 220);
    assert_eq!(note_to_frequency(81), 880);
    assert_eq!(note_to_frequency(0), 8);
    assert_eq!(note_to_frequency(127), 12543);
    assert_eq!(note_to_frequency(60), 261);
    // Truncation, not rounding: keys 21 and 9 sit at 27.5 Hz and 13.75 Hz.
    assert_eq!(note_to_frequency(21), 27);
    assert_eq!(note_to_frequency(9), 13);
}

#[test]
fn polyphonic_preemption_lower_wins() {
    // Press 72 at tick 0, press 60 at 240, release 60 at 480, release 72 at
    // 720.  The preemption tone carries the incoming key's frequency over
    // the preempted note's span; the late release of 72 is ignored.
    let edges = vec![
        edge(0, 72, true),
        edge(240, 60, true),
        edge(480, 60, false),
        edge(720, 72, false),
    ];
    let tones = reduce_edges(&edges, 1000).unwrap();
    assert_eq!(
        tones,
        vec![
            Tone { frequency: 261, duration: 240000 },
            Tone { frequency: 261, duration: 240000 },
        ]
    );
}

#[test]
fn simultaneous_release_and_press() {
    // Release of 60 and press of 62 on the same tick: the release sorts
    // first, so one full-length tone for 60 comes out and 62 takes over.
    let edges = vec![edge(0, 60, true), edge(480, 62, true), edge(480, 60, false)];
    let sorted = sort_edges(&edges);
    assert_eq!(
        sorted,
        vec![edge(0, 60, true), edge(480, 60, false), edge(480, 62, true)]
    );
    let tones = reduce_edges(&sorted, 1000).unwrap();
    assert_eq!(tones, vec![Tone { frequency: 261, duration: 480000 }]);
}

#[test]
fn higher_press_while_lower_active_is_ignored() {
    let edges = vec![
        edge(0, 60, true),
        edge(240, 72, true),
        edge(480, 72, false),
        edge(720, 60, false),
    ];
    let tones = reduce_edges(&edges, 1000).unwrap();
    assert_eq!(tones, vec![Tone { frequency: 261, duration: 720000 }]);
}

#[test]
fn trailing_active_note_is_discarded() {
    let edges = vec![edge(0, 60, true)];
    let tones = reduce_edges(&edges, 1000).unwrap();
    assert_eq!(tones, Vec::new());
}

#[test]
fn release_of_inactive_key_is_ignored() {
    let edges = vec![edge(0, 60, false), edge(10, 61, false)];
    let tones = reduce_edges(&edges, 1000).unwrap();
    assert_eq!(tones, Vec::new());
}

#[test]
fn reduce_rejects_unrepresentable_duration() {
    let edges = vec![edge(0, 60, true), edge(0x0fff_ffff, 60, false)];
    assert_eq!(reduce_edges(&edges, 0xff_ffff), None);
}

#[test]
fn timeline_accumulates_ticks_and_tempo() {
    let events = vec![
        TimedEvent { delta: 0, body: EventBody::Tempo(500000) },
        TimedEvent { delta: 0, body: EventBody::NoteOn { key: 69, vel: 64 } },
        TimedEvent { delta: 480, body: EventBody::NoteOff { key: 69 } },
        TimedEvent { delta: 0, body: EventBody::Other },
    ];
    let (edges, mpt) = build_timeline(&events, 480).unwrap();
    assert_eq!(mpt, 1041);
    assert_eq!(edges, vec![edge(0, 69, true), edge(480, 69, false)]);
}

#[test]
fn timeline_normalizes_zero_velocity() {
    let events = vec![
        TimedEvent { delta: 5, body: EventBody::NoteOn { key: 69, vel: 64 } },
        TimedEvent { delta: 5, body: EventBody::NoteOn { key: 69, vel: 0 } },
    ];
    let (edges, mpt) = build_timeline(&events, 480).unwrap();
    assert_eq!(mpt, 0);
    assert_eq!(edges, vec![edge(5, 69, true), edge(10, 69, false)]);
}

#[test]
fn sort_orders_ticks_then_releases_first() {
    let edges = vec![
        edge(30, 1, true),
        edge(10, 2, false),
        edge(30, 3, false),
        edge(20, 4, true),
        edge(30, 5, true),
    ];
    let sorted = sort_edges(&edges);
    assert_eq!(
        sorted,
        vec![
            edge(10, 2, false),
            edge(20, 4, true),
            edge(30, 3, false),
            edge(30, 1, true),
            edge(30, 5, true),
        ]
    );
}

#[test]
fn serialize_and_decode_round_trip() {
    let tones = vec![
        Tone { frequency: 440, duration: 499680 },
        Tone { frequency: 0, duration: 0 },
        Tone { frequency: 12543, duration: u32::MAX },
    ];
    let bytes = serialize_tones(&tones);
    assert_eq!(bytes.len(), 18);
    assert_eq!(&bytes[0..6], &[0xb8, 0x01, 0xe0, 0x9f, 0x07, 0x00]);
    assert_eq!(decode_tones(&bytes), Some(tones));
}

#[test]
fn decode_rejects_ragged_length() {
    let bytes = vec![1, 2, 3, 4, 5];
    assert_eq!(decode_tones(&bytes), None);
}
