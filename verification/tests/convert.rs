use midi_compiler_lib::convert_midi;
use midi_compiler_lib::MidiError;

/// Append a MIDI variable-length quantity.
fn push_varlen(out: &mut Vec<u8>, mut value: u32) {
    let mut chunks = vec![(value & 0x7f) as u8];
    value >>= 7;
    while value > 0 {
        chunks.push(0x80 | (value & 0x7f) as u8);
        value >>= 7;
    }
    chunks.reverse();
    out.extend_from_slice(&chunks);
}

/// A standard MIDI file image: a header with the given division bytes and
/// one track chunk per element of `tracks`.
fn smf(division: [u8; 2], tracks: &[Vec<u8>]) -> Vec<u8> {
    let mut out = vec![b'M', b'T', b'h', b'd', 0, 0, 0, 6, 0, 0];
    out.extend_from_slice(&(tracks.len() as u16).to_be_bytes());
    out.extend_from_slice(&division);
    for track in tracks {
        out.extend_from_slice(&[b'M', b'T', b'r', b'k']);
        out.extend_from_slice(&(track.len() as u32).to_be_bytes());
        out.extend_from_slice(track);
    }
    out
}

fn tempo_meta(track: &mut Vec<u8>, delta: u32, us_per_beat: u32) {
    push_varlen(track, delta);
    track.extend_from_slice(&[0xff, 0x51, 0x03]);
    track.extend_from_slice(&us_per_beat.to_be_bytes()[1..4]);
}

fn note_on(track: &mut Vec<u8>, delta: u32, key: u8, vel: u8) {
    push_varlen(track, delta);
    track.extend_from_slice(&[0x90, key, vel]);
}

fn note_off(track: &mut Vec<u8>, delta: u32, key: u8) {
    push_varlen(track, delta);
    track.extend_from_slice(&[0x80, key, 0]);
}

fn end_of_track(track: &mut Vec<u8>) {
    track.extend_from_slice(&[0x00, 0xff, 0x2f, 0x00]);
}

#[test]
fn single_note_one_beat() {
    let mut track = Vec::new();
    tempo_meta(&mut track, 0, 500000);
    note_on(&mut track, 0, 69, 64);
    note_off(&mut track, 480, 69);
    end_of_track(&mut track);
    let bytes = smf([0x01, 0xe0], &[track]);
    // 500000 / 480 = 1041 us per tick; 480 * 1041 = 499680 = 0x00079fe0.
    assert_eq!(
        convert_midi(bytes),
        Ok(vec![0xb8, 0x01, 0xe0, 0x9f, 0x07, 0x00])
    );
}

#[test]
fn zero_velocity_note_on_as_release() {
    let mut track = Vec::new();
    tempo_meta(&mut track, 0, 500000);
    note_on(&mut track, 0, 69, 64);
    note_on(&mut track, 480, 69, 0);
    end_of_track(&mut track);
    let bytes = smf([0x01, 0xe0], &[track]);
    assert_eq!(
        convert_midi(bytes),
        Ok(vec![0xb8, 0x01, 0xe0, 0x9f, 0x07, 0x00])
    );
}

#[test]
fn empty_track_yields_empty_output() {
    let mut track = Vec::new();
    end_of_track(&mut track);
    let bytes = smf([0x01, 0xe0], &[track]);
    assert_eq!(convert_midi(bytes), Ok(Vec::new()));
}

#[test]
fn trackless_file_yields_empty_output() {
    let bytes = smf([0x01, 0xe0], &[]);
    assert_eq!(convert_midi(bytes), Ok(Vec::new()));
}

#[test]
fn malformed_input_is_rejected() {
    assert_eq!(
        convert_midi(b"not a midi file".to_vec()),
        Err(MidiError::Malformed)
    );
    assert_eq!(convert_midi(Vec::new()), Err(MidiError::Malformed));
}

#[test]
fn smpte_timing_is_rejected() {
    let mut track = Vec::new();
    end_of_track(&mut track);
    let bytes = smf([0xe8, 0x50], &[track]);
    assert_eq!(convert_midi(bytes), Err(MidiError::UnsupportedTiming));
}

#[test]
fn tempo_with_zero_ticks_per_beat_is_rejected() {
    let mut track = Vec::new();
    tempo_meta(&mut track, 0, 500000);
    end_of_track(&mut track);
    let bytes = smf([0x00, 0x00], &[track]);
    assert_eq!(convert_midi(bytes), Err(MidiError::ZeroTicksPerBeat));
}

#[test]
fn tick_position_overflow_is_rejected() {
    let mut track = Vec::new();
    for _ in 0..17 {
        note_on(&mut track, 0x0fff_ffff, 60, 64);
    }
    end_of_track(&mut track);
    let bytes = smf([0x01, 0xe0], &[track]);
    assert_eq!(convert_midi(bytes), Err(MidiError::TickOverflow));
}

#[test]
fn duration_overflow_is_rejected() {
    let mut track = Vec::new();
    tempo_meta(&mut track, 0, 0xff_ffff);
    note_on(&mut track, 0, 60, 64);
    note_off(&mut track, 0x0fff_ffff, 60);
    end_of_track(&mut track);
    let bytes = smf([0x00, 0x01], &[track]);
    assert_eq!(convert_midi(bytes), Err(MidiError::DurationOverflow));
}

#[test]
fn conversion_is_deterministic() {
    let mut track = Vec::new();
    tempo_meta(&mut track, 0, 500000);
    note_on(&mut track, 0, 72, 64);
    note_on(&mut track, 240, 60, 64);
    note_off(&mut track, 240, 60);
    note_off(&mut track, 240, 72);
    end_of_track(&mut track);
    let bytes = smf([0x01, 0xe0], &[track]);
    let first = convert_midi(bytes.clone());
    let second = convert_midi(bytes);
    // Preemption emits the incoming key's frequency (261 Hz for key 60)
    // over the preempted note's span: 240 ticks * 1041 us = 249840 us,
    // then the same tone again when key 60 is released at tick 480.
    assert_eq!(
        first,
        Ok(vec![0x05, 0x01, 0xf0, 0xcf, 0x03, 0x00, 0x05, 0x01, 0xf0, 0xcf, 0x03, 0x00])
    );
    assert_eq!(first, second);
}

#[test]
fn output_length_is_a_multiple_of_six() {
    let mut track = Vec::new();
    tempo_meta(&mut track, 0, 500000);
    note_on(&mut track, 0, 72, 64);
    note_on(&mut track, 240, 60, 64);
    note_off(&mut track, 240, 60);
    note_off(&mut track, 240, 72);
    end_of_track(&mut track);
    let bytes = smf([0x01, 0xe0], &[track]);
    let out = convert_midi(bytes).unwrap();
    assert!(out.len() > 0);
    assert_eq!(out.len() % 6, 0);
}
