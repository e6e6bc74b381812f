use music_keyboard::midi::{EncodingError, Midi};
use music_keyboard::note::Note;
use music_keyboard::recording::{NoteEvent, Song};
use music_keyboard::track::{MidiKind, MidiSubEvent};

const HEADER: [u8; 14] = [b'M', b'T', b'h', b'd', 0, 0, 0, 6, 0, 0, 0, 1, 0x01, 0xE0];

fn half_second_a4() -> NoteEvent {
    NoteEvent { note: Note::A, octave: 4, offset: 500_000_000, duration: 500_000_000 }
}

#[test]
fn empty_song_is_header_and_tempo() {
    let song = Song { notes: vec![], bpm: 120_000 };
    let bytes = Midi::midi_file_create(song).unwrap();
    let mut want = HEADER.to_vec();
    want.extend_from_slice(&[b'M', b'T', b'r', b'k', 0, 0, 0, 7]);
    want.extend_from_slice(&[0x00, 0xFF, 0x51, 0x03, 0x07, 0xA1, 0x20]);
    assert_eq!(bytes, want);
}

#[test]
fn half_second_at_120_bpm_spans_ticks_480_to_960() {
    let song = Song { notes: vec![half_second_a4()], bpm: 120_000 };
    let events = Midi::sub_events(&song).unwrap();
    assert_eq!(
        events,
        vec![
            MidiSubEvent { tick: 480, kind: MidiKind::NoteOn, key: 69, velocity: 64, channel: 0 },
            MidiSubEvent { tick: 960, kind: MidiKind::NoteOff, key: 69, velocity: 64, channel: 0 },
        ]
    );
    assert_eq!(Midi::bpm_to_microseconds_per_beat(120_000), Ok(500_000));
}

#[test]
fn one_note_file_bytes() {
    let song = Song { notes: vec![half_second_a4()], bpm: 120_000 };
    let bytes = Midi::midi_file_create(song).unwrap();
    let mut want = HEADER.to_vec();
    want.extend_from_slice(&[b'M', b'T', b'r', b'k', 0, 0, 0, 17]);
    want.extend_from_slice(&[0x00, 0xFF, 0x51, 0x03, 0x07, 0xA1, 0x20]);
    want.extend_from_slice(&[0x83, 0x60, 0x90, 69, 64]);
    want.extend_from_slice(&[0x83, 0x60, 0x80, 69, 64]);
    assert_eq!(bytes, want);
}

#[test]
fn key_out_of_range_is_an_error() {
    let song = Song {
        notes: vec![NoteEvent { note: Note::C, octave: 10, offset: 0, duration: 1 }],
        bpm: 120_000,
    };
    assert_eq!(Midi::midi_file_create(song), Err(EncodingError::KeyOutOfRange));
}
