use music_keyboard::chord::Chord;
use music_keyboard::note::{Note, NoteLength, RealNote};
use music_keyboard::program::{CurrentMenu, Program};
use music_keyboard::rounding::rounded_quotient;

#[test]
fn quarter_note_at_120_bpm_lasts_half_a_second() {
    assert_eq!(NoteLength::Quarter.duration_in_seconds(120_000), Some(500_000_000));
}

#[test]
fn every_length_at_60_bpm() {
    assert_eq!(NoteLength::Whole.duration_in_seconds(60_000), Some(4_000_000_000));
    assert_eq!(NoteLength::Half.duration_in_seconds(60_000), Some(2_000_000_000));
    assert_eq!(NoteLength::Quarter.duration_in_seconds(60_000), Some(1_000_000_000));
    assert_eq!(NoteLength::Eighth.duration_in_seconds(60_000), Some(500_000_000));
    assert_eq!(NoteLength::Sixteenth.duration_in_seconds(60_000), Some(250_000_000));
}

#[test]
fn duration_is_rounded_to_the_nearest_nanosecond() {
    // 15e12 / 7 = 2_142_857_142_857.14..., 15e12 / 9 = 1_666_666_666_666.67...
    assert_eq!(NoteLength::Sixteenth.duration_in_seconds(7), Some(2_142_857_142_857));
    assert_eq!(NoteLength::Sixteenth.duration_in_seconds(9), Some(1_666_666_666_667));
}

#[test]
fn no_duration_without_a_positive_tempo() {
    assert_eq!(NoteLength::Whole.duration_in_seconds(0), None);
    assert_eq!(NoteLength::Whole.duration_in_seconds(-1), None);
}

#[test]
fn faster_tempo_is_strictly_shorter() {
    let lengths = [
        NoteLength::Whole,
        NoteLength::Half,
        NoteLength::Quarter,
        NoteLength::Eighth,
        NoteLength::Sixteenth,
    ];
    for length in lengths {
        for bpm in [1i64, 2, 59_999, 120_000, 299_998, 299_999] {
            let slow = length.duration_in_seconds(bpm).unwrap();
            let fast = length.duration_in_seconds(bpm + 1).unwrap();
            assert!(fast < slow);
        }
    }
}

#[test]
fn tempo_is_checked_against_zero_and_300() {
    assert!(!NoteLength::check_bpm(0));
    assert!(!NoteLength::check_bpm(-5_000));
    assert!(NoteLength::check_bpm(1));
    assert!(NoteLength::check_bpm(300_000));
    assert!(!NoteLength::check_bpm(300_001));
}

#[test]
fn rounding_takes_a_half_up() {
    assert_eq!(rounded_quotient(7, 2), 4);
    assert_eq!(rounded_quotient(5, 2), 3);
    assert_eq!(rounded_quotient(4, 3), 1);
    assert_eq!(rounded_quotient(5, 3), 2);
    assert_eq!(rounded_quotient(0, 9), 0);
}

#[test]
fn names_of_notes_and_lengths() {
    assert_eq!(Note::Csharp.to_string(), "C#");
    assert_eq!(Note::B.to_string(), "B");
    assert_eq!(Note::Rest.to_string(), "None");
    assert_eq!(NoteLength::Sixteenth.to_string(), "Sixteenth");
    assert_eq!(NoteLength::Whole.to_string(), "Whole");
}

#[test]
fn index_and_back() {
    for i in 0u8..12 {
        assert_eq!(Note::from_index(i).index(), i);
        assert_eq!(Note::ALL[i as usize], Note::from_index(i));
    }
    assert_eq!(Note::ALL[12], Note::Rest);
    assert_eq!(Note::A.index(), 9);
}

#[test]
fn a4_is_440_hertz() {
    let note = RealNote { note: Note::A, length: NoteLength::Quarter, octave: 4 };
    assert_eq!(RealNote::base_frequencies(Note::A), 2750);
    assert_eq!(note.frequency(), Some(44_000));
}

#[test]
fn frequency_below_octave_zero_is_halved() {
    let note = RealNote { note: Note::C, length: NoteLength::Quarter, octave: -1 };
    assert_eq!(note.frequency(), Some(817));
    let low = RealNote { note: Note::C, length: NoteLength::Quarter, octave: -40 };
    assert_eq!(low.frequency(), Some(0));
    let lowest = RealNote { note: Note::B, length: NoteLength::Quarter, octave: i32::MIN };
    assert_eq!(lowest.frequency(), Some(0));
}

#[test]
fn frequency_too_high_has_no_value() {
    let note = RealNote { note: Note::C, length: NoteLength::Quarter, octave: 60 };
    assert_eq!(note.frequency(), None);
    let rest = RealNote { note: Note::Rest, length: NoteLength::Quarter, octave: 60 };
    assert_eq!(rest.frequency(), Some(0));
    let top = RealNote { note: Note::C, length: NoteLength::Quarter, octave: 53 };
    assert_eq!(top.frequency(), Some(1635u64 << 53));
    let over = RealNote { note: Note::C, length: NoteLength::Quarter, octave: 54 };
    assert_eq!(over.frequency(), None);
}

#[test]
fn major_scales() {
    assert_eq!(
        Chord::get_major_scale(Note::C),
        vec![Note::C, Note::D, Note::E, Note::F, Note::G, Note::A, Note::B]
    );
    assert_eq!(
        Chord::get_major_scale(Note::Fsharp),
        vec![
            Note::Fsharp,
            Note::Gsharp,
            Note::Asharp,
            Note::B,
            Note::Csharp,
            Note::Dsharp,
            Note::F
        ]
    );
    assert_eq!(Chord::get_major_scale(Note::Rest), Note::ALL.to_vec());
}

#[test]
fn every_major_scale_follows_the_steps() {
    let steps = [0u8, 2, 4, 5, 7, 9, 11];
    for root in 0u8..12 {
        let scale = Chord::get_major_scale(Note::from_index(root));
        assert_eq!(scale.len(), 7);
        for (degree, step) in steps.iter().enumerate() {
            assert_eq!(scale[degree].index(), (root + step) % 12);
        }
    }
}

#[test]
fn triad_of_a() {
    let note = RealNote { note: Note::A, length: NoteLength::Half, octave: 3 };
    let chord = Chord::triad_from_note(&note);
    assert_eq!(
        chord.notes,
        vec![
            RealNote { note: Note::A, length: NoteLength::Half, octave: 3 },
            RealNote { note: Note::Csharp, length: NoteLength::Half, octave: 3 },
            RealNote { note: Note::E, length: NoteLength::Half, octave: 3 },
        ]
    );
}

#[test]
fn note_in_scale() {
    let mut program = Program::new(CurrentMenu::Standard);
    assert!(Chord::is_note_in_scale(&program, Note::Csharp));
    program.selected_scale = Some(Note::C);
    assert!(Chord::is_note_in_scale(&program, Note::G));
    assert!(!Chord::is_note_in_scale(&program, Note::Csharp));
    assert!(!Chord::is_note_in_scale(&program, Note::Rest));
    program.selected_scale = Some(Note::Rest);
    assert!(Chord::is_note_in_scale(&program, Note::Csharp));
}
