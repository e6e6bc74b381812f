use music_keyboard::midi::{EncodingError, Midi};
use music_keyboard::note::{Note, NoteLength, RealNote};
use music_keyboard::playback::{async_play_note, Playable, SoundRequest};
use music_keyboard::program::{Action, CurrentMenu, Key, Message, Program};
use music_keyboard::recording::{NoteEvent, RecordingSession, SessionState, Song};

fn key(text: &str) -> Key {
    Key::Character(text.to_string())
}

fn request(note: Note, octave: i32, frequency: u64, recording: bool) -> SoundRequest {
    SoundRequest {
        frequency,
        duration: 250_000_000,
        volume: 30,
        real_note: RealNote { note, length: NoteLength::Eighth, octave },
        bpm: 120_000,
        is_recording: recording,
    }
}

#[test]
fn program_opens_with_its_defaults() {
    let program = Program::new(CurrentMenu::Standard);
    assert_eq!(program.octave, 4);
    assert_eq!(program.bpm, 120_000);
    assert!(!program.play_chords);
    assert!(program.play_async);
    assert!(!program.is_recording);
    assert_eq!(program.selected_scale, None);
    assert_eq!(program.time_elapsed, 0);
    assert_eq!(program.note_length, 2);
    assert_eq!(program.volume, 30);
    assert_eq!(program.buttons_pressed, [false; 13]);
    assert_eq!(program.current_menu, CurrentMenu::Standard);
}

#[test]
fn settings_choose_the_first_page() {
    assert_eq!(Program::from_settings("{\"info_popup\": true}").current_menu, CurrentMenu::Help);
    assert_eq!(
        Program::from_settings("{\"info_popup\": false}").current_menu,
        CurrentMenu::Standard
    );
    assert_eq!(Program::from_settings("{\"other\": true}").current_menu, CurrentMenu::Standard);
    assert_eq!(Program::from_settings("[]").current_menu, CurrentMenu::Standard);
    assert_eq!(Program::from_settings("info_popup").current_menu, CurrentMenu::Standard);
    assert_eq!(Program::from_settings("{\"info_popup\": 1}").current_menu, CurrentMenu::Standard);
    assert_eq!(
        Program::from_settings("{\"info_popup\": true, \"x\": \"y\"}").current_menu,
        CurrentMenu::Standard
    );
    assert_eq!(Program::from_settings("{\"info_popup\": true}"), Program::new(CurrentMenu::Help));
}

#[test]
fn page_for_what_the_settings_hold() {
    assert_eq!(Program::menu_for(Some(Some(true))), CurrentMenu::Help);
    assert_eq!(Program::menu_for(Some(Some(false))), CurrentMenu::Standard);
    assert_eq!(Program::menu_for(Some(None)), CurrentMenu::Standard);
    assert_eq!(Program::menu_for(None), CurrentMenu::Standard);
}

#[test]
fn slider_positions_and_lengths() {
    assert_eq!(Program::get_note_length(5), NoteLength::Whole);
    assert_eq!(Program::get_note_length(4), NoteLength::Half);
    assert_eq!(Program::get_note_length(3), NoteLength::Quarter);
    assert_eq!(Program::get_note_length(2), NoteLength::Eighth);
    assert_eq!(Program::get_note_length(1), NoteLength::Sixteenth);
    assert_eq!(Program::get_note_length(0), NoteLength::Whole);
    assert_eq!(Program::get_note_length(77), NoteLength::Whole);
}

#[test]
fn keys_of_the_computer_keyboard() {
    let pairs = [
        ("a", Note::C),
        ("w", Note::Csharp),
        ("s", Note::D),
        ("r", Note::Dsharp),
        ("d", Note::E),
        ("f", Note::F),
        ("t", Note::Fsharp),
        ("g", Note::G),
        ("y", Note::Gsharp),
        ("h", Note::A),
        ("u", Note::Asharp),
        ("j", Note::B),
    ];
    for (text, note) in pairs {
        assert_eq!(Program::match_keyboard_key(key(text)), Some(note));
    }
    assert_eq!(Program::match_keyboard_key(key("e")), None);
    assert_eq!(Program::match_keyboard_key(key("A")), None);
    assert_eq!(Program::match_keyboard_key(key("aa")), None);
    assert_eq!(Program::match_keyboard_key(key("")), None);
    assert_eq!(Program::match_keyboard_key(key("\u{e9}")), None);
    assert_eq!(Program::match_keyboard_key(Key::Other), None);
}

#[test]
fn tempo_that_is_refused_becomes_60() {
    let mut program = Program::new(CurrentMenu::Standard);
    program.update_bpm(90_500);
    assert_eq!(program.bpm, 90_500);
    program.update_bpm(0);
    assert_eq!(program.bpm, 60_000);
    program.update_bpm(300_000);
    assert_eq!(program.bpm, 300_000);
    program.update_bpm(300_001);
    assert_eq!(program.bpm, 60_000);
    program.update_bpm(1);
    assert_eq!(program.bpm, 1);
    program.update_bpm(-7);
    assert_eq!(program.bpm, 60_000);
}

#[test]
fn plain_messages_set_their_field() {
    let mut program = Program::new(CurrentMenu::Standard);
    let mut session = RecordingSession::new();
    let first = program;
    assert_eq!(program.update(Message::OctaveChange(6), &mut session, 0), Action::Nothing);
    assert_eq!(program, Program { octave: 6, ..first });
    assert_eq!(program.update(Message::VolumeChange(80), &mut session, 0), Action::Nothing);
    assert_eq!(program.update(Message::NoteLengthChange(5), &mut session, 0), Action::Nothing);
    assert_eq!(program.update(Message::Scale(Note::G), &mut session, 0), Action::Nothing);
    assert_eq!(program.update(Message::BpmChange(400_000), &mut session, 0), Action::Nothing);
    assert_eq!(program.update(Message::PlayChords, &mut session, 0), Action::Nothing);
    assert_eq!(program.update(Message::PlayAsync, &mut session, 0), Action::Nothing);
    assert_eq!(program.update(Message::ToggleHelpGUI, &mut session, 0), Action::Nothing);
    assert_eq!(
        program,
        Program {
            octave: 6,
            volume: 80,
            note_length: 5,
            selected_scale: Some(Note::G),
            bpm: 60_000,
            play_chords: true,
            play_async: false,
            current_menu: CurrentMenu::Help,
            ..first
        }
    );
    program.update(Message::ToggleHelpGUI, &mut session, 0);
    assert_eq!(program.current_menu, CurrentMenu::Standard);
    assert_eq!(session.state(), SessionState::Idle);
}

#[test]
fn a_key_goes_down_plays_and_comes_up() {
    let mut program = Program::new(CurrentMenu::Standard);
    let mut session = RecordingSession::new();
    let action = program.update(Message::Play(Note::A, true), &mut session, 0);
    assert_eq!(action, Action::Play(vec![request(Note::A, 4, 44_000, false)]));
    assert!(program.is_pressed(Note::A));
    assert!(!program.is_pressed(Note::C));
    assert_eq!(program.update(Message::EndPlaying(Note::A), &mut session, 0), Action::Nothing);
    assert!(!program.is_pressed(Note::A));
    let action = program.update(Message::KeyPressed(key("a")), &mut session, 0);
    assert_eq!(action, Action::Play(vec![request(Note::C, 4, 26_160, false)]));
    assert!(program.is_pressed(Note::C));
    assert_eq!(program.update(Message::KeyReleased(key("a")), &mut session, 0), Action::Nothing);
    assert!(!program.is_pressed(Note::C));
    assert_eq!(program.update(Message::KeyPressed(key("q")), &mut session, 0), Action::Nothing);
    assert_eq!(program.update(Message::KeyReleased(Key::Other), &mut session, 0), Action::Nothing);
    assert_eq!(program.buttons_pressed, [false; 13]);
}

#[test]
fn the_rest_plays_nothing_but_is_marked() {
    let mut program = Program::new(CurrentMenu::Standard);
    let mut session = RecordingSession::new();
    assert_eq!(program.update(Message::Play(Note::Rest, true), &mut session, 0), Action::Nothing);
    assert!(program.is_pressed(Note::Rest));
    assert!(program.buttons_pressed[12]);
    assert!(!program.is_pressed(Note::C));
}

#[test]
fn chords_play_three_notes() {
    let mut program = Program::new(CurrentMenu::Standard);
    let mut session = RecordingSession::new();
    program.update(Message::PlayChords, &mut session, 0);
    let action = program.update(Message::Play(Note::C, false), &mut session, 0);
    assert_eq!(
        action,
        Action::Play(vec![
            request(Note::C, 4, 26_160, false),
            request(Note::E, 4, 32_960, false),
            request(Note::G, 4, 39_200, false),
        ])
    );
}

#[test]
fn trigger_plans_one_request_for_each_note() {
    let single = music_keyboard::playback::trigger(
        Note::A,
        4,
        NoteLength::Eighth,
        false,
        false,
        120_000,
        30,
        true,
    );
    assert_eq!(single, vec![request(Note::A, 4, 44_000, true)]);
    let same = music_keyboard::playback::trigger(
        Note::A,
        4,
        NoteLength::Eighth,
        false,
        true,
        120_000,
        30,
        true,
    );
    assert_eq!(same, single);
    let rest = music_keyboard::playback::trigger(
        Note::Rest,
        4,
        NoteLength::Eighth,
        true,
        true,
        120_000,
        30,
        true,
    );
    assert!(rest.is_empty());
    let stopped = music_keyboard::playback::trigger(
        Note::A,
        4,
        NoteLength::Eighth,
        true,
        true,
        0,
        30,
        true,
    );
    assert!(stopped.is_empty());
}

#[test]
fn requests_follow_the_notes() {
    let a = RealNote { note: Note::A, length: NoteLength::Eighth, octave: 4 };
    let c = RealNote { note: Note::C, length: NoteLength::Eighth, octave: 4 };
    assert_eq!(a.play_sound(120_000, false, 30), Some(request(Note::A, 4, 44_000, false)));
    assert_eq!(a.play_sound(0, false, 30), None);
    assert_eq!(a.play_async(120_000, true, 30), vec![request(Note::A, 4, 44_000, true)]);
    assert_eq!(
        async_play_note(&[c, a], 120_000, false, 30),
        vec![request(Note::C, 4, 26_160, false), request(Note::A, 4, 44_000, false)]
    );
    assert!(async_play_note(&[c, a], -1, false, 30).is_empty());
    assert_eq!(
        Playable::Single(c).play(120_000, false, 30),
        vec![request(Note::C, 4, 26_160, false)]
    );
    let high = RealNote { note: Note::A, length: NoteLength::Eighth, octave: 90 };
    assert_eq!(high.play_sound(120_000, false, 30).unwrap().frequency, u64::MAX);
}

#[test]
fn recording_starts_ticks_and_is_exported() {
    let mut program = Program::new(CurrentMenu::Standard);
    let mut session = RecordingSession::new();
    assert_eq!(program.update(Message::Tick, &mut session, 50), Action::Nothing);
    assert_eq!(program.time_elapsed, 0);
    assert_eq!(program.update(Message::ToggleRecording, &mut session, 1_000), Action::Nothing);
    assert!(program.is_recording);
    assert_eq!(session.state(), SessionState::Recording);
    program.update(Message::Tick, &mut session, 4_000);
    assert_eq!(program.time_elapsed, 3_000);
    let action = program.update(Message::Play(Note::A, true), &mut session, 4_000);
    assert_eq!(action, Action::Play(vec![request(Note::A, 4, 44_000, true)]));
    let played = NoteEvent { note: Note::A, octave: 4, offset: 500_000_000, duration: 250_000_000 };
    assert!(session.record(played));
    let action = program.update(Message::ToggleRecording, &mut session, 9_000);
    let want = Midi::midi_file_create(Song { notes: vec![played], bpm: 120_000 }).unwrap();
    assert_eq!(action, Action::Save(want));
    assert!(!program.is_recording);
    assert_eq!(session.state(), SessionState::Frozen);
    program.update(Message::Tick, &mut session, 9_500);
    assert_eq!(program.time_elapsed, 0);
}

#[test]
fn export_failure_is_reported_and_the_notes_stay() {
    let mut program = Program::new(CurrentMenu::Standard);
    let mut session = RecordingSession::new();
    program.update(Message::ToggleRecording, &mut session, 0);
    let high = NoteEvent { note: Note::A, octave: 12, offset: 0, duration: 250_000_000 };
    assert!(session.record(high));
    let action = program.update(Message::ToggleRecording, &mut session, 10);
    assert_eq!(action, Action::Report(EncodingError::KeyOutOfRange));
    assert_eq!(session.snapshot(program.bpm).notes, vec![high]);
    assert!(!program.is_recording);
}

#[test]
fn stopping_without_a_recording_does_nothing() {
    let mut program = Program::new(CurrentMenu::Standard);
    let mut session = RecordingSession::new();
    program.is_recording = true;
    assert_eq!(program.update(Message::ToggleRecording, &mut session, 10), Action::Nothing);
    assert!(!program.is_recording);
    assert_eq!(session.state(), SessionState::Idle);
    assert!(program.stop_recording(&mut session).is_none());
    program.start_recording(&mut session, 5);
    assert!(program.is_recording);
    let song = program.stop_recording(&mut session).unwrap();
    assert!(song.notes.is_empty());
    assert_eq!(song.bpm, 120_000);
}
