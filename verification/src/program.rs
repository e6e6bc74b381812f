use crate::midi::{EncodingError, Midi, TICKS_PER_BEAT};
use crate::note::{Note, NoteLength, DEFAULT_BPM, MAX_BPM};
use crate::playback::{requests_spec, triggered, SoundRequest};
use crate::recording::{no_events, RecordingSession, SessionState, SessionView, Song};
use crate::settings::{json_flag, read_flag};
use crate::smf::{is_written, smf_bytes};
use vstd::prelude::*;
use vstd::string::StrSliceExecFns;

verus! {

/// Which page the window shows.
#[derive(Debug, Clone, Copy, PartialEq, Eq, Structural)]
pub enum CurrentMenu {
    Standard,
    Help,
}

/// A key of the computer's keyboard: the text that it types, or a key that types none.
#[derive(Debug, Clone, PartialEq, Eq)]
pub enum Key {
    Character(String),
    Other,
}

/// What the player did, or the tick of the clock.
#[derive(Debug, Clone, PartialEq, Eq)]
pub enum Message {
    /// A root was chosen for the scale that the keyboard marks.
    Scale(Note),
    /// The octave was set.
    OctaveChange(i32),
    /// The tempo was set, in thousandths of a beat per minute.
    BpmChange(i64),
    /// A key of the keyboard on the screen went down; the flag tells whether by the mouse.
    Play(Note, bool),
    /// A key of the keyboard on the screen came up.
    EndPlaying(Note),
    /// A key of the computer's keyboard went down.
    KeyPressed(Key),
    /// A key of the computer's keyboard came up.
    KeyReleased(Key),
    /// The box for chords was ticked or cleared.
    PlayChords,
    /// The box for playing without waiting was ticked or cleared.
    PlayAsync,
    /// The button that starts and stops the recording was pressed.
    ToggleRecording,
    /// The length slider was moved.
    NoteLengthChange(u8),
    /// The volume was set, in percent.
    VolumeChange(u32),
    /// The help page was asked for or sent away.
    ToggleHelpGUI,
    /// The clock ticked.
    Tick,
}

/// What is to be done for the player after a message.
#[derive(Debug, Clone, PartialEq, Eq)]
pub enum Action {
    /// Nothing.
    Nothing,
    /// Hand each request to a worker, which renders the tone.
    Play(Vec<SoundRequest>),
    /// Write these bytes as the MIDI file of the recording.
    Save(Vec<u8>),
    /// Tell the player that the recording could not be written, and why.
    Report(EncodingError),
}

/// What the player has set, and what the keyboard shows.
#[derive(Debug, Clone, Copy, PartialEq, Eq)]
pub struct Program {
    /// The octave in which notes are played.
    pub octave: i32,
    /// The tempo in thousandths of a beat per minute.
    pub bpm: i64,
    /// Whether a key plays the major triad on its note.
    pub play_chords: bool,
    /// Whether the player asked for notes to be played without waiting.
    pub play_async: bool,
    /// Whether a recording runs.
    pub is_recording: bool,
    /// The root of the major scale that the keyboard marks, if one is chosen.
    pub selected_scale: Option<Note>,
    /// The time recorded so far, in nanoseconds, as of the last tick.
    pub time_elapsed: u64,
    /// The position of the length slider, from 1 for a sixteenth to 5 for a whole note.
    pub note_length: u8,
    /// The volume in percent.
    pub volume: u32,
    /// Which keys are down: one flag for each pitch from C upward, and a last one for the
    /// rest.
    pub buttons_pressed: [bool; 13],
    /// The page shown.
    pub current_menu: CurrentMenu,
}

/// A program as contracts see it: its fields, the flags of the keys as a sequence.
#[verifier::ext_equal]
pub struct ProgramView {
    pub octave: i32,
    pub bpm: i64,
    pub play_chords: bool,
    pub play_async: bool,
    pub is_recording: bool,
    pub selected_scale: Option<Note>,
    pub time_elapsed: u64,
    pub note_length: u8,
    pub volume: u32,
    pub buttons_pressed: Seq<bool>,
    pub current_menu: CurrentMenu,
}

impl View for Program {
    type V = ProgramView;

    open spec fn view(&self) -> ProgramView {
        ProgramView {
            octave: self.octave,
            bpm: self.bpm,
            play_chords: self.play_chords,
            play_async: self.play_async,
            is_recording: self.is_recording,
            selected_scale: self.selected_scale,
            time_elapsed: self.time_elapsed,
            note_length: self.note_length,
            volume: self.volume,
            buttons_pressed: self.buttons_pressed@,
            current_menu: self.current_menu,
        }
    }
}

/// The place of a note among the flags of the keys: the pitches from C upward, then the
/// rest.
pub open spec fn slot(note: Note) -> int {
    if note.is_pitch() {
        note.index_spec()
    } else {
        12
    }
}

/// The note that a letter of the computer's keyboard plays: the home row for the white
/// keys from C, the row above it for the black ones.
pub open spec fn char_note(c: char) -> Option<Note> {
    if c == 'a' {
        Some(Note::C)
    } else if c == 'w' {
        Some(Note::Csharp)
    } else if c == 's' {
        Some(Note::D)
    } else if c == 'r' {
        Some(Note::Dsharp)
    } else if c == 'd' {
        Some(Note::E)
    } else if c == 'f' {
        Some(Note::F)
    } else if c == 't' {
        Some(Note::Fsharp)
    } else if c == 'g' {
        Some(Note::G)
    } else if c == 'y' {
        Some(Note::Gsharp)
    } else if c == 'h' {
        Some(Note::A)
    } else if c == 'u' {
        Some(Note::Asharp)
    } else if c == 'j' {
        Some(Note::B)
    } else {
        None
    }
}

/// The note that a key of the computer's keyboard plays: that of its letter, where it types
/// exactly one.
pub open spec fn key_note(key: Key) -> Option<Note> {
    match key {
        Key::Character(text) => if text@.len() == 1 {
            char_note(text@[0])
        } else {
            None
        },
        Key::Other => None,
    }
}

/// The note length at a position of the length slider: 1 is a sixteenth, 2 an eighth, 3 a
/// quarter, 4 a half, and 5 and every other position a whole note.
pub open spec fn note_length_spec(length: u8) -> NoteLength {
    if length == 4 {
        NoteLength::Half
    } else if length == 3 {
        NoteLength::Quarter
    } else if length == 2 {
        NoteLength::Eighth
    } else if length == 1 {
        NoteLength::Sixteenth
    } else {
        NoteLength::Whole
    }
}

/// The page that the window opens with: the help page where the settings ask for it with
/// `true`, and the keyboard where they say `false`, say nothing, or cannot be read.
pub open spec fn menu_spec(info_popup: Option<Option<bool>>) -> CurrentMenu {
    if info_popup == Some(Some(true)) {
        CurrentMenu::Help
    } else {
        CurrentMenu::Standard
    }
}

impl ProgramView {
    /// The program with the key of `note` down or up.
    pub open spec fn with_key(self, note: Note, down: bool) -> ProgramView {
        ProgramView { buttons_pressed: self.buttons_pressed.update(slot(note), down), ..self }
    }

    /// The program with the tempo set to `value` if that is a tempo to play at, and to 60
    /// beats per minute if it is not.
    pub open spec fn with_bpm(self, value: i64) -> ProgramView {
        ProgramView {
            bpm: if 0 < value <= MAX_BPM {
                value
            } else {
                DEFAULT_BPM
            },
            ..self
        }
    }

    /// The notes that a key of the keyboard plays as the program stands.
    pub open spec fn plays(self, note: Note) -> Seq<SoundRequest> {
        requests_spec(
            triggered(note, self.octave, note_length_spec(self.note_length), self.play_chords),
            self.bpm,
            self.is_recording,
            self.volume,
        )
    }

    /// The program after a message, with the session as it stood before the message and
    /// the clock reading `now`.
    pub open spec fn after(self, message: Message, session: SessionView, now: u64) -> ProgramView {
        match message {
            Message::ToggleHelpGUI => ProgramView {
                current_menu: if self.current_menu == CurrentMenu::Help {
                    CurrentMenu::Standard
                } else {
                    CurrentMenu::Help
                },
                ..self
            },
            Message::NoteLengthChange(value) => ProgramView { note_length: value, ..self },
            Message::VolumeChange(value) => ProgramView { volume: value, ..self },
            Message::Tick => ProgramView {
                time_elapsed: if self.is_recording {
                    session.elapsed(now) as u64
                } else {
                    0
                },
                ..self
            },
            Message::Scale(note) => ProgramView { selected_scale: Some(note), ..self },
            Message::KeyPressed(key) => match key_note(key) {
                Some(note) => self.with_key(note, true),
                None => self,
            },
            Message::KeyReleased(key) => match key_note(key) {
                Some(note) => self.with_key(note, false),
                None => self,
            },
            Message::ToggleRecording => ProgramView { is_recording: !self.is_recording, ..self },
            Message::PlayChords => ProgramView { play_chords: !self.play_chords, ..self },
            Message::PlayAsync => ProgramView { play_async: !self.play_async, ..self },
            Message::OctaveChange(value) => ProgramView { octave: value, ..self },
            Message::BpmChange(value) => self.with_bpm(value),
            Message::EndPlaying(note) => self.with_key(note, false),
            Message::Play(note, _) => self.with_key(note, true),
        }
    }

    /// The session after a message. The recording button starts a new recording at `now`
    /// where none runs, and freezes the one that runs; nothing else touches the session.
    pub open spec fn session_after(
        self,
        message: Message,
        session: SessionView,
        now: u64,
    ) -> SessionView {
        match message {
            Message::ToggleRecording => if !self.is_recording {
                SessionView { state: SessionState::Recording, started: now, events: no_events() }
            } else if session.state == SessionState::Recording {
                SessionView { state: SessionState::Frozen, ..session }
            } else {
                session
            },
            _ => session,
        }
    }

    /// The note that a message plays, if it plays one.
    pub open spec fn played(message: Message) -> Option<Note> {
        match message {
            Message::Play(note, _) => Some(note),
            Message::KeyPressed(key) => key_note(key),
            _ => None,
        }
    }

    /// Whether `action` is what is to be done after `message`.
    ///
    /// A key that goes down has its notes played, if it has any. The recording button, when
    /// it ends a recording, has the recording written: the action holds the bytes of the
    /// file where the recording has a track and the track is written, and else the reason
    /// why there is no file. Nothing else is to be done.
    pub open spec fn allows(self, action: Action, message: Message, session: SessionView) -> bool {
        match Self::played(message) {
            Some(note) => if self.plays(note).len() > 0 {
                action matches Action::Play(requests) && requests@ == self.plays(note)
            } else {
                action is Nothing
            },
            None => if message is ToggleRecording && self.is_recording && session.state
                == SessionState::Recording {
                match Midi::track_result(session.notes(), self.bpm as int) {
                    Ok(items) => if is_written(TICKS_PER_BEAT, items) {
                        action matches Action::Save(bytes) && bytes@ == smf_bytes(
                            TICKS_PER_BEAT,
                            items,
                        )
                    } else {
                        action == Action::Report(EncodingError::WriteFailure)
                    },
                    Err(reason) => action == Action::Report(reason),
                }
            } else {
                action is Nothing
            },
        }
    }
}

impl Program {
    /// The program as the window opens: octave 4, 120 beats per minute, eighth notes,
    /// volume 30, notes played without waiting, no key down, and the page given.
    pub fn new(current_menu: CurrentMenu) -> (program: Program)
        ensures
            program@ =~= Self::new_spec(current_menu),
    {
        Program {
            octave: 4,
            bpm: 120_000,
            play_chords: false,
            play_async: true,
            is_recording: false,
            selected_scale: None,
            time_elapsed: 0,
            note_length: 2,
            volume: 30,
            buttons_pressed: [false; 13],
            current_menu,
        }
    }

    /// The page that the window opens with, for what the settings hold for `info_popup`.
    pub fn menu_for(info_popup: Option<Option<bool>>) -> (menu: CurrentMenu)
        ensures
            menu == menu_spec(info_popup),
    {
        match info_popup {
            Some(Some(true)) => CurrentMenu::Help,
            _ => CurrentMenu::Standard,
        }
    }

    /// The program as the window opens, with the page that the text of the settings file
    /// asks for: the help page where its member `info_popup` is `true`.
    pub fn from_settings(settings: &str) -> (program: Program)
        ensures
            program@ =~= Self::new_spec(menu_spec(json_flag(settings@, "info_popup"@))),
    {
        Self::new(Self::menu_for(read_flag(settings, "info_popup")))
    }

    /// The program as the window opens on the page `current_menu`.
    pub open spec fn new_spec(current_menu: CurrentMenu) -> ProgramView {
        ProgramView {
            octave: 4,
            bpm: 120_000,
            play_chords: false,
            play_async: true,
            is_recording: false,
            selected_scale: None,
            time_elapsed: 0,
            note_length: 2,
            volume: 30,
            buttons_pressed: Seq::new(13, |i: int| false),
            current_menu,
        }
    }
}

impl Program {
    /// The place of `note` among the flags of the keys.
    fn key_slot(note: Note) -> (i: usize)
        ensures
            i == slot(note),
            i < 13,
    {
        match note {
            Note::Rest => 12,
            _ => note.index() as usize,
        }
    }

    /// Whether the key of `note` is down.
    pub fn is_pressed(&self, note: Note) -> (down: bool)
        ensures
            down == self@.buttons_pressed[slot(note)],
    {
        self.buttons_pressed[Self::key_slot(note)]
    }

    /// The note length at a position of the length slider.
    pub fn get_note_length(length: u8) -> (note_length: NoteLength)
        ensures
            note_length == note_length_spec(length),
    {
        match length {
            5 => NoteLength::Whole,
            4 => NoteLength::Half,
            3 => NoteLength::Quarter,
            2 => NoteLength::Eighth,
            1 => NoteLength::Sixteenth,
            _ => NoteLength::Whole,
        }
    }

    /// Starts a new recording on `session` with the clock reading `now`, in nanoseconds.
    pub fn start_recording(&mut self, session: &mut RecordingSession, now: u64)
        ensures
            final(self)@ =~= (ProgramView { is_recording: true, ..old(self)@ }),
            final(session)@ =~= (SessionView {
                state: SessionState::Recording,
                started: now,
                events: no_events(),
            }),
    {
        self.is_recording = true;
        session.start(now);
    }

    /// Stops the recording on `session` and hands out the song recorded, at the tempo set
    /// now. There is no song where the session was not recording.
    pub fn stop_recording(&mut self, session: &mut RecordingSession) -> (song: Option<Song>)
        ensures
            final(self)@ =~= (ProgramView { is_recording: false, ..old(self)@ }),
            match song {
                Some(s) => old(session)@.state == SessionState::Recording && s.notes@ == old(
                    session,
                )@.notes() && s.bpm == old(self).bpm && final(session)@ =~= (SessionView {
                    state: SessionState::Frozen,
                    ..old(session)@
                }),
                None => old(session)@.state != SessionState::Recording && final(session)@
                    =~= old(session)@,
            },
    {
        self.is_recording = false;
        session.stop(self.bpm)
    }

    /// Sets the tempo to `value` thousandths of a beat per minute. A value that is no tempo
    /// to play at, zero or less or above 300 beats per minute, sets 60 beats per minute.
    pub fn update_bpm(&mut self, value: i64)
        ensures
            final(self)@ =~= old(self)@.with_bpm(value),
    {
        if NoteLength::check_bpm(value) {
            self.bpm = value;
        } else {
            self.bpm = DEFAULT_BPM;
        }
    }

    /// The note that a key of the computer's keyboard plays, if it plays one.
    pub fn match_keyboard_key(key: Key) -> (note: Option<Note>)
        ensures
            note == key_note(key),
    {
        match key {
            Key::Character(text) => {
                let text = text.as_str();
                if text.unicode_len() != 1 {
                    return None;
                }
                let c = text.get_char(0);
                if c == 'a' {
                    Some(Note::C)
                } else if c == 'w' {
                    Some(Note::Csharp)
                } else if c == 's' {
                    Some(Note::D)
                } else if c == 'r' {
                    Some(Note::Dsharp)
                } else if c == 'd' {
                    Some(Note::E)
                } else if c == 'f' {
                    Some(Note::F)
                } else if c == 't' {
                    Some(Note::Fsharp)
                } else if c == 'g' {
                    Some(Note::G)
                } else if c == 'y' {
                    Some(Note::Gsharp)
                } else if c == 'h' {
                    Some(Note::A)
                } else if c == 'u' {
                    Some(Note::Asharp)
                } else if c == 'j' {
                    Some(Note::B)
                } else {
                    None
                }
            },
            Key::Other => None,
        }
    }

    /// Puts the key of `note` down and plans what it plays.
    fn press(&mut self, note: Note) -> (action: Action)
        ensures
            final(self)@ =~= old(self)@.with_key(note, true),
            if old(self)@.plays(note).len() > 0 {
                action matches Action::Play(requests) && requests@ == old(self)@.plays(note)
            } else {
                action is Nothing
            },
    {
        self.buttons_pressed[Self::key_slot(note)] = true;
        let requests = crate::playback::trigger(
            note,
            self.octave,
            Self::get_note_length(self.note_length),
            self.play_chords,
            self.play_async,
            self.bpm,
            self.volume,
            self.is_recording,
        );
        if requests.len() > 0 {
            Action::Play(requests)
        } else {
            Action::Nothing
        }
    }

    /// Takes a message: changes the program, and `session` where the recording starts or
    /// stops, and says what is to be done. `now` is the reading of the clock in
    /// nanoseconds.
    pub fn update(&mut self, message: Message, session: &mut RecordingSession, now: u64) -> (action:
        Action)
        ensures
            final(self)@ =~= old(self)@.after(message, old(session)@, now),
            final(session)@ =~= old(self)@.session_after(message, old(session)@, now),
            old(self)@.allows(action, message, old(session)@),
    {
        match message {
            Message::ToggleHelpGUI => {
                if self.current_menu == CurrentMenu::Help {
                    self.current_menu = CurrentMenu::Standard;
                } else {
                    self.current_menu = CurrentMenu::Help;
                }
                Action::Nothing
            },
            Message::NoteLengthChange(value) => {
                self.note_length = value;
                Action::Nothing
            },
            Message::VolumeChange(value) => {
                self.volume = value;
                Action::Nothing
            },
            Message::Tick => {
                if self.is_recording {
                    self.time_elapsed = session.elapsed(now);
                } else {
                    self.time_elapsed = 0;
                }
                Action::Nothing
            },
            Message::Scale(note) => {
                self.selected_scale = Some(note);
                Action::Nothing
            },
            Message::KeyPressed(key) => {
                match Self::match_keyboard_key(key) {
                    Some(note) => self.press(note),
                    None => Action::Nothing,
                }
            },
            Message::KeyReleased(key) => {
                match Self::match_keyboard_key(key) {
                    Some(note) => {
                        self.buttons_pressed[Self::key_slot(note)] = false;
                    },
                    None => {},
                }
                Action::Nothing
            },
            Message::ToggleRecording => {
                if !self.is_recording {
                    self.start_recording(session, now);
                    Action::Nothing
                } else {
                    match self.stop_recording(session) {
                        Some(song) => match Midi::midi_file_create(song) {
                            Ok(bytes) => Action::Save(bytes),
                            Err(reason) => Action::Report(reason),
                        },
                        None => Action::Nothing,
                    }
                }
            },
            Message::PlayChords => {
                self.play_chords = !self.play_chords;
                Action::Nothing
            },
            Message::PlayAsync => {
                self.play_async = !self.play_async;
                Action::Nothing
            },
            Message::OctaveChange(value) => {
                self.octave = value;
                Action::Nothing
            },
            Message::BpmChange(value) => {
                self.update_bpm(value);
                Action::Nothing
            },
            Message::EndPlaying(note) => {
                self.buttons_pressed[Self::key_slot(note)] = false;
                Action::Nothing
            },
            Message::Play(note, _) => self.press(note),
        }
    }
}

} // verus!
