use crate::chord::Chord;
use crate::note::{Note, NoteLength, RealNote};
use vstd::prelude::*;

verus! {

/// What a worker needs to render one note: the tone, how long it sounds, how loud, and
/// whether to report the note to the recording session.
#[derive(Debug, Clone, Copy, PartialEq, Eq, Structural)]
pub struct SoundRequest {
    /// The frequency of the tone in hundredths of a hertz.
    pub frequency: u64,
    /// How long the tone sounds, in nanoseconds.
    pub duration: u64,
    /// The volume in percent.
    pub volume: u32,
    /// The note that is played.
    pub real_note: RealNote,
    /// The tempo in thousandths of a beat per minute.
    pub bpm: i64,
    /// Whether the note is reported to the recording session.
    pub is_recording: bool,
}

/// What a key of the keyboard plays: one note, or the notes of a chord.
#[derive(Debug, Clone)]
pub enum Playable {
    Single(RealNote),
    Chord(Chord),
}

impl RealNote {
    /// The request that renders this note at a tempo above zero. A tone too high for 64
    /// bits of hundredths of a hertz is played at the highest frequency that they hold.
    pub open spec fn request_spec(self, bpm: i64, is_recording: bool, volume: u32) -> SoundRequest {
        SoundRequest {
            frequency: if self.frequency_spec() > u64::MAX {
                u64::MAX
            } else {
                self.frequency_spec() as u64
            },
            duration: self.length.duration_spec(bpm as int) as u64,
            volume,
            real_note: self,
            bpm,
            is_recording,
        }
    }

    /// Plans the playing of this note: the tone, its duration at `bpm` thousandths of a
    /// beat per minute, and the volume. There is nothing to play at a tempo that is not
    /// above zero.
    pub fn play_sound(&self, bpm: i64, is_recording: bool, volume: u32) -> (request: Option<
        SoundRequest,
    >)
        ensures
            request == if bpm > 0 {
                Some(self.request_spec(bpm, is_recording, volume))
            } else {
                None
            },
    {
        let duration = match self.length.duration_in_seconds(bpm) {
            Some(duration) => duration,
            None => {
                return None;
            },
        };
        let frequency = match self.frequency() {
            Some(frequency) => frequency,
            None => u64::MAX,
        };
        Some(
            SoundRequest { frequency, duration, volume, real_note: *self, bpm, is_recording },
        )
    }

    /// Plans the playing of this note alone, on a worker of its own.
    pub fn play_async(&self, bpm: i64, is_recording: bool, volume: u32) -> (requests: Vec<
        SoundRequest,
    >)
        ensures
            requests@ == requests_spec(seq![*self], bpm, is_recording, volume),
    {
        let notes = vec![*self];
        async_play_note(notes.as_slice(), bpm, is_recording, volume)
    }
}

/// One request for each note, in the order of the notes; none at a tempo that is not above
/// zero.
pub open spec fn requests_spec(
    notes: Seq<RealNote>,
    bpm: i64,
    is_recording: bool,
    volume: u32,
) -> Seq<SoundRequest> {
    if bpm > 0 {
        notes.map_values(|note: RealNote| note.request_spec(bpm, is_recording, volume))
    } else {
        Seq::empty()
    }
}

/// Plans the playing of `notes`, each on a worker of its own: one request for each note,
/// in their order. Nothing is played at a tempo that is not above zero.
pub fn async_play_note(notes: &[RealNote], bpm: i64, is_recording: bool, volume: u32) -> (requests:
    Vec<SoundRequest>)
    ensures
        requests@ == requests_spec(notes@, bpm, is_recording, volume),
{
    let mut requests: Vec<SoundRequest> = Vec::new();
    let mut i: usize = 0;
    while i < notes.len()
        invariant
            i <= notes.len(),
            requests@ == requests_spec(notes@.take(i as int), bpm, is_recording, volume),
        decreases notes.len() - i,
    {
        proof {
            let done = notes@.take(i as int);
            let note = notes@[i as int];
            assert(notes@.take(i + 1) == done.push(note));
            if bpm > 0 {
                assert(requests_spec(done.push(note), bpm, is_recording, volume)
                    == requests_spec(done, bpm, is_recording, volume).push(
                    note.request_spec(bpm, is_recording, volume),
                ));
            }
        }
        match notes[i].play_sound(bpm, is_recording, volume) {
            Some(request) => {
                requests.push(request);
            },
            None => {},
        }
        i = i + 1;
    }
    assert(notes@.take(notes.len() as int) == notes@);
    requests
}

impl Playable {
    /// The notes that are played, in order.
    pub open spec fn notes(self) -> Seq<RealNote> {
        match self {
            Playable::Single(note) => seq![note],
            Playable::Chord(chord) => chord.notes@,
        }
    }

    /// Plans the playing: one request for each note, each for a worker of its own.
    pub fn play(&self, bpm: i64, is_recording: bool, volume: u32) -> (requests: Vec<SoundRequest>)
        ensures
            requests@ == requests_spec(self.notes(), bpm, is_recording, volume),
    {
        match self {
            Playable::Single(note) => note.play_async(bpm, is_recording, volume),
            Playable::Chord(chord) => async_play_note(
                chord.notes.as_slice(),
                bpm,
                is_recording,
                volume,
            ),
        }
    }
}

/// The notes that a key plays: nothing for the rest, the major triad on the note where
/// chords are asked for, and else the note itself.
pub open spec fn triggered(note: Note, octave: i32, length: NoteLength, is_chord: bool) -> Seq<
    RealNote,
> {
    let real_note = RealNote { note, length, octave };
    if !note.is_pitch() {
        Seq::empty()
    } else if is_chord {
        Chord::triad_spec(real_note)
    } else {
        seq![real_note]
    }
}

/// Plans what a key of the keyboard plays. A rest plays nothing. Any other note plays
/// alone, or with `is_chord` as the major triad on it, each note as long as `length` at
/// `bpm` thousandths of a beat per minute. Every note gets a request of its own, which a
/// worker renders; the caller never waits for a tone, with `is_async` or without.
pub fn trigger(
    note: Note,
    octave: i32,
    length: NoteLength,
    is_chord: bool,
    is_async: bool,
    bpm: i64,
    volume: u32,
    is_recording: bool,
) -> (requests: Vec<SoundRequest>)
    ensures
        requests@ == requests_spec(
            triggered(note, octave, length, is_chord),
            bpm,
            is_recording,
            volume,
        ),
{
    if note == Note::Rest {
        return Vec::new();
    }
    let real_note = RealNote { note, length, octave };
    let playable = if is_chord {
        Playable::Chord(Chord::triad_from_note(&real_note))
    } else {
        Playable::Single(real_note)
    };
    playable.play(bpm, is_recording, volume)
}

} // verus!
