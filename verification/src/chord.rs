use crate::note::{Note, RealNote};
use crate::program::Program;
use vstd::prelude::*;

verus! {

/// Notes that are played together.
#[derive(Debug, Clone)]
pub struct Chord {
    pub notes: Vec<RealNote>,
}

impl Chord {
    /// How many semitones the degree `degree` of a major scale lies above its root: whole
    /// steps, but half a step before the fourth degree.
    pub open spec fn major_step(degree: int) -> int {
        if degree < 3 {
            2 * degree
        } else {
            2 * degree - 1
        }
    }

    /// The major scale on `root`: its seven degrees from the root upward. The scale of the
    /// rest is every note, the rest itself last.
    pub open spec fn major_scale_spec(root: Note) -> Seq<Note> {
        if root.is_pitch() {
            Seq::new(7, |degree: int| Note::at((root.index_spec() + Self::major_step(degree)) % 12))
        } else {
            Seq::new(
                13,
                |i: int|
                    if i < 12 {
                        Note::at(i)
                    } else {
                        Note::Rest
                    },
            )
        }
    }

    /// The major scale on `note`, from the root upward.
    pub fn get_major_scale(note: Note) -> (scale: Vec<Note>)
        ensures
            scale@ == Self::major_scale_spec(note),
    {
        let scale = match note {
            Note::A => vec![
                Note::A,
                Note::B,
                Note::Csharp,
                Note::D,
                Note::E,
                Note::Fsharp,
                Note::Gsharp,
            ],
            Note::Asharp => vec![
                Note::Asharp,
                Note::C,
                Note::D,
                Note::Dsharp,
                Note::F,
                Note::G,
                Note::A,
            ],
            Note::B => vec![
                Note::B,
                Note::Csharp,
                Note::Dsharp,
                Note::E,
                Note::Fsharp,
                Note::Gsharp,
                Note::Asharp,
            ],
            Note::C => vec![Note::C, Note::D, Note::E, Note::F, Note::G, Note::A, Note::B],
            Note::Csharp => vec![
                Note::Csharp,
                Note::Dsharp,
                Note::F,
                Note::Fsharp,
                Note::Gsharp,
                Note::Asharp,
                Note::C,
            ],
            Note::D => vec![
                Note::D,
                Note::E,
                Note::Fsharp,
                Note::G,
                Note::A,
                Note::B,
                Note::Csharp,
            ],
            Note::Dsharp => vec![
                Note::Dsharp,
                Note::F,
                Note::G,
                Note::Gsharp,
                Note::Asharp,
                Note::C,
                Note::D,
            ],
            Note::E => vec![
                Note::E,
                Note::Fsharp,
                Note::Gsharp,
                Note::A,
                Note::B,
                Note::Csharp,
                Note::Dsharp,
            ],
            Note::F => vec![Note::F, Note::G, Note::A, Note::Asharp, Note::C, Note::D, Note::E],
            Note::Fsharp => vec![
                Note::Fsharp,
                Note::Gsharp,
                Note::Asharp,
                Note::B,
                Note::Csharp,
                Note::Dsharp,
                Note::F,
            ],
            Note::G => vec![Note::G, Note::A, Note::B, Note::C, Note::D, Note::E, Note::Fsharp],
            Note::Gsharp => vec![
                Note::Gsharp,
                Note::Asharp,
                Note::C,
                Note::Csharp,
                Note::Dsharp,
                Note::F,
                Note::G,
            ],
            Note::Rest => vec![
                Note::C,
                Note::Csharp,
                Note::D,
                Note::Dsharp,
                Note::E,
                Note::F,
                Note::Fsharp,
                Note::G,
                Note::Gsharp,
                Note::A,
                Note::Asharp,
                Note::B,
                Note::Rest,
            ],
        };
        assert(scale@ =~= Self::major_scale_spec(note));
        scale
    }

    /// Whether the keyboard marks `note`: it does where no scale is chosen, and where the
    /// major scale on the chosen root holds the note.
    pub open spec fn in_scale_spec(selected_scale: Option<Note>, note: Note) -> bool {
        match selected_scale {
            None => true,
            Some(root) => Self::major_scale_spec(root).contains(note),
        }
    }

    /// Whether `note` belongs to the scale that `program` has chosen; every note does where
    /// none is chosen.
    pub fn is_note_in_scale(program: &Program, note: Note) -> (found: bool)
        ensures
            found == Self::in_scale_spec(program.selected_scale, note),
    {
        match program.selected_scale {
            None => true,
            Some(root) => {
                let scale = Self::get_major_scale(root);
                let mut i: usize = 0;
                while i < scale.len()
                    invariant
                        i <= scale.len(),
                        scale@ == Self::major_scale_spec(root),
                        program.selected_scale == Some(root),
                        forall|k: int| 0 <= k < i ==> scale@[k] != note,
                    decreases scale.len() - i,
                {
                    if scale[i] == note {
                        assert(scale@[i as int] == note);
                        return true;
                    }
                    i = i + 1;
                }
                false
            },
        }
    }

    /// The notes of the major triad on `note`: the first, third and fifth degree of the
    /// major scale on its pitch, each as long as `note` and in its octave.
    pub open spec fn triad_spec(note: RealNote) -> Seq<RealNote> {
        Seq::new(
            3,
            |i: int|
                RealNote {
                    note: Self::major_scale_spec(note.note)[2 * i],
                    length: note.length,
                    octave: note.octave,
                },
        )
    }

    /// The major triad on `note`.
    pub fn triad_from_note(note: &RealNote) -> (chord: Chord)
        ensures
            chord.notes@ == Self::triad_spec(*note),
    {
        let scale = Self::get_major_scale(note.note);
        let chord = Chord {
            notes: vec![
                RealNote { note: scale[0], length: note.length, octave: note.octave },
                RealNote { note: scale[2], length: note.length, octave: note.octave },
                RealNote { note: scale[4], length: note.length, octave: note.octave },
            ],
        };
        assert(chord.notes@ =~= Self::triad_spec(*note));
        chord
    }
}

/// The major triad on a pitch is the pitch itself, the pitch four semitones above it and
/// the pitch seven semitones above it, each taken within the octave.
pub proof fn lemma_triad_intervals(note: RealNote)
    requires
        note.note.is_pitch(),
    ensures
        Chord::triad_spec(note)[0].note == note.note,
        Chord::triad_spec(note)[1].note == Note::at((note.note.index_spec() + 4) % 12),
        Chord::triad_spec(note)[2].note == Note::at((note.note.index_spec() + 7) % 12),
{
}

} // verus!
