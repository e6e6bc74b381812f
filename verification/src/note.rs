use crate::rounding::{lemma_round_div_nearest, round_div, rounded_quotient};
use vstd::arithmetic::div_mod::{lemma_div_denominator, lemma_div_is_ordered_by_denominator};
use vstd::arithmetic::power2::{
    lemma_pow2_pos, lemma_pow2_strictly_increases, lemma_pow2_unfold, pow2,
};
use vstd::prelude::*;

verus! {

/// The fastest tempo accepted, 300 beats per minute, in thousandths of a beat per minute.
pub const MAX_BPM: i64 = 300_000;

/// The tempo taken in place of a refused one, 60 beats per minute, in thousandths.
pub const DEFAULT_BPM: i64 = 60_000;

/// How long a sixteenth note would sound at one thousandth of a beat per minute, in nanoseconds:
/// a quarter of the sixty seconds that a beat lasts at one beat per minute, times a thousand.
pub const SIXTEENTH_NANOS: u64 = 15_000_000_000_000;

/// A pitch class of the chromatic scale, or `Rest` where no pitch is meant.
#[derive(Debug, Hash, Eq, PartialEq, Clone, Copy, Structural)]
pub enum Note {
    A,
    Asharp,
    B,
    C,
    Csharp,
    D,
    Dsharp,
    E,
    F,
    Fsharp,
    G,
    Gsharp,
    Rest,
}

impl Note {
    /// Every note in chromatic order from C, with the rest last.
    pub const ALL: [Note; 13] = [
        Note::C,
        Note::Csharp,
        Note::D,
        Note::Dsharp,
        Note::E,
        Note::F,
        Note::Fsharp,
        Note::G,
        Note::Gsharp,
        Note::A,
        Note::Asharp,
        Note::B,
        Note::Rest,
    ];

    /// True of the twelve pitch classes, false of the rest.
    pub open spec fn is_pitch(self) -> bool {
        self != Note::Rest
    }

    /// Semitones above C, with 0 for the rest.
    pub open spec fn index_spec(self) -> int {
        match self {
            Note::C => 0,
            Note::Csharp => 1,
            Note::D => 2,
            Note::Dsharp => 3,
            Note::E => 4,
            Note::F => 5,
            Note::Fsharp => 6,
            Note::G => 7,
            Note::Gsharp => 8,
            Note::A => 9,
            Note::Asharp => 10,
            Note::B => 11,
            Note::Rest => 0,
        }
    }

    /// The pitch class that lies `i` semitones above C.
    pub open spec fn at(i: int) -> Note {
        if i == 0 {
            Note::C
        } else if i == 1 {
            Note::Csharp
        } else if i == 2 {
            Note::D
        } else if i == 3 {
            Note::Dsharp
        } else if i == 4 {
            Note::E
        } else if i == 5 {
            Note::F
        } else if i == 6 {
            Note::Fsharp
        } else if i == 7 {
            Note::G
        } else if i == 8 {
            Note::Gsharp
        } else if i == 9 {
            Note::A
        } else if i == 10 {
            Note::Asharp
        } else {
            Note::B
        }
    }

    /// The pitch class that lies `i` semitones above C.
    pub fn from_index(i: u8) -> (note: Note)
        requires
            i < 12,
        ensures
            note == Note::at(i as int),
            note.is_pitch(),
            note.index_spec() == i,
    {
        match i {
            0 => Note::C,
            1 => Note::Csharp,
            2 => Note::D,
            3 => Note::Dsharp,
            4 => Note::E,
            5 => Note::F,
            6 => Note::Fsharp,
            7 => Note::G,
            8 => Note::Gsharp,
            9 => Note::A,
            10 => Note::Asharp,
            _ => Note::B,
        }
    }

    /// The name of the note, the rest being called `None`.
    pub open spec fn name(self) -> Seq<char> {
        match self {
            Note::C => "C"@,
            Note::Csharp => "C#"@,
            Note::D => "D"@,
            Note::Dsharp => "D#"@,
            Note::E => "E"@,
            Note::F => "F"@,
            Note::Fsharp => "F#"@,
            Note::G => "G"@,
            Note::Gsharp => "G#"@,
            Note::A => "A"@,
            Note::Asharp => "A#"@,
            Note::B => "B"@,
            Note::Rest => "None"@,
        }
    }

    /// The name of the note, as shown to the player.
    pub fn to_string(&self) -> (text: String)
        ensures
            text@ == self.name(),
    {
        match self {
            Note::C => "C".to_owned(),
            Note::Csharp => "C#".to_owned(),
            Note::D => "D".to_owned(),
            Note::Dsharp => "D#".to_owned(),
            Note::E => "E".to_owned(),
            Note::F => "F".to_owned(),
            Note::Fsharp => "F#".to_owned(),
            Note::G => "G".to_owned(),
            Note::Gsharp => "G#".to_owned(),
            Note::A => "A".to_owned(),
            Note::Asharp => "A#".to_owned(),
            Note::B => "B".to_owned(),
            Note::Rest => "None".to_owned(),
        }
    }

    /// The number of semitones that this note lies above C.
    pub fn index(self) -> (i: u8)
        ensures
            i == self.index_spec(),
            i < 12,
    {
        match self {
            Note::C => 0,
            Note::Csharp => 1,
            Note::D => 2,
            Note::Dsharp => 3,
            Note::E => 4,
            Note::F => 5,
            Note::Fsharp => 6,
            Note::G => 7,
            Note::Gsharp => 8,
            Note::A => 9,
            Note::Asharp => 10,
            Note::B => 11,
            Note::Rest => 0,
        }
    }
}

/// How many beats a note is held.
#[derive(Debug, Clone, Copy, PartialEq, Eq, Structural)]
pub enum NoteLength {
    Whole,
    Half,
    Quarter,
    Eighth,
    Sixteenth,
}

impl NoteLength {
    /// The length counted in sixteenth notes.
    pub open spec fn sixteenths(self) -> int {
        match self {
            NoteLength::Whole => 16,
            NoteLength::Half => 8,
            NoteLength::Quarter => 4,
            NoteLength::Eighth => 2,
            NoteLength::Sixteenth => 1,
        }
    }

    /// The time that a note of this length takes at `bpm` thousandths of a beat per minute,
    /// to the nearest nanosecond: a quarter note lasts sixty seconds divided by the beats
    /// per minute.
    pub open spec fn duration_spec(self, bpm: int) -> int {
        round_div(SIXTEENTH_NANOS * self.sixteenths(), bpm)
    }

    /// The time in nanoseconds that a note of this length sounds at `bpm` thousandths of a
    /// beat per minute. A tempo that is not positive has no duration.
    pub fn duration_in_seconds(&self, bpm: i64) -> (d: Option<u64>)
        ensures
            match d {
                Some(nanos) => bpm > 0 && nanos == self.duration_spec(bpm as int),
                None => bpm <= 0,
            },
    {
        if bpm <= 0 {
            return None;
        }
        let count: u64 = match self {
            NoteLength::Whole => 16,
            NoteLength::Half => 8,
            NoteLength::Quarter => 4,
            NoteLength::Eighth => 2,
            NoteLength::Sixteenth => 1,
        };
        let nanos = rounded_quotient((SIXTEENTH_NANOS * count) as u128, bpm as u128);
        Some(nanos as u64)
    }

    /// Whether `bpm`, in thousandths of a beat per minute, is a tempo to play at:
    /// above zero and at most 300 beats per minute.
    pub fn check_bpm(bpm: i64) -> (ok: bool)
        ensures
            ok == (0 < bpm <= MAX_BPM),
    {
        0 < bpm && bpm <= MAX_BPM
    }

    /// The name of the length.
    pub open spec fn name(self) -> Seq<char> {
        match self {
            NoteLength::Whole => "Whole"@,
            NoteLength::Half => "Half"@,
            NoteLength::Quarter => "Quarter"@,
            NoteLength::Eighth => "Eighth"@,
            NoteLength::Sixteenth => "Sixteenth"@,
        }
    }

    /// The name of the length, as shown to the player.
    pub fn to_string(&self) -> (text: String)
        ensures
            text@ == self.name(),
    {
        match self {
            NoteLength::Whole => "Whole".to_owned(),
            NoteLength::Half => "Half".to_owned(),
            NoteLength::Quarter => "Quarter".to_owned(),
            NoteLength::Eighth => "Eighth".to_owned(),
            NoteLength::Sixteenth => "Sixteenth".to_owned(),
        }
    }
}

/// At any tempo up to 300 beats per minute, a faster tempo makes every note length strictly
/// shorter.
pub proof fn lemma_duration_strictly_decreasing(length: NoteLength, slow: int, fast: int)
    requires
        0 < slow < fast <= MAX_BPM,
    ensures
        length.duration_spec(fast) < length.duration_spec(slow),
{
    let n = SIXTEENTH_NANOS * length.sixteenths();
    assert(n >= 15_000_000_000_000);
    lemma_round_div_nearest(n, slow);
    lemma_round_div_nearest(n, fast);
    let q_slow = round_div(n, slow);
    let q_fast = round_div(n, fast);
    assert(q_fast >= fast) by (nonlinear_arith)
        requires
            0 < fast <= 300_000,
            n >= 15_000_000_000_000,
            2 * n < 2 * fast * q_fast + fast,
    {
        if q_fast < fast {
            assert(fast * q_fast <= fast * fast);
            assert(fast * fast <= 300_000 * 300_000);
        }
    }
    assert(q_fast < q_slow) by (nonlinear_arith)
        requires
            0 < slow < fast,
            q_fast >= fast,
            2 * fast * q_fast - fast <= 2 * n,
            2 * n < 2 * slow * q_slow + slow,
    {
        if q_slow <= q_fast {
            assert(slow * q_slow <= slow * q_fast);
            assert((fast - slow) * q_fast >= q_fast);
        }
    }
}

/// At any tempo up to 300 beats per minute every note length lasts: its duration is above
/// zero.
pub proof fn lemma_duration_positive(length: NoteLength, bpm: int)
    requires
        0 < bpm <= MAX_BPM,
    ensures
        length.duration_spec(bpm) > 0,
{
    let n = SIXTEENTH_NANOS * length.sixteenths();
    lemma_round_div_nearest(n, bpm);
    let q = round_div(n, bpm);
    assert(q > 0) by (nonlinear_arith)
        requires
            0 < bpm <= 300_000,
            n >= 15_000_000_000_000,
            2 * n < 2 * bpm * q + bpm,
    ;
}

/// A note as it is played: its pitch, how long it is held, and its octave.
#[derive(Debug, Clone, Copy, PartialEq, Eq, Structural)]
pub struct RealNote {
    pub note: Note,
    pub length: NoteLength,
    pub octave: i32,
}

impl RealNote {
    /// The frequency of `note` in octave 0, in hundredths of a hertz; the rest has none.
    pub open spec fn base_frequency_spec(note: Note) -> int {
        match note {
            Note::C => 1635,
            Note::Csharp => 1732,
            Note::D => 1835,
            Note::Dsharp => 1945,
            Note::E => 2060,
            Note::F => 2183,
            Note::Fsharp => 2312,
            Note::G => 2450,
            Note::Gsharp => 2596,
            Note::A => 2750,
            Note::Asharp => 2914,
            Note::B => 3087,
            Note::Rest => 0,
        }
    }

    /// The frequency of `note` in octave 0, in hundredths of a hertz.
    pub fn base_frequencies(note: Note) -> (f: u32)
        ensures
            f == Self::base_frequency_spec(note),
    {
        match note {
            Note::C => 1635,
            Note::Csharp => 1732,
            Note::D => 1835,
            Note::Dsharp => 1945,
            Note::E => 2060,
            Note::F => 2183,
            Note::Fsharp => 2312,
            Note::G => 2450,
            Note::Gsharp => 2596,
            Note::A => 2750,
            Note::Asharp => 2914,
            Note::B => 3087,
            Note::Rest => 0,
        }
    }

    /// The frequency of the tone in hundredths of a hertz: the frequency in octave 0,
    /// doubled once for each octave above it and halved, rounding down, once for each
    /// octave below it.
    pub open spec fn frequency_spec(self) -> int {
        if self.octave >= 0 {
            Self::base_frequency_spec(self.note) * pow2(self.octave as nat)
        } else {
            Self::base_frequency_spec(self.note) / (pow2((-self.octave) as nat) as int)
        }
    }

    /// The frequency of the tone in hundredths of a hertz, or `None` where it is too high
    /// to be held in 64 bits.
    pub fn frequency(&self) -> (f: Option<u64>)
        ensures
            match f {
                Some(v) => v == self.frequency_spec(),
                None => self.frequency_spec() > u64::MAX,
            },
    {
        let base: u64 = Self::base_frequencies(self.note) as u64;
        if base == 0 {
            proof {
                if self.octave >= 0 {
                    assert(0int * pow2(self.octave as nat) == 0) by (nonlinear_arith);
                } else {
                    lemma_pow2_pos((-self.octave) as nat);
                }
            }
            return Some(0);
        }
        let mut value: u64 = base;
        if self.octave >= 0 {
            let mut i: i32 = 0;
            proof {
                vstd::arithmetic::power2::lemma2_to64();
            }
            while i < self.octave
                invariant
                    0 <= i <= self.octave,
                    base > 0,
                    base == Self::base_frequency_spec(self.note),
                    value == base * pow2(i as nat),
                decreases self.octave - i,
            {
                if value > u64::MAX / 2 {
                    proof {
                        let top = pow2(self.octave as nat) as int;
                        let next = pow2((i + 1) as nat) as int;
                        lemma_pow2_unfold((i + 1) as nat);
                        if i + 1 < self.octave {
                            lemma_pow2_strictly_increases((i + 1) as nat, self.octave as nat);
                        }
                        assert(base * top >= base * next) by (nonlinear_arith)
                            requires
                                base > 0,
                                top >= next,
                        ;
                        assert(base * next == 2 * (base * pow2(i as nat))) by (nonlinear_arith)
                            requires
                                next == 2 * pow2(i as nat),
                        ;
                    }
                    return None;
                }
                proof {
                    lemma_pow2_unfold((i + 1) as nat);
                    assert(base * pow2((i + 1) as nat) == 2 * (base * pow2(i as nat)))
                        by (nonlinear_arith)
                        requires
                            pow2((i + 1) as nat) == 2 * pow2(i as nat),
                    ;
                }
                value = value * 2;
                i = i + 1;
            }
            Some(value)
        } else {
            let steps: i64 = -(self.octave as i64);
            let mut i: i64 = 0;
            proof {
                vstd::arithmetic::power2::lemma2_to64();
                let one = pow2(0) as int;
                assert(base as int / one == base) by (nonlinear_arith)
                    requires
                        one == 1,
                ;
            }
            while i < steps && value > 0
                invariant
                    0 <= i <= steps,
                    steps == -self.octave,
                    base == Self::base_frequency_spec(self.note),
                    value == base as int / (pow2(i as nat) as int),
                decreases steps - i,
            {
                proof {
                    lemma_pow2_unfold((i + 1) as nat);
                    lemma_pow2_pos(i as nat);
                    lemma_div_denominator(base as int, pow2(i as nat) as int, 2);
                    assert(pow2(i as nat) * 2 == 2 * pow2(i as nat)) by (nonlinear_arith);
                }
                value = value / 2;
                i = i + 1;
            }
            proof {
                if i < steps {
                    lemma_pow2_pos(i as nat);
                    lemma_pow2_strictly_increases(i as nat, steps as nat);
                    lemma_div_is_ordered_by_denominator(
                        base as int,
                        pow2(i as nat) as int,
                        pow2(steps as nat) as int,
                    );
                    lemma_pow2_pos(steps as nat);
                    vstd::arithmetic::div_mod::lemma_div_pos_is_pos(
                        base as int,
                        pow2(steps as nat) as int,
                    );
                }
            }
            Some(value)
        }
    }
}

} // verus!
