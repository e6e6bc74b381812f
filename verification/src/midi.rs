use crate::note::Note;
use crate::recording::{sounding, NoteEvent, Song};
use crate::rounding::{
    lemma_round_div_monotonic, lemma_round_div_unique, round_div, rounded_quotient,
};
use crate::smf::{
    event_item, is_written, items_of, note_off_event, note_on_event, smf_bytes, tempo_event,
    write_single_track, SURE_EVENTS,
};
use crate::track::{
    delta_encode, delta_spec, deltas_fit, is_ordered, lemma_ordered_deltas_nonnegative,
    lemma_sorted_contains, lemma_sorted_is_ordered, lemma_sorted_len, note_item, sort_events,
    sorted_events, track_items, MidiKind, MidiSubEvent, TrackItem,
};
use vstd::prelude::*;

verus! {

/// The resolution of every file written: ticks in a quarter note.
pub const TICKS_PER_BEAT: u16 = 480;

/// The velocity of every note-on and note-off written.
pub const VELOCITY: u8 = 64;

/// The channel of every note written.
pub const CHANNEL: u8 = 0;

/// The highest key that a MIDI message can name.
pub const MAX_KEY: u8 = 127;

/// The longest beat that a tempo event can hold, in microseconds: 24 bits.
pub const MAX_TEMPO: u32 = 0xff_ffff;

/// Microseconds in a beat at one thousandth of a beat per minute.
pub const TEMPO_UNIT: u64 = 60_000_000_000;

/// What the product of a time in nanoseconds and a tempo in thousandths of a beat per
/// minute is divided by to give ticks: a minute of nanoseconds, times a thousand, over
/// the ticks in a beat.
pub const TICK_UNIT: u64 = 125_000_000_000;

/// Why a song could not be written as a MIDI file.
#[derive(Debug, Clone, Copy, PartialEq, Eq, Structural)]
pub enum EncodingError {
    /// The note is a rest, which has no key.
    RestPitch,
    /// The note lies below key 0 or above key 127.
    KeyOutOfRange,
    /// The tempo is not positive, or its beat is longer than 24 bits of microseconds.
    TempoOutOfRange,
    /// A note ends later than 32 bits of ticks, or follows the event before it by more than
    /// 28 bits of ticks.
    TickOutOfRange,
    /// The track has more bytes than the writer puts in a file.
    WriteFailure,
}

/// The MIDI encoder.
pub struct Midi {}

impl Midi {
    /// The key of `note` in `octave`: twelve keys to the octave, octave -1 starting at key 0.
    pub open spec fn key_spec(note: Note, octave: int) -> int {
        12 * (octave + 1) + note.index_spec()
    }

    /// The key of a note as a MIDI message holds it, or why it has none.
    pub open spec fn key_result(note: Note, octave: int) -> Result<u8, EncodingError> {
        if !note.is_pitch() {
            Err(EncodingError::RestPitch)
        } else if 0 <= Self::key_spec(note, octave) <= MAX_KEY {
            Ok(Self::key_spec(note, octave) as u8)
        } else {
            Err(EncodingError::KeyOutOfRange)
        }
    }

    /// The MIDI key of `note` in `octave`. A rest has no key, and a key outside 0 to 127 is
    /// refused rather than wrapped.
    pub fn note_to_midi(note: Note, octave: i32) -> (key: Result<u8, EncodingError>)
        ensures
            key == Self::key_result(note, octave as int),
    {
        if note == Note::Rest {
            return Err(EncodingError::RestPitch);
        }
        let key: i64 = 12 * (octave as i64 + 1) + note.index() as i64;
        if 0 <= key && key <= MAX_KEY as i64 {
            Ok(key as u8)
        } else {
            Err(EncodingError::KeyOutOfRange)
        }
    }

    /// The length of a beat in microseconds at `bpm` thousandths of a beat per minute, to
    /// the nearest microsecond.
    pub open spec fn tempo_spec(bpm: int) -> int {
        round_div(TEMPO_UNIT as int, bpm)
    }

    /// The beat length as a tempo event holds it, or the error where it holds none.
    pub open spec fn tempo_result(bpm: int) -> Result<u32, EncodingError> {
        if bpm > 0 && Self::tempo_spec(bpm) <= MAX_TEMPO {
            Ok(Self::tempo_spec(bpm) as u32)
        } else {
            Err(EncodingError::TempoOutOfRange)
        }
    }

    /// The microseconds per beat of a tempo given in thousandths of a beat per minute.
    pub fn bpm_to_microseconds_per_beat(bpm: i64) -> (tempo: Result<u32, EncodingError>)
        ensures
            tempo == Self::tempo_result(bpm as int),
    {
        if bpm <= 0 {
            return Err(EncodingError::TempoOutOfRange);
        }
        let micros = rounded_quotient(TEMPO_UNIT as u128, bpm as u128);
        if micros <= MAX_TEMPO as u128 {
            Ok(micros as u32)
        } else {
            Err(EncodingError::TempoOutOfRange)
        }
    }

    /// The ticks nearest to a time of `nanos` nanoseconds at `bpm` thousandths of a beat
    /// per minute.
    pub open spec fn ticks_spec(nanos: int, bpm: int) -> int {
        round_div(nanos * bpm, TICK_UNIT as int)
    }

    /// The ticks nearest to `nanos` nanoseconds at `bpm` thousandths of a beat per minute.
    /// There are none at a tempo that is not above zero, nor where they are more than 32
    /// bits hold.
    pub fn ticks(nanos: u64, bpm: i64) -> (t: Option<u32>)
        ensures
            match t {
                Some(v) => bpm > 0 && v == Self::ticks_spec(nanos as int, bpm as int),
                None => bpm <= 0 || Self::ticks_spec(nanos as int, bpm as int) > u32::MAX,
            },
    {
        if bpm <= 0 {
            return None;
        }
        assert(nanos as int * bpm as int <= 0xffff_ffff_ffff_ffff * 0x7fff_ffff_ffff_ffff)
            by (nonlinear_arith)
            requires
                0 <= nanos as int <= 0xffff_ffff_ffff_ffff,
                0 < bpm as int <= 0x7fff_ffff_ffff_ffff,
        ;
        let product: u128 = nanos as u128 * bpm as u128;
        let limit: u128 = TICK_UNIT as u128 * 0x1_0000_0000;
        if product >= limit {
            proof {
                lemma_round_div_unique(limit as int, TICK_UNIT as int, 0x1_0000_0000);
                lemma_round_div_monotonic(limit as int, product as int, TICK_UNIT as int);
            }
            return None;
        }
        let t = rounded_quotient(product, TICK_UNIT as u128);
        if t <= u32::MAX as u128 {
            Some(t as u32)
        } else {
            None
        }
    }
}

/// A result that holds a vector agrees with one that holds a sequence where both fail alike
/// or the vector holds the sequence.
pub open spec fn agrees<T>(
    got: Result<Vec<T>, EncodingError>,
    want: Result<Seq<T>, EncodingError>,
) -> bool {
    match got {
        Ok(v) => want == Ok::<Seq<T>, EncodingError>(v@),
        Err(e) => want == Err::<Seq<T>, EncodingError>(e),
    }
}

impl Midi {
    /// The tick at which a note begins.
    pub open spec fn start_tick(e: NoteEvent, bpm: int) -> int {
        Self::ticks_spec(e.offset as int, bpm)
    }

    /// The tick at which a note ends: its beginning and its length are rounded apart.
    pub open spec fn end_tick(e: NoteEvent, bpm: int) -> int {
        Self::ticks_spec(e.offset as int, bpm) + Self::ticks_spec(e.duration as int, bpm)
    }

    /// The key of a note going down.
    pub open spec fn note_on(e: NoteEvent, bpm: int) -> MidiSubEvent {
        MidiSubEvent {
            tick: Self::start_tick(e, bpm) as u32,
            kind: MidiKind::NoteOn,
            key: Self::key_spec(e.note, e.octave as int) as u8,
            velocity: VELOCITY,
            channel: CHANNEL,
        }
    }

    /// The key of a note coming up.
    pub open spec fn note_off(e: NoteEvent, bpm: int) -> MidiSubEvent {
        MidiSubEvent {
            tick: Self::end_tick(e, bpm) as u32,
            kind: MidiKind::NoteOff,
            key: Self::key_spec(e.note, e.octave as int) as u8,
            velocity: VELOCITY,
            channel: CHANNEL,
        }
    }

    /// Why a note cannot be written, if it cannot: its key is outside 0 to 127, or else it
    /// ends after the last tick that 32 bits count. A rest is never written, so nothing is
    /// wrong with it.
    pub open spec fn event_error(e: NoteEvent, bpm: int) -> Option<EncodingError> {
        if !e.note.is_pitch() {
            None
        } else if !(0 <= Self::key_spec(e.note, e.octave as int) <= MAX_KEY) {
            Some(EncodingError::KeyOutOfRange)
        } else if Self::end_tick(e, bpm) > u32::MAX {
            Some(EncodingError::TickOutOfRange)
        } else {
            None
        }
    }

    /// The error of the first note that has one.
    pub open spec fn first_error(notes: Seq<NoteEvent>, bpm: int) -> Option<EncodingError>
        decreases notes.len(),
    {
        if notes.len() == 0 {
            None
        } else {
            match Self::first_error(notes.drop_last(), bpm) {
                Some(e) => Some(e),
                None => Self::event_error(notes.last(), bpm),
            }
        }
    }

    /// For each note that sounds, its key going down and then its key coming up, in the
    /// order of the notes.
    pub open spec fn sub_events_spec(notes: Seq<NoteEvent>, bpm: int) -> Seq<MidiSubEvent> {
        let played = sounding(notes);
        Seq::new(
            2 * played.len(),
            |i: int|
                if i % 2 == 0 {
                    Self::note_on(played[i / 2], bpm)
                } else {
                    Self::note_off(played[i / 2], bpm)
                },
        )
    }

    /// The events of a song before they are put in order, or the first reason why it
    /// cannot be written: its tempo, or else its first note that has an error.
    pub open spec fn sub_events_result(notes: Seq<NoteEvent>, bpm: int) -> Result<
        Seq<MidiSubEvent>,
        EncodingError,
    > {
        if Self::tempo_result(bpm) is Err {
            Err(EncodingError::TempoOutOfRange)
        } else {
            match Self::first_error(notes, bpm) {
                Some(e) => Err(e),
                None => Ok(Self::sub_events_spec(notes, bpm)),
            }
        }
    }

    /// One more note adds its two events behind the others if it sounds, and nothing if it
    /// is a rest.
    pub proof fn lemma_sub_events_push(notes: Seq<NoteEvent>, e: NoteEvent, bpm: int)
        ensures
            sounding(notes.push(e)) == if e.note.is_pitch() {
                sounding(notes).push(e)
            } else {
                sounding(notes)
            },
            Self::sub_events_spec(notes.push(e), bpm) == if e.note.is_pitch() {
                Self::sub_events_spec(notes, bpm).push(Self::note_on(e, bpm)).push(
                    Self::note_off(e, bpm),
                )
            } else {
                Self::sub_events_spec(notes, bpm)
            },
    {
        reveal(Seq::filter);
        assert(notes.push(e).drop_last() == notes);
        let before = sounding(notes);
        let after = sounding(notes.push(e));
        if e.note.is_pitch() {
            assert(after == before.push(e));
            let want = Self::sub_events_spec(notes, bpm).push(Self::note_on(e, bpm)).push(
                Self::note_off(e, bpm),
            );
            let got = Self::sub_events_spec(notes.push(e), bpm);
            assert(got.len() == want.len());
            assert forall|i: int| 0 <= i < got.len() implies got[i] == want[i] by {
                if i < 2 * before.len() {
                    assert(after[i / 2] == before[i / 2]);
                } else {
                    assert(i / 2 == before.len());
                }
            }
            assert(got == want);
        } else {
            assert(after == before);
        }
    }

    /// The key going down and the key coming up of every note of `song` that sounds, in the
    /// order of the notes, each with its tick from the start of the recording. Rests are
    /// left out. Fails on a tempo that a file cannot hold, and on the first note whose key
    /// lies outside 0 to 127 or that ends after the last tick.
    pub fn sub_events(song: &Song) -> (events: Result<Vec<MidiSubEvent>, EncodingError>)
        ensures
            agrees(events, Self::sub_events_result(song.notes@, song.bpm as int)),
    {
        if Self::bpm_to_microseconds_per_beat(song.bpm).is_err() {
            return Err(EncodingError::TempoOutOfRange);
        }
        let bpm = song.bpm;
        let mut events: Vec<MidiSubEvent> = Vec::new();
        let mut i: usize = 0;
        assert(song.notes@.take(0) == Seq::<NoteEvent>::empty());
        while i < song.notes.len()
            invariant
                i <= song.notes.len(),
                bpm == song.bpm,
                bpm > 0,
                Self::tempo_result(bpm as int) is Ok,
                Self::first_error(song.notes@.take(i as int), bpm as int) is None,
                events@ == Self::sub_events_spec(song.notes@.take(i as int), bpm as int),
            decreases song.notes.len() - i,
        {
            let e = song.notes[i];
            proof {
                let prefix = song.notes@.take(i + 1);
                assert(prefix.drop_last() == song.notes@.take(i as int));
                assert(prefix.last() == e);
                assert(prefix == song.notes@.take(i as int).push(e));
                Self::lemma_sub_events_push(song.notes@.take(i as int), e, bpm as int);
                Self::lemma_first_error_prefix(song.notes@, i + 1, bpm as int);
            }
            if e.note != Note::Rest {
                let key = match Self::note_to_midi(e.note, e.octave) {
                    Ok(key) => key,
                    Err(_) => {
                        return Err(EncodingError::KeyOutOfRange);
                    },
                };
                let start = match Self::ticks(e.offset, bpm) {
                    Some(t) => t,
                    None => {
                        proof {
                            crate::rounding::lemma_round_div_nearest(
                                e.duration as int * bpm as int,
                                TICK_UNIT as int,
                            );
                        }
                        return Err(EncodingError::TickOutOfRange);
                    },
                };
                let length = match Self::ticks(e.duration, bpm) {
                    Some(t) => t,
                    None => {
                        proof {
                            crate::rounding::lemma_round_div_nearest(
                                e.offset as int * bpm as int,
                                TICK_UNIT as int,
                            );
                        }
                        return Err(EncodingError::TickOutOfRange);
                    },
                };
                let end = match start.checked_add(length) {
                    Some(t) => t,
                    None => {
                        return Err(EncodingError::TickOutOfRange);
                    },
                };
                events.push(
                    MidiSubEvent {
                        tick: start,
                        kind: MidiKind::NoteOn,
                        key,
                        velocity: VELOCITY,
                        channel: CHANNEL,
                    },
                );
                events.push(
                    MidiSubEvent {
                        tick: end,
                        kind: MidiKind::NoteOff,
                        key,
                        velocity: VELOCITY,
                        channel: CHANNEL,
                    },
                );
            }
            i = i + 1;
        }
        assert(song.notes@.take(song.notes.len() as int) == song.notes@);
        Ok(events)
    }

    /// An error among the first `n` notes is the first error of them all.
    pub proof fn lemma_first_error_prefix(notes: Seq<NoteEvent>, n: int, bpm: int)
        requires
            0 <= n <= notes.len(),
        ensures
            Self::first_error(notes.take(n), bpm) is Some ==> Self::first_error(notes, bpm)
                == Self::first_error(notes.take(n), bpm),
        decreases notes.len() - n,
    {
        if n < notes.len() {
            assert(notes.take(n + 1).drop_last() == notes.take(n));
            Self::lemma_first_error_prefix(notes, n + 1, bpm);
        } else {
            assert(notes.take(n) == notes);
        }
    }
}

impl Midi {
    /// The track of a song, or the first reason why it has none: the error of its events,
    /// or else two events in a row that lie further apart than a track can hold. The events
    /// are put in order first: by tick, at one tick the keys coming up before the keys
    /// going down, and otherwise as the song holds them.
    pub open spec fn track_result(notes: Seq<NoteEvent>, bpm: int) -> Result<
        Seq<TrackItem>,
        EncodingError,
    > {
        match Self::sub_events_result(notes, bpm) {
            Err(e) => Err(e),
            Ok(events) => if deltas_fit(sorted_events(events)) {
                Ok(track_items(Self::tempo_spec(bpm) as u32, sorted_events(events)))
            } else {
                Err(EncodingError::TickOutOfRange)
            },
        }
    }

    /// The single track of the file that `song` is written to: the tempo, then every key
    /// going down and coming up in order of time, each with the ticks since the one before.
    pub fn track(song: &Song) -> (track: Result<Vec<TrackItem>, EncodingError>)
        ensures
            agrees(track, Self::track_result(song.notes@, song.bpm as int)),
    {
        let tempo = match Self::bpm_to_microseconds_per_beat(song.bpm) {
            Ok(tempo) => tempo,
            Err(e) => {
                return Err(e);
            },
        };
        let events = match Self::sub_events(song) {
            Ok(events) => events,
            Err(e) => {
                return Err(e);
            },
        };
        let sorted = sort_events(events);
        match delta_encode(tempo, &sorted) {
            Some(items) => Ok(items),
            None => Err(EncodingError::TickOutOfRange),
        }
    }
}

impl Midi {
    /// Where no note has an error, every event of the song has a key and a velocity of 7
    /// bits and a channel of 4.
    pub proof fn lemma_sub_events_fit(notes: Seq<NoteEvent>, bpm: int)
        requires
            Self::first_error(notes, bpm) is None,
        ensures
            forall|i: int|
                0 <= i < Self::sub_events_spec(notes, bpm).len() ==> (
                #[trigger] Self::sub_events_spec(notes, bpm)[i]).fits(),
        decreases notes.len(),
    {
        if notes.len() > 0 {
            let front = notes.drop_last();
            let e = notes.last();
            assert(front.push(e) == notes);
            Self::lemma_sub_events_fit(front, bpm);
            Self::lemma_sub_events_push(front, e, bpm);
            let before = Self::sub_events_spec(front, bpm);
            let all = Self::sub_events_spec(notes, bpm);
            assert forall|i: int| 0 <= i < all.len() implies (#[trigger] all[i]).fits() by {
                if i < before.len() {
                    assert(all[i] == before[i]);
                }
            }
        }
    }

    /// Every item of a track fits in the bits that a file has for it.
    pub proof fn lemma_track_fits(notes: Seq<NoteEvent>, bpm: int)
        requires
            Self::track_result(notes, bpm) is Ok,
        ensures
            forall|i: int|
                0 <= i < Self::track_result(notes, bpm)->Ok_0.len() ==> (
                #[trigger] Self::track_result(notes, bpm)->Ok_0[i]).fits(),
    {
        let events = Self::sub_events_spec(notes, bpm);
        let sorted = sorted_events(events);
        let items = Self::track_result(notes, bpm)->Ok_0;
        Self::lemma_sub_events_fit(notes, bpm);
        lemma_sorted_len(events);
        assert forall|i: int| 0 <= i < items.len() implies (#[trigger] items[i]).fits() by {
            if i > 0 {
                let e = sorted[i - 1];
                assert(sorted.contains(e));
                lemma_sorted_contains(events, e);
                let k = choose|k: int| 0 <= k < events.len() && events[k] == e;
                assert(events[k].fits());
                assert(items[i] == note_item(sorted, i - 1));
                assert(0 <= delta_spec(sorted, i - 1) <= crate::track::MAX_DELTA);
            }
        }
    }

    /// Whether a song is written to a file: it has a track, and the track is written.
    pub open spec fn file_written(notes: Seq<NoteEvent>, bpm: int) -> bool {
        Self::track_result(notes, bpm) matches Ok(items) && is_written(TICKS_PER_BEAT, items)
    }

    /// A song that has a track of up to `SURE_EVENTS` events is written: so is every song
    /// without an error of up to 134 million notes, the empty one among them.
    pub proof fn lemma_short_song_is_written(notes: Seq<NoteEvent>, bpm: int)
        requires
            Self::track_result(notes, bpm) is Ok,
            1 + 2 * notes.len() <= SURE_EVENTS,
        ensures
            Self::file_written(notes, bpm),
    {
        sounding(notes).lemma_filter_len(|e: NoteEvent| e.note.is_pitch());
        lemma_sorted_len(Self::sub_events_spec(notes, bpm));
    }

    /// What is handed back for what the file writer returned: its bytes, or that it failed.
    pub fn written(bytes: Option<Vec<u8>>) -> (file: Result<Vec<u8>, EncodingError>)
        ensures
            file == match bytes {
                Some(b) => Ok::<Vec<u8>, EncodingError>(b),
                None => Err::<Vec<u8>, EncodingError>(EncodingError::WriteFailure),
            },
    {
        match bytes {
            Some(b) => Ok(b),
            None => Err(EncodingError::WriteFailure),
        }
    }

    /// The bytes of the Standard MIDI File of `song`: format 0, one track, 480 ticks to the
    /// beat. The track opens with the tempo and holds every note that sounds as a key going
    /// down and a key coming up on channel 0 with velocity 64, in order of time. A song
    /// without notes gives a file with the tempo alone.
    ///
    /// Fails where the song has no track, with the error of `track`, and with
    /// `WriteFailure` where the track is too long to be written. A track of up to
    /// `SURE_EVENTS` events is always written.
    pub fn midi_file_create(song: Song) -> (file: Result<Vec<u8>, EncodingError>)
        ensures
            Self::file_written(song.notes@, song.bpm as int) == (file is Ok),
            match file {
                Ok(bytes) => Self::track_result(song.notes@, song.bpm as int) matches Ok(items)
                    && bytes@ == smf_bytes(TICKS_PER_BEAT, items),
                Err(e) => match Self::track_result(song.notes@, song.bpm as int) {
                    Ok(_) => e == EncodingError::WriteFailure,
                    Err(reason) => e == reason,
                },
            },
    {
        let items = match Self::track(&song) {
            Ok(items) => items,
            Err(e) => {
                return Err(e);
            },
        };
        proof {
            Self::lemma_track_fits(song.notes@, song.bpm as int);
            let want = Self::track_result(song.notes@, song.bpm as int)->Ok_0;
            assert forall|k: int| 0 <= k < items.len() implies (#[trigger] items@[k]).fits() by {
                assert(want[k].fits());
            }
        }
        let mut track: Vec<midly::TrackEvent<'static>> = Vec::new();
        let mut i: usize = 0;
        assert(items_of(track@) == items@.take(0));
        while i < items.len()
            invariant
                i <= items.len(),
                forall|k: int| 0 <= k < items.len() ==> (#[trigger] items@[k]).fits(),
                items_of(track@) == items@.take(i as int),
            decreases items.len() - i,
        {
            let event = match items[i] {
                TrackItem::Tempo { delta, micros_per_beat } => tempo_event(delta, micros_per_beat),
                TrackItem::Note { delta, kind, key, velocity, channel } => match kind {
                    MidiKind::NoteOn => note_on_event(delta, channel, key, velocity),
                    MidiKind::NoteOff => note_off_event(delta, channel, key, velocity),
                },
            };
            proof {
                assert(items@[i as int].fits());
                assert(event_item(event) == items@[i as int]);
                assert(items_of(track@.push(event)) =~= items_of(track@).push(event_item(event)));
                assert(items@.take(i + 1) =~= items@.take(i as int).push(items@[i as int]));
            }
            track.push(event);
            i = i + 1;
        }
        assert(items@.take(items.len() as int) == items@);
        assert(track.len() == items.len());
        Self::written(write_single_track(TICKS_PER_BEAT, &track))
    }
}

impl Midi {
    /// A song whose notes include `n` that sound has exactly `2 * n` note events, a key
    /// going down and a key coming up for each; rests add none. Putting the events in order
    /// keeps their number, and the track holds them and the tempo.
    pub proof fn lemma_two_events_per_note(notes: Seq<NoteEvent>, bpm: int)
        ensures
            Self::sub_events_spec(notes, bpm).len() == 2 * sounding(notes).len(),
            sorted_events(Self::sub_events_spec(notes, bpm)).len() == 2 * sounding(notes).len(),
            Self::track_result(notes, bpm) matches Ok(items) ==> items.len() == 1 + 2 * sounding(
                notes,
            ).len(),
    {
        lemma_sorted_len(Self::sub_events_spec(notes, bpm));
    }

    /// Whatever the song, its events come out in order of tick, and so the time from each
    /// event to the next is zero or more.
    pub proof fn lemma_deltas_nonnegative(notes: Seq<NoteEvent>, bpm: int)
        ensures
            is_ordered(sorted_events(Self::sub_events_spec(notes, bpm))),
            forall|i: int|
                0 <= i < sorted_events(Self::sub_events_spec(notes, bpm)).len()
                    ==> #[trigger] delta_spec(sorted_events(Self::sub_events_spec(notes, bpm)), i)
                    >= 0,
    {
        lemma_sorted_is_ordered(Self::sub_events_spec(notes, bpm));
        lemma_ordered_deltas_nonnegative(sorted_events(Self::sub_events_spec(notes, bpm)));
    }

    /// The track of a song without notes holds the tempo and nothing else.
    pub proof fn lemma_empty_song(bpm: int)
        requires
            Self::tempo_result(bpm) is Ok,
        ensures
            Self::track_result(Seq::<NoteEvent>::empty(), bpm) == Ok::<
                Seq<TrackItem>,
                EncodingError,
            >(seq![TrackItem::Tempo { delta: 0, micros_per_beat: Self::tempo_spec(bpm) as u32 }]),
    {
        reveal(Seq::filter);
        let notes = Seq::<NoteEvent>::empty();
        let events = Self::sub_events_spec(notes, bpm);
        assert(events == Seq::<MidiSubEvent>::empty());
        let items = track_items(Self::tempo_spec(bpm) as u32, sorted_events(events));
        assert(items == seq![
            TrackItem::Tempo { delta: 0, micros_per_beat: Self::tempo_spec(bpm) as u32 },
        ]);
    }

    /// A song with an error in one of its notes has no track.
    pub proof fn lemma_error_is_kept(notes: Seq<NoteEvent>, i: int, bpm: int)
        requires
            0 <= i < notes.len(),
            Self::event_error(notes[i], bpm) is Some,
        ensures
            Self::first_error(notes, bpm) is Some,
            Self::track_result(notes, bpm) is Err,
        decreases notes.len(),
    {
        if i < notes.len() - 1 {
            assert(notes.drop_last()[i] == notes[i]);
            Self::lemma_error_is_kept(notes.drop_last(), i, bpm);
        }
    }

    /// A note that sounds and whose key lies below 0 or above 127 is never written with
    /// another key: the song that holds it has no track and no file.
    pub proof fn lemma_key_out_of_range_is_refused(notes: Seq<NoteEvent>, i: int, bpm: int)
        requires
            0 <= i < notes.len(),
            notes[i].note.is_pitch(),
            !(0 <= Self::key_spec(notes[i].note, notes[i].octave as int) <= MAX_KEY),
        ensures
            Self::key_result(notes[i].note, notes[i].octave as int) == Err::<u8, EncodingError>(
                EncodingError::KeyOutOfRange,
            ),
            Self::track_result(notes, bpm) is Err,
    {
        Self::lemma_error_is_kept(notes, i, bpm);
    }
}

} // verus!
