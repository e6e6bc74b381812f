use crate::note::{Note, RealNote};
use vstd::prelude::*;

verus! {

/// One note of a recording: what was played, in which octave, how long after the recording
/// began, and for how long, both in nanoseconds.
#[derive(Debug, Clone, Copy, PartialEq, Eq, Structural)]
pub struct NoteEvent {
    pub note: Note,
    pub octave: i32,
    pub offset: u64,
    pub duration: u64,
}

/// A finished recording: its notes, and the tempo in thousandths of a beat per minute that
/// was set when the recording was stopped.
#[derive(Debug, Clone)]
pub struct Song {
    pub notes: Vec<NoteEvent>,
    pub bpm: i64,
}

impl Default for Song {
    /// The empty song at 120 beats per minute.
    fn default() -> (song: Self)
        ensures
            song.notes@ == Seq::<NoteEvent>::empty(),
            song.bpm == 120_000,
    {
        Song { notes: Vec::new(), bpm: 120_000 }
    }
}

/// What a session keeps of a note under its pitch: the octave, and in nanoseconds how long
/// after the start of the recording it began and how long it lasted.
#[derive(Debug, Clone, Copy, PartialEq, Eq, Structural)]
pub struct Take {
    pub octave: i32,
    pub offset: u64,
    pub duration: u64,
}

/// Where a session stands. It begins idle, records from `start` to `stop`, and is frozen
/// from then on.
#[derive(Debug, Clone, Copy, PartialEq, Eq, Structural)]
pub enum SessionState {
    Idle,
    Recording,
    Frozen,
}

/// A session as contracts see it: its state, the clock reading at its start in
/// nanoseconds, and for each pitch what was recorded of it, in the order of recording.
#[verifier::ext_equal]
pub struct SessionView {
    pub state: SessionState,
    pub started: u64,
    pub events: Map<Note, Seq<Take>>,
}

/// Nothing recorded: every pitch has the empty sequence, and the rest has no entry.
pub open spec fn no_events() -> Map<Note, Seq<Take>> {
    Map::new(|n: Note| n.is_pitch(), |n: Note| Seq::<Take>::empty())
}

/// What a session keeps of `e`.
pub open spec fn take_of(e: NoteEvent) -> Take {
    Take { octave: e.octave, offset: e.offset, duration: e.duration }
}

/// The note that was recorded as `take` under `note`.
pub open spec fn event_of(note: Note, take: Take) -> NoteEvent {
    NoteEvent { note, octave: take.octave, offset: take.offset, duration: take.duration }
}

/// The notes recorded under `note`, in the order of recording.
pub open spec fn events_of(note: Note, takes: Seq<Take>) -> Seq<NoteEvent> {
    takes.map_values(|t: Take| event_of(note, t))
}

/// The notes of the first `pitches` pitch classes from C upward, pitch by pitch.
pub open spec fn flattened(events: Map<Note, Seq<Take>>, pitches: int) -> Seq<NoteEvent>
    decreases pitches,
{
    if pitches <= 0 {
        Seq::empty()
    } else {
        flattened(events, pitches - 1) + events_of(
            Note::at(pitches - 1),
            events[Note::at(pitches - 1)],
        )
    }
}

/// The notes that sound: all but the rests, in their order.
pub open spec fn sounding(notes: Seq<NoteEvent>) -> Seq<NoteEvent> {
    notes.filter(|e: NoteEvent| e.note.is_pitch())
}

impl SessionView {
    /// The session after each note of `reports` was reported to it, one after the other.
    pub open spec fn record_all(self, reports: Seq<NoteEvent>) -> SessionView
        decreases reports.len(),
    {
        if reports.len() == 0 {
            self
        } else {
            self.record_all(reports.drop_last()).record(reports.last())
        }
    }

    /// Every pitch has a sequence, and the rest has none.
    pub open spec fn wf(self) -> bool {
        self.events.dom() =~= Set::new(|n: Note| n.is_pitch())
    }

    /// All that was recorded: the notes of C in the order of recording, then those of C
    /// sharp, and so on up to B.
    pub open spec fn notes(self) -> Seq<NoteEvent> {
        flattened(self.events, 12)
    }

    /// The session after `e` was reported to it. A session that is recording puts a note
    /// that sounds behind the others of its pitch; any other report changes nothing.
    pub open spec fn record(self, e: NoteEvent) -> SessionView {
        if self.accepts(e) {
            SessionView {
                events: self.events.insert(e.note, self.events[e.note].push(take_of(e))),
                ..self
            }
        } else {
            self
        }
    }

    /// Whether a report of `e` is taken: the session is recording and `e` is no rest.
    pub open spec fn accepts(self, e: NoteEvent) -> bool {
        self.state == SessionState::Recording && e.note.is_pitch()
    }

    /// The time recorded so far when the clock reads `now`; none while nothing is recorded.
    pub open spec fn elapsed(self, now: u64) -> int {
        if self.state == SessionState::Recording && now >= self.started {
            now - self.started
        } else {
            0
        }
    }
}

/// Putting one more take behind those of a pitch adds that note to the notes of all
/// pitch classes up to `pitches`, if its pitch is among them, and changes nothing else.
proof fn lemma_flattened_push(events: Map<Note, Seq<Take>>, e: NoteEvent, pitches: int)
    requires
        e.note.is_pitch(),
        0 <= pitches <= 12,
    ensures
        flattened(events.insert(e.note, events[e.note].push(take_of(e))), pitches).to_multiset()
            == if e.note.index_spec() < pitches {
            flattened(events, pitches).to_multiset().insert(e)
        } else {
            flattened(events, pitches).to_multiset()
        },
    decreases pitches,
{
    broadcast use vstd::multiset::group_multiset_axioms;

    let after = events.insert(e.note, events[e.note].push(take_of(e)));
    if pitches > 0 {
        let note = Note::at(pitches - 1);
        lemma_flattened_push(events, e, pitches - 1);
        let head_before = flattened(events, pitches - 1);
        let head_after = flattened(after, pitches - 1);
        let tail_before = events_of(note, events[note]);
        let tail_after = events_of(note, after[note]);
        vstd::seq_lib::lemma_multiset_commutative(head_before, tail_before);
        vstd::seq_lib::lemma_multiset_commutative(head_after, tail_after);
        if note == e.note {
            assert(tail_after == tail_before.push(e));
            vstd::seq_lib::to_multiset_build(tail_before, e);
            assert((head_after + tail_after).to_multiset() =~= (head_before
                + tail_before).to_multiset().insert(e));
        } else {
            assert(tail_after == tail_before);
            assert(note.index_spec() == pitches - 1);
            assert((head_after + tail_after).to_multiset() =~= if e.note.index_spec() < pitches {
                (head_before + tail_before).to_multiset().insert(e)
            } else {
                (head_before + tail_before).to_multiset()
            });
        }
    }
}

/// A report that a recording session takes adds that one note to what the session holds.
pub proof fn lemma_record_adds_one(session: SessionView, e: NoteEvent)
    requires
        session.accepts(e),
    ensures
        session.record(e).notes().to_multiset() == session.notes().to_multiset().insert(e),
        session.record(e).notes().len() == session.notes().len() + 1,
{
    broadcast use vstd::multiset::group_multiset_axioms;

    lemma_flattened_push(session.events, e, 12);
    session.record(e).notes().to_multiset_ensures();
    session.notes().to_multiset_ensures();
}

/// No report is lost and none is taken twice. After any number of reports, in whatever
/// order they arrive, a recording session holds what it held before and each reported note
/// that sounds, as often as it was reported: with `k` such notes it holds `k` notes more.
pub proof fn lemma_every_report_is_kept(session: SessionView, reports: Seq<NoteEvent>)
    requires
        session.state == SessionState::Recording,
    ensures
        session.record_all(reports).state == SessionState::Recording,
        session.record_all(reports).notes().to_multiset() == session.notes().to_multiset().add(
            sounding(reports).to_multiset(),
        ),
        session.record_all(reports).notes().len() == session.notes().len() + sounding(
            reports,
        ).len(),
    decreases reports.len(),
{
    broadcast use vstd::multiset::group_multiset_axioms;

    reveal(Seq::filter);
    if reports.len() == 0 {
        assert(sounding(reports) == Seq::<NoteEvent>::empty());
        assert forall|e: NoteEvent| sounding(reports).to_multiset().count(e) == 0 by {
            vstd::seq_lib::to_multiset_contains(sounding(reports), e);
        }
        assert(session.notes().to_multiset().add(sounding(reports).to_multiset())
            =~= session.notes().to_multiset());
    } else {
        let front = reports.drop_last();
        let e = reports.last();
        let before = session.record_all(front);
        lemma_every_report_is_kept(session, front);
        if e.note.is_pitch() {
            lemma_record_adds_one(before, e);
            assert(sounding(reports) == sounding(front).push(e));
            vstd::seq_lib::to_multiset_build(sounding(front), e);
            assert(session.notes().to_multiset().add(sounding(front).to_multiset()).insert(e)
                =~= session.notes().to_multiset().add(sounding(front).to_multiset().insert(e)));
        } else {
            assert(sounding(reports) == sounding(front));
        }
    }
}

/// The order in which reports arrive does not change which notes a session holds: two
/// orders of the same reports leave the same notes, each as often.
pub proof fn lemma_order_of_reports_is_immaterial(
    session: SessionView,
    one: Seq<NoteEvent>,
    other: Seq<NoteEvent>,
)
    requires
        session.state == SessionState::Recording,
        one.to_multiset() == other.to_multiset(),
    ensures
        session.record_all(one).notes().to_multiset() == session.record_all(
            other,
        ).notes().to_multiset(),
{
    lemma_every_report_is_kept(session, one);
    lemma_every_report_is_kept(session, other);
    lemma_sounding_of_permutation(one, other);
}

/// Two orders of the same notes have the same sounding notes, each as often.
pub proof fn lemma_sounding_of_permutation(one: Seq<NoteEvent>, other: Seq<NoteEvent>)
    requires
        one.to_multiset() == other.to_multiset(),
    ensures
        sounding(one).to_multiset() == sounding(other).to_multiset(),
{
    broadcast use vstd::multiset::group_multiset_axioms;

    let pred = |e: NoteEvent| e.note.is_pitch();
    assert forall|e: NoteEvent| sounding(one).to_multiset().count(e) == sounding(
        other,
    ).to_multiset().count(e) by {
        lemma_sounding_count(one, e);
        lemma_sounding_count(other, e);
    }
    assert(sounding(one).to_multiset() =~= sounding(other).to_multiset());
}

/// A note that sounds occurs among the sounding notes as often as among all, and a rest
/// not at all.
proof fn lemma_sounding_count(notes: Seq<NoteEvent>, e: NoteEvent)
    ensures
        sounding(notes).to_multiset().count(e) == if e.note.is_pitch() {
            notes.to_multiset().count(e)
        } else {
            0
        },
    decreases notes.len(),
{
    broadcast use vstd::multiset::group_multiset_axioms;

    reveal(Seq::filter);
    if notes.len() == 0 {
        assert(sounding(notes) == Seq::<NoteEvent>::empty());
        vstd::seq_lib::to_multiset_contains(sounding(notes), e);
        vstd::seq_lib::to_multiset_contains(notes, e);
    } else {
        let front = notes.drop_last();
        let last = notes.last();
        lemma_sounding_count(front, e);
        assert(front.push(last) == notes);
        vstd::seq_lib::to_multiset_build(front, last);
        if last.note.is_pitch() {
            assert(sounding(notes) == sounding(front).push(last));
            vstd::seq_lib::to_multiset_build(sounding(front), last);
        } else {
            assert(sounding(notes) == sounding(front));
        }
    }
}

/// The notes played while a recording runs, each with the time at which it began. Many
/// players may report to one session, one at a time.
pub struct RecordingSession {
    state: SessionState,
    started: u64,
    buckets: Vec<Vec<Take>>,
}

impl View for RecordingSession {
    type V = SessionView;

    closed spec fn view(&self) -> SessionView {
        SessionView {
            state: self.state,
            started: self.started,
            events: Map::new(|n: Note| n.is_pitch(), |n: Note| self.buckets[n.index_spec()]@),
        }
    }
}

impl RecordingSession {
    #[verifier::type_invariant]
    spec fn one_bucket_per_pitch(self) -> bool {
        self.buckets.len() == 12
    }

    /// Whatever a session went through, it has a sequence for every pitch and none for
    /// the rest.
    pub proof fn lemma_view_wf(self)
        ensures
            self@.wf(),
    {
    }

    /// An idle session that holds nothing.
    pub fn new() -> (session: Self)
        ensures
            session@ =~= (SessionView {
                state: SessionState::Idle,
                started: 0,
                events: no_events(),
            }),
    {
        let mut buckets: Vec<Vec<Take>> = Vec::new();
        let mut i: usize = 0;
        while i < 12
            invariant
                i <= 12,
                buckets.len() == i,
                forall|k: int| 0 <= k < i ==> (#[trigger] buckets[k])@ == Seq::<Take>::empty(),
            decreases 12 - i,
        {
            buckets.push(Vec::new());
            i = i + 1;
        }
        RecordingSession { state: SessionState::Idle, started: 0, buckets }
    }

    /// Begins a new recording in place of whatever the session held: the clock starts at
    /// `now`, a reading in nanoseconds, and what was recorded before is dropped. The notes
    /// of a frozen session are never taken up again.
    pub fn start(&mut self, now: u64)
        ensures
            final(self)@ =~= (SessionView {
                state: SessionState::Recording,
                started: now,
                events: no_events(),
            }),
    {
        proof {
            use_type_invariant(&*self);
        }
        let mut i: usize = 0;
        while i < 12
            invariant
                i <= 12,
                self.buckets.len() == 12,
                forall|k: int| 0 <= k < i ==> (#[trigger] self.buckets[k])@ == Seq::<Take>::empty(),
            decreases 12 - i,
        {
            self.buckets[i].clear();
            i = i + 1;
        }
        self.state = SessionState::Recording;
        self.started = now;
    }

    /// Where the session stands.
    pub fn state(&self) -> (state: SessionState)
        ensures
            state == self@.state,
    {
        self.state
    }

    /// The time recorded so far, in nanoseconds, when the clock reads `now`. It is 0 while
    /// the session is not recording, and for a reading from before the start.
    pub fn elapsed(&self, now: u64) -> (nanos: u64)
        ensures
            nanos == self@.elapsed(now),
    {
        if self.state == SessionState::Recording && now >= self.started {
            now - self.started
        } else {
            0
        }
    }

    /// Reports a note to the session. While the session records, a note that sounds is put
    /// behind the others of its pitch and `true` is returned. A rest, and any report to a
    /// session that is idle or frozen, changes nothing and returns `false`.
    pub fn record(&mut self, event: NoteEvent) -> (taken: bool)
        ensures
            taken == old(self)@.accepts(event),
            final(self)@ =~= old(self)@.record(event),
    {
        proof {
            use_type_invariant(&*self);
        }
        if self.state != SessionState::Recording || event.note == Note::Rest {
            return false;
        }
        let index = event.note.index() as usize;
        self.buckets[index].push(
            Take { octave: event.octave, offset: event.offset, duration: event.duration },
        );
        proof {
            let before = old(self)@;
            let after = self@;
            let want = before.record(event);
            assert forall|n: Note| #[trigger] after.events.dom().contains(n) implies after.events[n]
                == want.events[n] by {
                if n != event.note {
                    assert(n.index_spec() != event.note.index_spec());
                }
            }
            assert(after.events =~= want.events);
        }
        true
    }

    /// All that the session holds, as a song at `bpm` thousandths of a beat per minute: the
    /// notes of C in the order of recording, then those of C sharp, and so on up to B.
    pub fn snapshot(&self, bpm: i64) -> (song: Song)
        ensures
            song.notes@ == self@.notes(),
            song.bpm == bpm,
    {
        proof {
            use_type_invariant(self);
        }
        let mut notes: Vec<NoteEvent> = Vec::new();
        let mut i: u8 = 0;
        while i < 12
            invariant
                i <= 12,
                self.buckets.len() == 12,
                notes@ == flattened(self@.events, i as int),
            decreases 12 - i,
        {
            let note = Note::from_index(i);
            let bucket = &self.buckets[i as usize];
            let mut k: usize = 0;
            assert(events_of(note, bucket@.take(0)) == Seq::<NoteEvent>::empty());
            while k < bucket.len()
                invariant
                    k <= bucket.len(),
                    notes@ == flattened(self@.events, i as int) + events_of(
                        note,
                        bucket@.take(k as int),
                    ),
                decreases bucket.len() - k,
            {
                let take = bucket[k];
                proof {
                    let done = bucket@.take(k as int);
                    assert(bucket@.take(k + 1) == done.push(take));
                    assert(events_of(note, done.push(take)) == events_of(note, done).push(
                        event_of(note, take),
                    ));
                }
                notes.push(
                    NoteEvent {
                        note,
                        octave: take.octave,
                        offset: take.offset,
                        duration: take.duration,
                    },
                );
                k = k + 1;
            }
            assert(bucket@.take(bucket.len() as int) == bucket@);
            assert(self@.events[note] == bucket@);
            i = i + 1;
        }
        Song { notes, bpm }
    }

    /// Ends the recording. A session that records becomes frozen and hands out what it
    /// holds as a song at `bpm`, the tempo of this moment in thousandths of a beat per
    /// minute; it keeps its notes. A session that is idle or frozen stays as it is and hands
    /// out nothing.
    pub fn stop(&mut self, bpm: i64) -> (song: Option<Song>)
        ensures
            match song {
                Some(s) => old(self)@.state == SessionState::Recording && s.notes@ == old(
                    self,
                )@.notes() && s.bpm == bpm && final(self)@ =~= (SessionView {
                    state: SessionState::Frozen,
                    ..old(self)@
                }),
                None => old(self)@.state != SessionState::Recording && final(self)@ =~= old(self)@,
            },
    {
        proof {
            use_type_invariant(&*self);
        }
        if self.state != SessionState::Recording {
            return None;
        }
        let song = self.snapshot(bpm);
        self.state = SessionState::Frozen;
        Some(song)
    }
}

/// Reports `real_note`, which began when the clock read `now` and lasts `time`, both in
/// nanoseconds, to `session`: the note is recorded with the time elapsed since the start
/// of the recording. Returns whether the session took it.
pub fn record_history(
    session: &mut RecordingSession,
    real_note: RealNote,
    time: u64,
    now: u64,
) -> (taken: bool)
    ensures
        taken == old(session)@.accepts(history_event(old(session)@, real_note, time, now)),
        final(session)@ =~= old(session)@.record(
            history_event(old(session)@, real_note, time, now),
        ),
{
    let offset = session.elapsed(now);
    session.record(
        NoteEvent { note: real_note.note, octave: real_note.octave, offset, duration: time },
    )
}

/// The entry that `record_history` makes of a note.
pub open spec fn history_event(
    session: SessionView,
    real_note: RealNote,
    time: u64,
    now: u64,
) -> NoteEvent {
    NoteEvent {
        note: real_note.note,
        octave: real_note.octave,
        offset: session.elapsed(now) as u64,
        duration: time,
    }
}

} // verus!
