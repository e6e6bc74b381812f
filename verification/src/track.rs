use vstd::prelude::*;
use vstd::seq_lib::to_multiset_insert;

verus! {

/// Whether a key goes down or comes up.
#[derive(Debug, Clone, Copy, PartialEq, Eq, Structural)]
pub enum MidiKind {
    NoteOn,
    NoteOff,
}

/// A key going down or coming up, at a time counted in ticks from the start of the track.
#[derive(Debug, Clone, Copy, PartialEq, Eq, Structural)]
pub struct MidiSubEvent {
    pub tick: u32,
    pub kind: MidiKind,
    pub key: u8,
    pub velocity: u8,
    pub channel: u8,
}

/// An event as a track holds it, with the ticks that pass since the event before it.
#[derive(Debug, Clone, Copy, PartialEq, Eq, Structural)]
pub enum TrackItem {
    /// The length of a beat, in microseconds.
    Tempo { delta: u32, micros_per_beat: u32 },
    /// A key going down or coming up.
    Note { delta: u32, kind: MidiKind, key: u8, velocity: u8, channel: u8 },
}

/// The longest time between two events that a track can hold, in ticks: 28 bits.
pub const MAX_DELTA: u32 = 0xfff_ffff;

/// `a` belongs before `b` wherever the two stand: it sounds at an earlier tick, or at the
/// same tick and `a` lifts a key where `b` presses one.
pub open spec fn precedes(a: MidiSubEvent, b: MidiSubEvent) -> bool {
    a.tick < b.tick || (a.tick == b.tick && a.kind is NoteOff && b.kind is NoteOn)
}

/// Neither event belongs before the other: same tick, same kind.
pub open spec fn ties(a: MidiSubEvent, b: MidiSubEvent) -> bool {
    a.tick == b.tick && a.kind == b.kind
}

/// No event stands behind one that it belongs before.
pub open spec fn is_ordered(s: Seq<MidiSubEvent>) -> bool {
    forall|i: int, j: int| 0 <= i < j < s.len() ==> !precedes(#[trigger] s[j], #[trigger] s[i])
}

/// Where `e` goes into the ordered sequence `s`: behind every event that it does not
/// belong before, and so behind those that it ties with.
pub open spec fn insert_position(s: Seq<MidiSubEvent>, e: MidiSubEvent) -> int
    decreases s.len(),
{
    if s.len() > 0 && precedes(e, s.last()) {
        insert_position(s.drop_last(), e)
    } else {
        s.len() as int
    }
}

/// The events of `s` in order of tick, a key coming up before a key going down at the same
/// tick, and events that tie in the order in which `s` holds them.
pub open spec fn sorted_events(s: Seq<MidiSubEvent>) -> Seq<MidiSubEvent>
    decreases s.len(),
{
    if s.len() == 0 {
        s
    } else {
        let front = sorted_events(s.drop_last());
        front.insert(insert_position(front, s.last()), s.last())
    }
}

/// `insert_position` splits `s`: `e` belongs before everything from it on, and if anything
/// stands before it, not before the event just before it.
pub proof fn lemma_insert_position(s: Seq<MidiSubEvent>, e: MidiSubEvent)
    ensures
        0 <= insert_position(s, e) <= s.len(),
        forall|k: int| insert_position(s, e) <= k < s.len() ==> precedes(e, #[trigger] s[k]),
        insert_position(s, e) > 0 ==> !precedes(e, s[insert_position(s, e) - 1]),
    decreases s.len(),
{
    if s.len() > 0 && precedes(e, s.last()) {
        let front = s.drop_last();
        lemma_insert_position(front, e);
        assert forall|k: int| insert_position(s, e) <= k < s.len() implies precedes(
            e,
            #[trigger] s[k],
        ) by {
            if k < front.len() {
                assert(s[k] == front[k]);
            }
        }
        if insert_position(s, e) > 0 {
            assert(s[insert_position(s, e) - 1] == front[insert_position(front, e) - 1]);
        }
    }
}

/// Sorting keeps the number of events.
pub proof fn lemma_sorted_len(s: Seq<MidiSubEvent>)
    ensures
        sorted_events(s).len() == s.len(),
    decreases s.len(),
{
    if s.len() > 0 {
        let front = sorted_events(s.drop_last());
        lemma_sorted_len(s.drop_last());
        lemma_insert_position(front, s.last());
        front.insert_ensures(insert_position(front, s.last()), s.last());
    }
}

/// An event put at its `insert_position` leaves an ordered sequence in order.
proof fn lemma_insert_keeps_order(front: Seq<MidiSubEvent>, e: MidiSubEvent)
    requires
        is_ordered(front),
    ensures
        is_ordered(front.insert(insert_position(front, e), e)),
{
    let p = insert_position(front, e);
    lemma_insert_position(front, e);
    front.insert_ensures(p, e);
    let out = front.insert(p, e);
    assert forall|i: int, j: int| 0 <= i < j < out.len() implies !precedes(
        #[trigger] out[j],
        #[trigger] out[i],
    ) by {
        let a = if i < p {
            front[i]
        } else if i == p {
            e
        } else {
            front[i - 1]
        };
        let b = if j < p {
            front[j]
        } else if j == p {
            e
        } else {
            front[j - 1]
        };
        assert(out[i] == a);
        assert(out[j] == b) by {
            if j > p {
                assert(out[(j - 1) + 1] == front[j - 1]);
            }
        }
        if j < p {
        } else if j == p {
            if i < p - 1 {
                assert(!precedes(front[p - 1], front[i]));
            }
        } else if i < p {
        } else if i == p {
            assert(precedes(e, front[j - 1]));
        } else {
            assert(!precedes(front[j - 1], front[i - 1]));
        }
    }
}

/// What comes out of sorting is in order.
pub proof fn lemma_sorted_is_ordered(s: Seq<MidiSubEvent>)
    ensures
        is_ordered(sorted_events(s)),
    decreases s.len(),
{
    if s.len() > 0 {
        lemma_sorted_is_ordered(s.drop_last());
        lemma_insert_keeps_order(sorted_events(s.drop_last()), s.last());
    }
}

/// Sorting keeps the events themselves: each occurs as often after it as before.
pub proof fn lemma_sorted_is_permutation(s: Seq<MidiSubEvent>)
    ensures
        sorted_events(s).to_multiset() == s.to_multiset(),
    decreases s.len(),
{
    broadcast use vstd::seq_lib::group_to_multiset_ensures;

    if s.len() > 0 {
        let front = sorted_events(s.drop_last());
        lemma_sorted_is_permutation(s.drop_last());
        lemma_insert_position(front, s.last());
        to_multiset_insert(front, insert_position(front, s.last()), s.last());
        assert(s.drop_last().push(s.last()) == s);
    } else {
        assert(sorted_events(s) == s);
    }
}

/// The events that tie with `x`: those of its tick and its kind.
pub open spec fn ties_with(x: MidiSubEvent) -> spec_fn(MidiSubEvent) -> bool {
    |e: MidiSubEvent| ties(e, x)
}

/// Nothing is left of a sequence when none of its events is kept.
proof fn lemma_filter_nothing(s: Seq<MidiSubEvent>, keep: spec_fn(MidiSubEvent) -> bool)
    requires
        forall|i: int| 0 <= i < s.len() ==> !keep(#[trigger] s[i]),
    ensures
        s.filter(keep) == Seq::<MidiSubEvent>::empty(),
    decreases s.len(),
{
    reveal(Seq::filter);
    if s.len() > 0 {
        let front = s.drop_last();
        assert forall|i: int| 0 <= i < front.len() implies !keep(#[trigger] front[i]) by {
            assert(front[i] == s[i]);
        }
        lemma_filter_nothing(front, keep);
    }
}

/// Events that tie come out of sorting in the order in which they went in: the events of
/// one tick and one kind are the same sequence before and after.
pub proof fn lemma_sorted_is_stable(s: Seq<MidiSubEvent>, x: MidiSubEvent)
    ensures
        sorted_events(s).filter(ties_with(x)) == s.filter(ties_with(x)),
    decreases s.len(),
{
    reveal(Seq::filter);
    let keep = ties_with(x);
    if s.len() > 0 {
        let e = s.last();
        let front = sorted_events(s.drop_last());
        let p = insert_position(front, e);
        lemma_sorted_is_stable(s.drop_last(), x);
        lemma_insert_position(front, e);
        let left = front.subrange(0, p);
        let right = front.subrange(p, front.len() as int);
        assert(front == left + right);
        assert(front.insert(p, e) == left.push(e) + right);
        Seq::filter_distributes_over_add(left, right, keep);
        Seq::filter_distributes_over_add(left.push(e), right, keep);
        assert(left.push(e).drop_last() == left);
        if keep(e) {
            assert forall|i: int| 0 <= i < right.len() implies !keep(#[trigger] right[i]) by {
                assert(right[i] == front[p + i]);
                assert(precedes(e, front[p + i]));
            }
            lemma_filter_nothing(right, keep);
            assert(left.filter(keep) + Seq::<MidiSubEvent>::empty() == left.filter(keep));
            assert(left.filter(keep).push(e) + Seq::<MidiSubEvent>::empty() == left.filter(
                keep,
            ).push(e));
        }
    }
}

/// Sorting neither adds an event nor loses one.
pub proof fn lemma_sorted_contains(s: Seq<MidiSubEvent>, e: MidiSubEvent)
    ensures
        sorted_events(s).contains(e) <==> s.contains(e),
{
    lemma_sorted_is_permutation(s);
    vstd::seq_lib::to_multiset_contains(s, e);
    vstd::seq_lib::to_multiset_contains(sorted_events(s), e);
}

impl MidiSubEvent {
    /// The key and the velocity fit in 7 bits and the channel in 4, as a message holds them.
    pub open spec fn fits(self) -> bool {
        self.key <= 0x7f && self.velocity <= 0x7f && self.channel <= 0xf
    }
}

impl TrackItem {
    /// Every number fits in the bits that a file has for it: 28 for the delta time, 24 for
    /// the beat, 7 for key and velocity, 4 for the channel.
    pub open spec fn fits(self) -> bool {
        match self {
            TrackItem::Tempo { delta, micros_per_beat } => delta <= MAX_DELTA && micros_per_beat
                <= 0xff_ffff,
            TrackItem::Note { delta, kind, key, velocity, channel } => delta <= MAX_DELTA && key
                <= 0x7f && velocity <= 0x7f && channel <= 0xf,
        }
    }
}

impl MidiSubEvent {
    /// Whether this event belongs before `other` wherever the two stand.
    pub fn precedes(&self, other: &MidiSubEvent) -> (b: bool)
        ensures
            b == precedes(*self, *other),
    {
        self.tick < other.tick || (self.tick == other.tick && self.kind == MidiKind::NoteOff
            && other.kind == MidiKind::NoteOn)
    }
}

/// Puts `events` in order of tick. At one tick the keys that come up stand before those
/// that go down, and events of one tick and one kind keep the order that they came in.
pub fn sort_events(events: Vec<MidiSubEvent>) -> (sorted: Vec<MidiSubEvent>)
    ensures
        sorted@ == sorted_events(events@),
{
    let mut sorted: Vec<MidiSubEvent> = Vec::new();
    let mut i: usize = 0;
    assert(events@.take(0) == Seq::<MidiSubEvent>::empty());
    while i < events.len()
        invariant
            i <= events.len(),
            sorted@ == sorted_events(events@.take(i as int)),
        decreases events.len() - i,
    {
        let e = events[i];
        let mut p: usize = sorted.len();
        assert(sorted@.take(p as int) == sorted@);
        while p > 0 && e.precedes(&sorted[p - 1])
            invariant
                p <= sorted.len(),
                insert_position(sorted@, e) == insert_position(sorted@.take(p as int), e),
            decreases p,
        {
            assert(sorted@.take(p as int).drop_last() == sorted@.take(p - 1));
            p = p - 1;
        }
        assert(insert_position(sorted@, e) == p) by {
            let head = sorted@.take(p as int);
            if p > 0 {
                assert(head.last() == sorted@[p - 1]);
            }
        }
        proof {
            let prefix = events@.take(i + 1);
            assert(prefix.drop_last() == events@.take(i as int));
            assert(prefix.last() == e);
        }
        sorted.insert(p, e);
        i = i + 1;
    }
    assert(events@.take(events.len() as int) == events@);
    sorted
}

/// The tick of the event before the one at `i`; the first event follows tick 0.
pub open spec fn previous_tick(s: Seq<MidiSubEvent>, i: int) -> int {
    if i <= 0 {
        0
    } else {
        s[i - 1].tick as int
    }
}

/// The ticks that pass between the event before the one at `i` and that event.
pub open spec fn delta_spec(s: Seq<MidiSubEvent>, i: int) -> int {
    s[i].tick - previous_tick(s, i)
}

/// Every event follows the one before it, by no more ticks than a track can hold.
pub open spec fn deltas_fit(s: Seq<MidiSubEvent>) -> bool {
    forall|i: int| 0 <= i < s.len() ==> 0 <= #[trigger] delta_spec(s, i) <= MAX_DELTA
}

/// The event at `i` as the track holds it.
pub open spec fn note_item(s: Seq<MidiSubEvent>, i: int) -> TrackItem {
    TrackItem::Note {
        delta: delta_spec(s, i) as u32,
        kind: s[i].kind,
        key: s[i].key,
        velocity: s[i].velocity,
        channel: s[i].channel,
    }
}

/// The track of a song: its tempo at tick 0, then its events, each with the ticks since
/// the one before.
pub open spec fn track_items(tempo: u32, s: Seq<MidiSubEvent>) -> Seq<TrackItem> {
    Seq::new(
        (s.len() + 1) as nat,
        |i: int|
            if i == 0 {
                TrackItem::Tempo { delta: 0, micros_per_beat: tempo }
            } else {
                note_item(s, i - 1)
            },
    )
}

/// In an ordered sequence no event comes before the one in front of it: every time between
/// two events is zero or more.
pub proof fn lemma_ordered_deltas_nonnegative(s: Seq<MidiSubEvent>)
    requires
        is_ordered(s),
    ensures
        forall|i: int| 0 <= i < s.len() ==> #[trigger] delta_spec(s, i) >= 0,
{
    assert forall|i: int| 0 <= i < s.len() implies #[trigger] delta_spec(s, i) >= 0 by {
        if i > 0 {
            assert(!precedes(s[i], s[i - 1]));
        }
    }
}

/// The ticks of an ordered sequence are the sums of the times between its events: the
/// deltas lose nothing.
pub proof fn lemma_deltas_sum_to_tick(s: Seq<MidiSubEvent>, i: int)
    requires
        0 <= i < s.len(),
    ensures
        delta_sum(s, i + 1) == s[i].tick,
    decreases i,
{
    if i > 0 {
        lemma_deltas_sum_to_tick(s, i - 1);
    } else {
        assert(delta_sum(s, 0) == 0);
    }
}

/// The sum of the first `n` deltas.
pub open spec fn delta_sum(s: Seq<MidiSubEvent>, n: int) -> int
    decreases n,
{
    if n <= 0 {
        0
    } else {
        delta_sum(s, n - 1) + delta_spec(s, n - 1)
    }
}

/// Writes `events` as a track that opens with the tempo `tempo` at tick 0: each event gets
/// the ticks that pass since the one before it. There is no track where an event comes
/// before the one in front of it, or more than 28 bits of ticks after it.
pub fn delta_encode(tempo: u32, events: &Vec<MidiSubEvent>) -> (track: Option<Vec<TrackItem>>)
    ensures
        match track {
            Some(items) => deltas_fit(events@) && items@ == track_items(tempo, events@),
            None => !deltas_fit(events@),
        },
{
    let mut items: Vec<TrackItem> = Vec::new();
    items.push(TrackItem::Tempo { delta: 0, micros_per_beat: tempo });
    let mut previous: u32 = 0;
    let mut i: usize = 0;
    while i < events.len()
        invariant
            i <= events.len(),
            previous == previous_tick(events@, i as int),
            items@.len() == i + 1,
            forall|k: int| 0 <= k < i ==> 0 <= #[trigger] delta_spec(events@, k) <= MAX_DELTA,
            forall|k: int| 0 <= k <= i ==> #[trigger] items@[k] == track_items(tempo, events@)[k],
        decreases events.len() - i,
    {
        let e = events[i];
        if e.tick < previous || e.tick - previous > MAX_DELTA {
            assert(!(0 <= delta_spec(events@, i as int) <= MAX_DELTA));
            return None;
        }
        items.push(
            TrackItem::Note {
                delta: e.tick - previous,
                kind: e.kind,
                key: e.key,
                velocity: e.velocity,
                channel: e.channel,
            },
        );
        previous = e.tick;
        i = i + 1;
    }
    assert(items@ == track_items(tempo, events@));
    Some(items)
}

} // verus!
