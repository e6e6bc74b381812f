use crate::track::{MidiKind, TrackItem};
use vstd::prelude::*;

verus! {

/// The most ticks in a beat that a file header can hold: 15 bits.
pub const MAX_TICKS_PER_BEAT: u16 = 0x7fff;

/// midly's event of a track: a delta time and what happens. Nothing of it is read here.
#[verifier::external_type_specification]
#[verifier::external_body]
pub struct ExTrackEvent<'a>(midly::TrackEvent<'a>);

/// What an event of midly stands for. A tempo event, a note-on and a note-off stand for
/// the item that holds their delta time and the fields of their message, and that item
/// fits. Any other event stands for an item that does not fit.
pub uninterp spec fn event_item(e: midly::TrackEvent<'static>) -> TrackItem;

/// The bytes that midly writes for a file in format 0 whose header names `ticks_per_beat`
/// and whose one track holds `items`.
pub uninterp spec fn smf_bytes(ticks_per_beat: u16, items: Seq<TrackItem>) -> Seq<u8>;

/// Whether midly writes a file in format 0 whose header names `ticks_per_beat` and whose
/// one track holds `items`: it does unless the bytes of the track are more than 32 bits
/// count.
pub uninterp spec fn smf_fits(ticks_per_beat: u16, items: Seq<TrackItem>) -> bool;

/// The most events of a track that is written whatever they are. An event takes at most
/// ten bytes, four for its delta time and six for a tempo, so that so many events stay
/// below the 32 bits of a chunk's length.
pub const SURE_EVENTS: usize = 0x1000_0000;

/// Whether the file of a track is written: always for a track of up to `SURE_EVENTS`
/// events, and for a longer one where its bytes fit.
pub open spec fn is_written(ticks_per_beat: u16, items: Seq<TrackItem>) -> bool {
    items.len() <= SURE_EVENTS || smf_fits(ticks_per_beat, items)
}

/// What each event of a track stands for, in the track's order.
pub open spec fn items_of(track: Seq<midly::TrackEvent<'static>>) -> Seq<TrackItem> {
    track.map_values(|e: midly::TrackEvent<'static>| event_item(e))
}

/// Builds midly's `TrackEvent` with the meta message `MetaMessage::Tempo`. The two numbers
/// go through `u28::new` and `u24::new`, which keep a number that fits and cut off the
/// high bits of one that does not: so both must fit.
#[verifier::external_body]
pub(crate) fn tempo_event(delta: u32, micros_per_beat: u32) -> (e: midly::TrackEvent<'static>)
    requires
        (TrackItem::Tempo { delta, micros_per_beat }).fits(),
    ensures
        event_item(e) == (TrackItem::Tempo { delta, micros_per_beat }),
{
    midly::TrackEvent {
        delta: midly::num::u28::new(delta),
        kind: midly::TrackEventKind::Meta(
            midly::MetaMessage::Tempo(midly::num::u24::new(micros_per_beat)),
        ),
    }
}

/// Builds midly's `TrackEvent` with the channel message `MidiMessage::NoteOn`. The numbers
/// go through `u28::new`, `u4::new` and `u7::new`, which cut off high bits: so all must
/// fit.
#[verifier::external_body]
pub(crate) fn note_on_event(delta: u32, channel: u8, key: u8, velocity: u8) -> (e:
    midly::TrackEvent<'static>)
    requires
        (TrackItem::Note { delta, kind: MidiKind::NoteOn, key, velocity, channel }).fits(),
    ensures
        event_item(e) == (TrackItem::Note {
            delta,
            kind: MidiKind::NoteOn,
            key,
            velocity,
            channel,
        }),
{
    midly::TrackEvent {
        delta: midly::num::u28::new(delta),
        kind: midly::TrackEventKind::Midi {
            channel: midly::num::u4::new(channel),
            message: midly::MidiMessage::NoteOn {
                key: midly::num::u7::new(key),
                vel: midly::num::u7::new(velocity),
            },
        },
    }
}

/// Builds midly's `TrackEvent` with the channel message `MidiMessage::NoteOff`, as
/// `note_on_event` builds the other.
#[verifier::external_body]
pub(crate) fn note_off_event(delta: u32, channel: u8, key: u8, velocity: u8) -> (e:
    midly::TrackEvent<'static>)
    requires
        (TrackItem::Note { delta, kind: MidiKind::NoteOff, key, velocity, channel }).fits(),
    ensures
        event_item(e) == (TrackItem::Note {
            delta,
            kind: MidiKind::NoteOff,
            key,
            velocity,
            channel,
        }),
{
    midly::TrackEvent {
        delta: midly::num::u28::new(delta),
        kind: midly::TrackEventKind::Midi {
            channel: midly::num::u4::new(channel),
            message: midly::MidiMessage::NoteOff {
                key: midly::num::u7::new(key),
                vel: midly::num::u7::new(velocity),
            },
        },
    }
}

/// Calls `midly::write` on a header of format 0 (`Format::SingleTrack`) with metrical
/// timing and on the one track given, into an empty vector. What midly writes, and whether
/// it writes, depends on the header and the events alone, and the track holds only events
/// that their items tell apart. Writing into a vector, midly fails only where there are
/// more than 65535 tracks, where the data of one event is longer than 28 bits count, or
/// where the bytes of a track are more than 32 bits count. Here there is one track, the
/// only data are the three bytes of a tempo, and an event takes at most ten bytes: up to
/// `SURE_EVENTS` events are always written. The ticks go through `u15::new`, which cuts off
/// the high bit: so they must fit.
#[verifier::external_body]
pub(crate) fn write_single_track(
    ticks_per_beat: u16,
    track: &Vec<midly::TrackEvent<'static>>,
) -> (bytes: Option<Vec<u8>>)
    requires
        ticks_per_beat <= MAX_TICKS_PER_BEAT,
        forall|i: int| 0 <= i < track.len() ==> (#[trigger] items_of(track@)[i]).fits(),
    ensures
        bytes is Some == (track.len() <= SURE_EVENTS || smf_fits(
            ticks_per_beat,
            items_of(track@),
        )),
        bytes matches Some(b) ==> b@ == smf_bytes(ticks_per_beat, items_of(track@)),
{
    let timing = midly::Timing::Metrical(midly::num::u15::new(ticks_per_beat));
    let header = midly::Header::new(midly::Format::SingleTrack, timing);
    let mut out: Vec<u8> = Vec::new();
    match midly::write(&header, [track], &mut out) {
        Ok(()) => Some(out),
        Err(_) => None,
    }
}

} // verus!
