use music_keyboard::note::{Note, NoteLength, RealNote};
use music_keyboard::recording::{record_history, NoteEvent, RecordingSession, SessionState, Song};

fn event(note: Note, octave: i32, offset: u64) -> NoteEvent {
    NoteEvent { note, octave, offset, duration: 250_000_000 }
}

#[test]
fn default_song_is_empty_at_120_bpm() {
    let song = Song::default();
    assert!(song.notes.is_empty());
    assert_eq!(song.bpm, 120_000);
}

#[test]
fn new_session_is_idle_and_empty() {
    let session = RecordingSession::new();
    assert_eq!(session.state(), SessionState::Idle);
    assert!(session.snapshot(60_000).notes.is_empty());
    assert_eq!(session.elapsed(5), 0);
}

#[test]
fn idle_session_takes_nothing() {
    let mut session = RecordingSession::new();
    assert!(!session.record(event(Note::C, 4, 0)));
    assert!(session.snapshot(60_000).notes.is_empty());
    assert!(session.stop(60_000).is_none());
    assert_eq!(session.state(), SessionState::Idle);
}

#[test]
fn recording_session_takes_notes_and_refuses_rests() {
    let mut session = RecordingSession::new();
    session.start(1_000);
    assert_eq!(session.state(), SessionState::Recording);
    assert!(session.record(event(Note::D, 4, 10)));
    assert!(!session.record(event(Note::Rest, 4, 20)));
    assert!(session.record(event(Note::C, 5, 30)));
    assert!(session.record(event(Note::D, 3, 5)));
    let song = session.stop(90_500).unwrap();
    assert_eq!(song.bpm, 90_500);
    assert_eq!(
        song.notes,
        vec![event(Note::C, 5, 30), event(Note::D, 4, 10), event(Note::D, 3, 5)]
    );
}

#[test]
fn frozen_session_keeps_its_notes_and_takes_no_more() {
    let mut session = RecordingSession::new();
    session.start(0);
    assert!(session.record(event(Note::B, 2, 7)));
    assert!(session.stop(120_000).is_some());
    assert_eq!(session.state(), SessionState::Frozen);
    assert!(!session.record(event(Note::A, 2, 8)));
    assert!(session.stop(120_000).is_none());
    assert_eq!(session.snapshot(60_000).notes, vec![event(Note::B, 2, 7)]);
    assert_eq!(session.elapsed(100), 0);
}

#[test]
fn start_drops_what_was_recorded() {
    let mut session = RecordingSession::new();
    session.start(0);
    assert!(session.record(event(Note::B, 2, 7)));
    session.stop(120_000);
    session.start(50);
    assert_eq!(session.state(), SessionState::Recording);
    assert!(session.snapshot(60_000).notes.is_empty());
    session.start(70);
    assert_eq!(session.elapsed(100), 30);
}

#[test]
fn elapsed_counts_from_the_start() {
    let mut session = RecordingSession::new();
    session.start(1_000);
    assert_eq!(session.elapsed(1_000), 0);
    assert_eq!(session.elapsed(3_500), 2_500);
    assert_eq!(session.elapsed(999), 0);
}

#[test]
fn history_gets_the_elapsed_time_as_offset() {
    let mut session = RecordingSession::new();
    let note = RealNote { note: Note::G, length: NoteLength::Eighth, octave: 4 };
    assert!(!record_history(&mut session, note, 250, 2_000));
    session.start(1_000);
    assert!(record_history(&mut session, note, 250, 2_000));
    let rest = RealNote { note: Note::Rest, length: NoteLength::Eighth, octave: 4 };
    assert!(!record_history(&mut session, rest, 250, 2_100));
    assert_eq!(
        session.snapshot(1).notes,
        vec![NoteEvent { note: Note::G, octave: 4, offset: 1_000, duration: 250 }]
    );
}

#[test]
fn every_report_is_kept_in_any_order() {
    let reports: Vec<NoteEvent> =
        (0..48u64).map(|i| event(Note::from_index((i * 7 % 12) as u8), (i % 5) as i32, i)).collect();
    let mut forward = RecordingSession::new();
    forward.start(0);
    for e in reports.iter() {
        assert!(forward.record(*e));
    }
    let mut backward = RecordingSession::new();
    backward.start(0);
    for e in reports.iter().rev() {
        assert!(backward.record(*e));
    }
    let key = |e: &NoteEvent| (e.note.index(), e.octave, e.offset, e.duration);
    let mut one = forward.snapshot(1).notes;
    let mut other = backward.snapshot(1).notes;
    assert_eq!(one.len(), 48);
    assert_eq!(other.len(), 48);
    one.sort_by_key(key);
    other.sort_by_key(key);
    assert_eq!(one, other);
    let mut want = reports.clone();
    want.sort_by_key(key);
    assert_eq!(one, want);
}

#[test]
fn reports_from_many_workers_are_all_kept() {
    let session = std::sync::Mutex::new(RecordingSession::new());
    session.lock().unwrap().start(0);
    let pool = rayon::ThreadPoolBuilder::new().num_threads(4).build().unwrap();
    pool.scope(|scope| {
        for w in 0..8u64 {
            let session = &session;
            scope.spawn(move |_| {
                for i in 0..25u64 {
                    let e = event(Note::from_index(((w + i) % 12) as u8), 4, w * 100 + i);
                    assert!(session.lock().unwrap().record(e));
                }
            });
        }
    });
    let song = session.lock().unwrap().stop(120_000).unwrap();
    assert_eq!(song.notes.len(), 200);
    let mut offsets: Vec<u64> = song.notes.iter().map(|e| e.offset).collect();
    offsets.sort();
    offsets.dedup();
    assert_eq!(offsets.len(), 200);
}
