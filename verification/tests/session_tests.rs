//! The recording state machine, the segment table and one full session.

use netnote::errors::AudioError;
use netnote::notes::NoteStore;
use netnote::records::Note;
use netnote::phase::RecordingPhase;
use netnote::recorder::RecordingState;
use netnote::session::{
    continue_note_recording, is_dual_recording, pause_dual_recording, resume_dual_recording,
    start_dual_recording_with_segments, stop_dual_recording, SystemCaptureState,
};
use netnote::store::SegmentStore;

#[test]
fn phase_codes_round_trip() {
    assert_eq!(RecordingPhase::from_u8(0), RecordingPhase::Idle);
    assert_eq!(RecordingPhase::from_u8(1), RecordingPhase::Recording);
    assert_eq!(RecordingPhase::from_u8(2), RecordingPhase::Paused);
    assert_eq!(RecordingPhase::from_u8(77), RecordingPhase::Idle);
    assert_eq!(RecordingPhase::Recording.as_u8(), 1);
}

#[test]
fn start_allocates_segment_zero_at_offset_zero() {
    let mut state = RecordingState::new();
    let mut sys = SystemCaptureState::new();
    let mut store = SegmentStore::new();
    let dir = String::from("/data/recordings");
    let note = String::from("n1");
    let r = start_dual_recording_with_segments(&mut state, &mut sys, &mut store, &dir, &note)
        .unwrap();
    assert_eq!(r.mic_path, "/data/recordings/n1_mic_seg0.wav");
    assert_eq!(r.system_path.as_deref(), Some("/data/recordings/n1_system_seg0.wav"));
    assert!(r.playback_path.is_none());
    assert_eq!(state.phase, RecordingPhase::Recording);
    assert!(state.is_recording);
    assert_eq!(state.current_segment_index, 0);
    assert_eq!(state.segment_start_offset_ms, 0);
    let segs = store.get_audio_segments(&note);
    assert_eq!(segs.len(), 1);
    assert_eq!(segs[0].segment_index, 0);
    assert_eq!(segs[0].start_offset_ms, 0);
    assert!(segs[0].duration_ms.is_none());
}

#[test]
fn start_twice_is_rejected() {
    let mut state = RecordingState::new();
    let mut sys = SystemCaptureState::new();
    let mut store = SegmentStore::new();
    let dir = String::from("/r");
    let note = String::from("n");
    start_dual_recording_with_segments(&mut state, &mut sys, &mut store, &dir, &note).unwrap();
    let again = start_dual_recording_with_segments(&mut state, &mut sys, &mut store, &dir, &note);
    assert!(matches!(again, Err(AudioError::AlreadyRecording)));
    // the failed start left no extra row behind
    assert_eq!(store.get_audio_segments(&note).len(), 1);
}

#[test]
fn pause_without_recording_is_rejected() {
    let mut state = RecordingState::new();
    let mut sys = SystemCaptureState::new();
    let mut store = SegmentStore::new();
    let r = pause_dual_recording(&mut state, &mut sys, &mut store, 100);
    assert!(matches!(r, Err(AudioError::NotRecording)));
}

#[test]
fn resume_without_pause_is_rejected() {
    let mut state = RecordingState::new();
    let mut sys = SystemCaptureState::new();
    let mut store = SegmentStore::new();
    let dir = String::from("/r");
    let note = String::from("n");
    let r = resume_dual_recording(&mut state, &mut sys, &mut store, &dir, &note);
    assert!(matches!(r, Err(AudioError::NotPaused)));
}

#[test]
fn stop_when_idle_is_rejected() {
    let mut state = RecordingState::new();
    let mut sys = SystemCaptureState::new();
    let mut store = SegmentStore::new();
    let r = stop_dual_recording(&mut state, &mut sys, &mut store, 0);
    assert!(matches!(r, Err(AudioError::NotRecording)));
}

#[test]
fn full_session_produces_two_chained_segments() {
    // start, pause after 2000 ms, resume, stop after 1500 ms more
    let mut state = RecordingState::new();
    let mut sys = SystemCaptureState::new();
    let mut store = SegmentStore::new();
    let dir = String::from("/r");
    let note = String::from("n2");
    start_dual_recording_with_segments(&mut state, &mut sys, &mut store, &dir, &note).unwrap();
    let d0 = pause_dual_recording(&mut state, &mut sys, &mut store, 2000).unwrap();
    assert_eq!(d0, 2000);
    assert_eq!(state.phase, RecordingPhase::Paused);
    let r = resume_dual_recording(&mut state, &mut sys, &mut store, &dir, &note).unwrap();
    assert_eq!(r.mic_path, "/r/n2_mic_seg1.wav");
    assert_eq!(state.current_segment_index, 1);
    assert_eq!(state.segment_start_offset_ms, 2000);
    stop_dual_recording(&mut state, &mut sys, &mut store, 1500).unwrap();
    let segs = store.get_audio_segments(&note);
    assert_eq!(segs.len(), 2);
    assert_eq!(segs[0].segment_index, 0);
    assert_eq!(segs[1].segment_index, 1);
    assert_eq!(segs[0].duration_ms, Some(2000));
    assert_eq!(segs[1].duration_ms, Some(1500));
    // each segment starts where the previous one ended
    assert_eq!(segs[1].start_offset_ms, segs[0].start_offset_ms + segs[0].duration_ms.unwrap());
    // and the total equals the sum of the per-segment durations
    assert_eq!(store.get_total_segment_duration(&note), 3500);
}

#[test]
fn stop_resets_every_session_counter() {
    let mut state = RecordingState::new();
    let mut sys = SystemCaptureState::new();
    let mut store = SegmentStore::new();
    let dir = String::from("/r");
    let note = String::from("n");
    start_dual_recording_with_segments(&mut state, &mut sys, &mut store, &dir, &note).unwrap();
    state.push_mic_samples(&vec![1000i16; 64]);
    stop_dual_recording(&mut state, &mut sys, &mut store, 10).unwrap();
    assert_eq!(state.phase, RecordingPhase::Idle);
    assert!(!state.is_recording);
    assert_eq!(state.current_segment_index, 0);
    assert_eq!(state.segment_start_offset_ms, 0);
    assert_eq!(state.current_segment_db_id, 0);
    assert!(state.current_note_id.is_none());
    assert_eq!(state.audio_level_ppm, 0);
    assert_eq!(state.buffer_len(), 0);
    assert!(!sys.is_capturing());
    assert!(!is_dual_recording(&state, &sys));
}

fn note_row(id: &str, ended_at: Option<&str>) -> Note {
    Note {
        id: String::from(id),
        title: String::from("a note"),
        description: None,
        participants: None,
        started_at: String::from("2024-01-02T10:00:00+00:00"),
        ended_at: ended_at.map(String::from),
        audio_path: None,
        created_at: String::from("2024-01-02T10:00:00+00:00"),
        updated_at: String::from("2024-01-02T10:00:00+00:00"),
    }
}

#[test]
fn continue_starts_at_prior_total_duration_and_reopens_the_note() {
    let mut state = RecordingState::new();
    let mut sys = SystemCaptureState::new();
    let mut store = SegmentStore::new();
    let mut notes = NoteStore::new();
    assert!(notes.insert_note(note_row("n3", Some("2024-01-02T10:05:00+00:00"))));
    let dir = String::from("/r");
    let note = String::from("n3");
    let now = String::from("2024-01-02T11:00:00+00:00");
    start_dual_recording_with_segments(&mut state, &mut sys, &mut store, &dir, &note).unwrap();
    stop_dual_recording(&mut state, &mut sys, &mut store, 4000).unwrap();
    let total_before = store.get_total_segment_duration(&note);
    assert_eq!(total_before, 4000);
    let r = continue_note_recording(&mut state, &mut sys, &mut store, &mut notes, &dir, &note, &now)
        .unwrap();
    assert_eq!(r.mic_path, "/r/n3_mic_seg1.wav");
    let segs = store.get_audio_segments(&note);
    assert_eq!(segs.len(), 2);
    assert_eq!(segs[1].segment_index, 1);
    assert_eq!(segs[1].start_offset_ms, total_before);
    // the note is reopened: ended_at cleared, updated_at stamped
    let reopened = notes.get_note(&note).unwrap();
    assert!(reopened.ended_at.is_none());
    assert_eq!(reopened.updated_at, now);
}

#[test]
fn continue_while_recording_is_rejected() {
    let mut state = RecordingState::new();
    let mut sys = SystemCaptureState::new();
    let mut store = SegmentStore::new();
    let mut notes = NoteStore::new();
    assert!(notes.insert_note(note_row("n", None)));
    let dir = String::from("/r");
    let note = String::from("n");
    let now = String::from("2024-01-02T11:00:00+00:00");
    start_dual_recording_with_segments(&mut state, &mut sys, &mut store, &dir, &note).unwrap();
    let r = continue_note_recording(&mut state, &mut sys, &mut store, &mut notes, &dir, &note, &now);
    assert!(matches!(r, Err(AudioError::AlreadyRecording)));
}

#[test]
fn continue_on_a_missing_note_is_rejected() {
    let mut state = RecordingState::new();
    let mut sys = SystemCaptureState::new();
    let mut store = SegmentStore::new();
    let mut notes = NoteStore::new();
    let dir = String::from("/r");
    let note = String::from("ghost");
    let now = String::from("2024-01-02T11:00:00+00:00");
    let r = continue_note_recording(&mut state, &mut sys, &mut store, &mut notes, &dir, &note, &now);
    assert!(matches!(r, Err(AudioError::NoteNotFound)));
}

#[test]
fn ending_a_note_sets_its_mark() {
    let mut notes = NoteStore::new();
    assert!(notes.insert_note(note_row("n9", None)));
    assert!(!notes.insert_note(note_row("n9", None)));
    let id = String::from("n9");
    let ended = String::from("2024-01-02T12:00:00+00:00");
    let now = String::from("2024-01-02T12:00:01+00:00");
    assert!(notes.end_note(&id, &ended, &now));
    let row = notes.get_note(&id).unwrap();
    assert_eq!(row.ended_at.as_deref(), Some("2024-01-02T12:00:00+00:00"));
    assert_eq!(row.updated_at, now);
    assert!(!notes.end_note(&String::from("zzz"), &ended, &now));
}

#[test]
fn system_capture_rejects_second_start() {
    let mut sys = SystemCaptureState::new();
    sys.start(String::from("/a.wav")).unwrap();
    let again = sys.start(String::from("/b.wav"));
    assert!(matches!(again, Err(AudioError::AlreadyRecording)));
    let path = sys.stop();
    assert_eq!(path.as_deref(), Some("/a.wav"));
    assert!(!sys.is_capturing());
}

#[test]
fn store_queries_match_rows() {
    let mut store = SegmentStore::new();
    let a = String::from("a");
    let b = String::from("b");
    assert_eq!(store.get_next_segment_index(&a), 0);
    let id0 = store.add_audio_segment(&a, 0, String::from("m0"), None, 0);
    let id1 = store.add_audio_segment(&b, 0, String::from("m1"), None, 0);
    store.update_segment_duration(id0, 700);
    store.update_segment_duration(id1, 50);
    let _ = store.add_audio_segment(&a, 1, String::from("m2"), Some(String::from("s2")), 700);
    assert_eq!(store.get_next_segment_index(&a), 2);
    assert_eq!(store.get_total_segment_duration(&a), 700);
    assert_eq!(store.get_total_segment_duration(&b), 50);
    assert_eq!(store.get_audio_segments(&a).len(), 2);
    store.delete_audio_segments(&a);
    assert_eq!(store.get_audio_segments(&a).len(), 0);
    assert_eq!(store.get_audio_segments(&b).len(), 1);
}

#[test]
fn mic_callback_with_no_samples_changes_nothing() {
    let mut state = RecordingState::new();
    state.start_recording(String::from("/m.wav")).unwrap();
    state.push_mic_samples(&vec![100i16, -100]);
    let level = state.audio_level_ppm;
    let len = state.buffer_len();
    assert!(len == 2 && level > 0);
    // an empty callback: no buffer push, no level update
    state.push_mic_samples(&Vec::new());
    assert_eq!(state.buffer_len(), len);
    assert_eq!(state.audio_level_ppm, level);
    // and nothing accumulates while recording is off
    state.is_recording = false;
    state.push_mic_samples(&vec![5i16; 8]);
    assert_eq!(state.buffer_len(), len);
}

#[test]
fn take_audio_buffer_drains() {
    let mut state = RecordingState::new();
    state.start_recording(String::from("/m.wav")).unwrap();
    state.push_mic_samples(&vec![7i16, 8, 9]);
    let taken = state.take_audio_buffer();
    assert_eq!(taken, vec![7, 8, 9]);
    assert_eq!(state.buffer_len(), 0);
}

#[test]
fn latest_segment_has_the_largest_index() {
    let mut store = SegmentStore::new();
    let a = String::from("a");
    store.add_audio_segment(&a, 0, String::from("m0"), None, 0);
    store.add_audio_segment(&a, 1, String::from("m1"), None, 10);
    assert!(store.get_latest_segment(&String::from("zzz")).is_none());
    let latest = store.get_latest_segment(&a).unwrap();
    assert_eq!(latest.segment_index, 1);
    assert_eq!(latest.mic_path, "m1");
}

#[test]
fn plain_resume_advances_the_segment_index() {
    let mut state = RecordingState::new();
    state.start_recording(String::from("/m0.wav")).unwrap();
    state.pause_recording(500).unwrap();
    state.resume_recording(String::from("/m1.wav")).unwrap();
    assert_eq!(state.current_segment_index, 1);
    assert_eq!(state.phase, RecordingPhase::Recording);
}
