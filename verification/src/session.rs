//! The dual-recording session controller.
//!
//! One session records a note through the phase machine of
//! [`crate::recorder`] while keeping the per-note segment table of
//! [`crate::store`] in step: `start` opens segment 0 at offset 0, `pause`
//! closes the open segment with its measured duration, `resume` and
//! `continue` open the next segment at the sum of the closed durations, and
//! `stop` closes everything and zeroes the session.  The capture devices,
//! the clock and the durable database stay outside; the controller receives
//! elapsed times as arguments and returns the paths the capture layer
//! should write to.

use vstd::prelude::*;

use crate::errors::AudioError;
use crate::notes::{note_exists, notes_reopened, NoteStore};
use crate::paths::{seg_file_path, seg_path_spec};
use crate::phase::RecordingPhase;
use crate::recorder::RecordingState;
use crate::store::{
    max_index_for, next_index_spec, rows_with_duration, sum_for, SegSnap, SegmentStore,
};

verus! {

/// Paths of one dual recording: the microphone WAV, the system-audio WAV
/// where that capture started, and the mixed playback WAV once it exists.
#[derive(Debug)]
pub struct DualRecordingResult {
    pub mic_path: String,
    pub system_path: Option<String>,
    pub playback_path: Option<String>,
}

/// State of the system-audio capture backend, as the controller sees it:
/// whether it is capturing and into which file.  The platform backend
/// outside the library reports its start and stop through these methods,
/// which reject a second `start`, so at most one system capture can be
/// running at a time.
pub struct SystemCaptureState {
    /// Whether the backend is currently capturing.
    pub is_capturing: bool,
    /// The file the running capture writes to.
    pub output_path: Option<String>,
}

impl SystemCaptureState {
    /// A backend at rest.
    pub fn new() -> (r: Self)
        ensures
            !r.is_capturing,
            r.output_path is None,
    {
        SystemCaptureState { is_capturing: false, output_path: None }
    }

    /// Begin a capture into `path`; rejected with `AlreadyRecording` while
    /// one is running.
    pub fn start(&mut self, path: String) -> (r: Result<(), AudioError>)
        ensures
            (r is Ok <==> !old(self).is_capturing),
            r is Err ==> (*final(self) == *old(self) && r matches Err(
                AudioError::AlreadyRecording,
            )),
            r is Ok ==> (final(self).is_capturing && final(self).output_path == Some(path)),
    {
        if self.is_capturing {
            return Err(AudioError::AlreadyRecording);
        }
        self.is_capturing = true;
        self.output_path = Some(path);
        Ok(())
    }

    /// End the capture and hand back the file it was writing to.
    pub fn stop(&mut self) -> (r: Option<String>)
        ensures
            r == old(self).output_path,
            !final(self).is_capturing,
            final(self).output_path is None,
    {
        self.is_capturing = false;
        let mut path: Option<String> = None;
        core::mem::swap(&mut path, &mut self.output_path);
        path
    }

    /// Forget a capture that never actually started: the platform backend
    /// failed after `start` was granted.
    pub fn abort(&mut self)
        ensures
            !final(self).is_capturing,
            final(self).output_path is None,
    {
        self.is_capturing = false;
        self.output_path = None;
    }

    /// Whether the backend is capturing.
    pub fn is_capturing(&self) -> (r: bool)
        ensures
            r == self.is_capturing,
    {
        self.is_capturing
    }
}

/// The segment row every opening transition inserts: a fresh interval of
/// the note at the given index and offset, with both WAV paths and no
/// duration yet.
pub open spec fn new_seg_row(
    id: int,
    note: Seq<char>,
    idx: int,
    mic: Seq<char>,
    sysp: Seq<char>,
    offset: int,
) -> SegSnap {
    SegSnap {
        id,
        note_id: note,
        segment_index: idx,
        mic_path: mic,
        system_path: Some(sysp),
        start_offset_ms: offset,
        duration_ms: None,
    }
}

/// The recording state after an opening transition: capturing into `mic`,
/// with the active segment's index, offset and row id set, the live buffer
/// empty, and the device format and level untouched.
pub open spec fn opened_state(
    pre: RecordingState,
    post: RecordingState,
    idx: int,
    offset: int,
    dbid: int,
    mic: Seq<char>,
) -> bool {
    &&& post.is_recording
    &&& post.phase == RecordingPhase::Recording
    &&& (post.output_path matches Some(p) && p@ == mic)
    &&& post.audio_buffer@ =~= Seq::<i16>::empty()
    &&& post.current_segment_index == idx
    &&& post.segment_start_offset_ms == offset
    &&& post.current_segment_db_id == dbid
    &&& post.audio_level_ppm == pre.audio_level_ppm
    &&& post.sample_rate == pre.sample_rate
    &&& post.channels == pre.channels
}

/// What the system-capture attempt of an opening transition leaves behind:
/// the capture runs into the segment's system WAV, unless one was already
/// running, which the controller leaves alone.
pub open spec fn sys_after_start(
    pre: SystemCaptureState,
    post: SystemCaptureState,
    sysp: Seq<char>,
) -> bool {
    if pre.is_capturing {
        post == pre
    } else {
        post.is_capturing && (post.output_path matches Some(p) && p@ == sysp)
    }
}

/// The result an opening transition returns: the two segment paths, the
/// system one only where that capture actually started, and no playback
/// path yet.
pub open spec fn opened_result(
    res: DualRecordingResult,
    sys_was_free: bool,
    mic: Seq<char>,
    sysp: Seq<char>,
) -> bool {
    &&& res.mic_path@ == mic
    &&& (if sys_was_free {
        res.system_path matches Some(p) && p@ == sysp
    } else {
        res.system_path is None
    })
    &&& res.playback_path is None
}

/// Start a new dual recording for a note: allocate its segment at the next
/// free index with offset 0, open the microphone capture, and attempt the
/// system capture.  Rejected with `AlreadyRecording` unless the session is
/// idle.
pub fn start_dual_recording_with_segments(
    state: &mut RecordingState,
    sys: &mut SystemCaptureState,
    store: &mut SegmentStore,
    recordings_dir: &String,
    note_id: &String,
) -> (r: Result<DualRecordingResult, AudioError>)
    requires
        old(store).wf(),
        old(store).spec_next_id() < i64::MAX,
        (match max_index_for(old(store).rows_view(), note_id@) {
            Some(m) => m < u32::MAX,
            None => true,
        }),
    ensures
        final(store).wf(),
        (r is Ok <==> old(state).phase == RecordingPhase::Idle),
        r is Err ==> (*final(state) == *old(state) && *final(sys) == *old(sys) && *final(store)
            == *old(store) && r matches Err(AudioError::AlreadyRecording)),
        r is Ok ==> ({
            let idx = next_index_spec(old(store).rows_view(), note_id@);
            let mic = seg_path_spec(recordings_dir@, note_id@, "_mic_seg"@, idx);
            let sysp = seg_path_spec(recordings_dir@, note_id@, "_system_seg"@, idx);
            &&& final(store).rows_view() =~= old(store).rows_view().push(
                new_seg_row(old(store).spec_next_id(), note_id@, idx, mic, sysp, 0),
            )
            &&& final(store).spec_next_id() == old(store).spec_next_id() + 1
            &&& opened_state(
                *old(state),
                *final(state),
                idx,
                0,
                old(store).spec_next_id(),
                mic,
            )
            &&& (final(state).current_note_id matches Some(n) && n@ == note_id@)
            &&& sys_after_start(*old(sys), *final(sys), sysp)
            &&& (r matches Ok(res) && opened_result(res, !old(sys).is_capturing, mic, sysp))
        }),
{
    if !matches!(state.phase, RecordingPhase::Idle) {
        return Err(AudioError::AlreadyRecording);
    }
    state.reset_for_new_session();
    state.current_note_id = Some(note_id.clone());
    let idx = store.get_next_segment_index(note_id);
    let mic_path = seg_file_path(recordings_dir, note_id, "_mic_seg", idx);
    let sys_path = seg_file_path(recordings_dir, note_id, "_system_seg", idx);
    let id = store.add_audio_segment(
        note_id,
        idx,
        mic_path.clone(),
        Some(sys_path.clone()),
        0,
    );
    state.current_segment_index = idx;
    state.segment_start_offset_ms = 0;
    state.current_segment_db_id = id;
    let started = state.start_recording(mic_path.clone());
    proof {
        assert(started is Ok);
    }
    let sys_started = match sys.start(sys_path.clone()) {
        Ok(()) => true,
        Err(_) => false,
    };
    Ok(
        DualRecordingResult {
            mic_path,
            system_path: if sys_started {
                Some(sys_path)
            } else {
                None
            },
            playback_path: None,
        },
    )
}

/// Pause the running dual recording: stop both captures and close the
/// active segment with the elapsed time as its duration.  Rejected with
/// `NotRecording` unless a segment is being recorded.
pub fn pause_dual_recording(
    state: &mut RecordingState,
    sys: &mut SystemCaptureState,
    store: &mut SegmentStore,
    elapsed_ms: i64,
) -> (r: Result<i64, AudioError>)
    requires
        old(store).wf(),
        elapsed_ms >= 0,
    ensures
        final(store).wf(),
        (r is Ok <==> old(state).phase == RecordingPhase::Recording),
        r is Err ==> (*final(state) == *old(state) && *final(sys) == *old(sys) && *final(store)
            == *old(store) && r matches Err(AudioError::NotRecording)),
        r is Ok ==> ({
            &&& (r matches Ok(d) && d == elapsed_ms)
            &&& final(store).spec_next_id() == old(store).spec_next_id()
            &&& (*final(state) == RecordingState {
                is_recording: false,
                audio_level_ppm: 0,
                phase: RecordingPhase::Paused,
                ..*old(state)
            })
            &&& !final(sys).is_capturing
            &&& final(sys).output_path is None
            &&& (if old(state).current_segment_db_id > 0 {
                final(store).rows_view() =~= rows_with_duration(
                    old(store).rows_view(),
                    old(state).current_segment_db_id as int,
                    elapsed_ms as int,
                )
            } else {
                *final(store) == *old(store)
            })
        }),
{
    let paused = state.pause_recording(elapsed_ms);
    let duration_ms = match paused {
        Ok(d) => d,
        Err(e) => {
            return Err(e);
        },
    };
    let _ = sys.stop();
    let segment_id = state.current_segment_db_id;
    if segment_id > 0 {
        store.update_segment_duration(segment_id, duration_ms);
    }
    Ok(duration_ms)
}

/// Resume a paused dual recording: allocate the note's next segment at the
/// offset where the closed durations end, and reopen both captures.
/// Rejected with `NotPaused` unless the session is paused.
pub fn resume_dual_recording(
    state: &mut RecordingState,
    sys: &mut SystemCaptureState,
    store: &mut SegmentStore,
    recordings_dir: &String,
    note_id: &String,
) -> (r: Result<DualRecordingResult, AudioError>)
    requires
        old(store).wf(),
        old(store).spec_next_id() < i64::MAX,
        sum_for(old(store).rows_view(), note_id@) <= i64::MAX,
        (match max_index_for(old(store).rows_view(), note_id@) {
            Some(m) => m < u32::MAX,
            None => true,
        }),
    ensures
        final(store).wf(),
        (r is Ok <==> old(state).phase == RecordingPhase::Paused),
        r is Err ==> (*final(state) == *old(state) && *final(sys) == *old(sys) && *final(store)
            == *old(store) && r matches Err(AudioError::NotPaused)),
        r is Ok ==> ({
            let idx = next_index_spec(old(store).rows_view(), note_id@);
            let offset = sum_for(old(store).rows_view(), note_id@);
            let mic = seg_path_spec(recordings_dir@, note_id@, "_mic_seg"@, idx);
            let sysp = seg_path_spec(recordings_dir@, note_id@, "_system_seg"@, idx);
            &&& final(store).rows_view() =~= old(store).rows_view().push(
                new_seg_row(old(store).spec_next_id(), note_id@, idx, mic, sysp, offset),
            )
            &&& final(store).spec_next_id() == old(store).spec_next_id() + 1
            &&& opened_state(
                *old(state),
                *final(state),
                idx,
                offset,
                old(store).spec_next_id(),
                mic,
            )
            &&& final(state).current_note_id == old(state).current_note_id
            &&& sys_after_start(*old(sys), *final(sys), sysp)
            &&& (r matches Ok(res) && opened_result(res, !old(sys).is_capturing, mic, sysp))
        }),
{
    if !matches!(state.phase, RecordingPhase::Paused) {
        return Err(AudioError::NotPaused);
    }
    let idx = store.get_next_segment_index(note_id);
    let offset = store.get_total_segment_duration(note_id);
    let mic_path = seg_file_path(recordings_dir, note_id, "_mic_seg", idx);
    let sys_path = seg_file_path(recordings_dir, note_id, "_system_seg", idx);
    let id = store.add_audio_segment(
        note_id,
        idx,
        mic_path.clone(),
        Some(sys_path.clone()),
        offset,
    );
    state.current_segment_index = idx;
    state.segment_start_offset_ms = offset;
    state.current_segment_db_id = id;
    let started = state.start_recording(mic_path.clone());
    proof {
        assert(started is Ok);
    }
    let sys_started = match sys.start(sys_path.clone()) {
        Ok(()) => true,
        Err(_) => false,
    };
    Ok(
        DualRecordingResult {
            mic_path,
            system_path: if sys_started {
                Some(sys_path)
            } else {
                None
            },
            playback_path: None,
        },
    )
}

/// Continue recording on a note whose session had ended: the note is
/// reopened — its `ended_at` cleared, `updated_at` stamped with the
/// clock reading — and the note's next segment is allocated at the
/// offset where the closed durations end, the note's total duration so
/// far; the session binds to the note and both captures open.  Rejected
/// with `NoteNotFound` for an id the datastore does not hold, and with
/// `AlreadyRecording` unless the session is idle.
pub fn continue_note_recording(
    state: &mut RecordingState,
    sys: &mut SystemCaptureState,
    store: &mut SegmentStore,
    notes: &mut NoteStore,
    recordings_dir: &String,
    note_id: &String,
    now: &String,
) -> (r: Result<DualRecordingResult, AudioError>)
    requires
        old(store).wf(),
        old(store).spec_next_id() < i64::MAX,
        sum_for(old(store).rows_view(), note_id@) <= i64::MAX,
        (match max_index_for(old(store).rows_view(), note_id@) {
            Some(m) => m < u32::MAX,
            None => true,
        }),
    ensures
        final(store).wf(),
        (r is Ok <==> note_exists(old(notes).rows_view(), note_id@) && old(state).phase
            == RecordingPhase::Idle),
        !note_exists(old(notes).rows_view(), note_id@) ==> (*final(state) == *old(state)
            && *final(sys) == *old(sys) && *final(store) == *old(store) && *final(notes) == *old(
            notes,
        ) && r matches Err(AudioError::NoteNotFound)),
        (note_exists(old(notes).rows_view(), note_id@) && old(state).phase
            != RecordingPhase::Idle) ==> (*final(state) == *old(state) && *final(sys) == *old(sys)
            && *final(store) == *old(store) && *final(notes) == *old(notes) && r matches Err(
            AudioError::AlreadyRecording,
        )),
        r is Ok ==> ({
            let idx = next_index_spec(old(store).rows_view(), note_id@);
            let offset = sum_for(old(store).rows_view(), note_id@);
            let mic = seg_path_spec(recordings_dir@, note_id@, "_mic_seg"@, idx);
            let sysp = seg_path_spec(recordings_dir@, note_id@, "_system_seg"@, idx);
            &&& final(notes).rows_view() =~= notes_reopened(
                old(notes).rows_view(),
                note_id@,
                *now,
            )
            &&& final(store).rows_view() =~= old(store).rows_view().push(
                new_seg_row(old(store).spec_next_id(), note_id@, idx, mic, sysp, offset),
            )
            &&& final(store).spec_next_id() == old(store).spec_next_id() + 1
            &&& opened_state(
                *old(state),
                *final(state),
                idx,
                offset,
                old(store).spec_next_id(),
                mic,
            )
            &&& (final(state).current_note_id matches Some(n) && n@ == note_id@)
            &&& sys_after_start(*old(sys), *final(sys), sysp)
            &&& (r matches Ok(res) && opened_result(res, !old(sys).is_capturing, mic, sysp))
        }),
{
    if !notes.has_note(note_id) {
        return Err(AudioError::NoteNotFound);
    }
    if !matches!(state.phase, RecordingPhase::Idle) {
        return Err(AudioError::AlreadyRecording);
    }
    let reopened = notes.reopen_note(note_id, now);
    proof {
        assert(reopened);
    }
    state.current_note_id = Some(note_id.clone());
    let idx = store.get_next_segment_index(note_id);
    let offset = store.get_total_segment_duration(note_id);
    let mic_path = seg_file_path(recordings_dir, note_id, "_mic_seg", idx);
    let sys_path = seg_file_path(recordings_dir, note_id, "_system_seg", idx);
    let id = store.add_audio_segment(
        note_id,
        idx,
        mic_path.clone(),
        Some(sys_path.clone()),
        offset,
    );
    state.current_segment_index = idx;
    state.segment_start_offset_ms = offset;
    state.current_segment_db_id = id;
    let started = state.start_recording(mic_path.clone());
    proof {
        assert(started is Ok);
    }
    let sys_started = match sys.start(sys_path.clone()) {
        Ok(()) => true,
        Err(_) => false,
    };
    Ok(
        DualRecordingResult {
            mic_path,
            system_path: if sys_started {
                Some(sys_path)
            } else {
                None
            },
            playback_path: None,
        },
    )
}

/// Stop the dual recording: close the active segment with the elapsed time
/// where one is still recording, stop both captures, and zero every
/// per-session counter.  The result's `playback_path` is still empty: the
/// caller mixes the two returned WAVs through [`crate::wav::mix_wav_bytes`]
/// and fills it in.  Rejected with `NotRecording` when the session is
/// idle.
pub fn stop_dual_recording(
    state: &mut RecordingState,
    sys: &mut SystemCaptureState,
    store: &mut SegmentStore,
    elapsed_ms: i64,
) -> (r: Result<DualRecordingResult, AudioError>)
    requires
        old(store).wf(),
        elapsed_ms >= 0,
    ensures
        final(store).wf(),
        old(state).phase == RecordingPhase::Idle ==> (*final(state) == *old(state) && *final(sys)
            == *old(sys) && *final(store) == *old(store) && r matches Err(
            AudioError::NotRecording,
        )),
        old(state).phase != RecordingPhase::Idle ==> ({
            &&& final(store).spec_next_id() == old(store).spec_next_id()
            &&& (*final(state) == RecordingState {
                is_recording: false,
                audio_level_ppm: 0,
                phase: RecordingPhase::Idle,
                current_segment_index: 0,
                segment_start_offset_ms: 0,
                current_segment_db_id: 0,
                current_note_id: None,
                output_path: None,
                audio_buffer: final(state).audio_buffer,
                ..*old(state)
            })
            &&& final(state).audio_buffer@ =~= Seq::<i16>::empty()
            &&& !final(sys).is_capturing
            &&& final(sys).output_path is None
            &&& (if old(state).phase == RecordingPhase::Recording && old(
                state,
            ).current_segment_db_id > 0 {
                final(store).rows_view() =~= rows_with_duration(
                    old(store).rows_view(),
                    old(state).current_segment_db_id as int,
                    elapsed_ms as int,
                )
            } else {
                *final(store) == *old(store)
            })
            &&& (r is Ok <==> old(state).output_path is Some)
            &&& (old(state).output_path matches Some(p) ==> r matches Ok(res) && res.mic_path == p
                && res.system_path == old(sys).output_path && res.playback_path is None)
            &&& (old(state).output_path is None ==> r matches Err(AudioError::IoError(_)))
        }),
{
    if matches!(state.phase, RecordingPhase::Idle) {
        return Err(AudioError::NotRecording);
    }
    if matches!(state.phase, RecordingPhase::Recording) && state.current_segment_db_id > 0 {
        store.update_segment_duration(state.current_segment_db_id, elapsed_ms);
    }
    let mic = state.stop_recording();
    let sys_path = sys.stop();
    match mic {
        Some(mic_path) => Ok(
            DualRecordingResult { mic_path, system_path: sys_path, playback_path: None },
        ),
        None => Err(AudioError::IoError("no microphone recording path".to_string())),
    }
}

/// Whether either capture is currently running.
pub fn is_dual_recording(state: &RecordingState, sys: &SystemCaptureState) -> (r: bool)
    ensures
        r == (state.is_recording || sys.is_capturing),
{
    state.is_recording || sys.is_capturing
}

/// The session phase as its stored byte.
pub fn get_recording_phase(state: &RecordingState) -> (r: u8)
    ensures
        r == (match state.phase {
            RecordingPhase::Idle => 0u8,
            RecordingPhase::Recording => 1u8,
            RecordingPhase::Paused => 2u8,
        }),
{
    state.get_phase().as_u8()
}

} // verus!
