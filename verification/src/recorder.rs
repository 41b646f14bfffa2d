//! Microphone recording state: the phase machine, the live sample buffer
//! and the level gauge.
//!
//! The library represents PCM audio as signed 16-bit samples; a sample `s`
//! stands for the normalized amplitude `s / 32768`.  The capture layer
//! outside the library converts device samples to this form before handing
//! them in, and the wall clock stays outside too: operations that need an
//! elapsed time take it as an argument.

use vstd::prelude::*;

use crate::errors::AudioError;
use crate::phase::RecordingPhase;

verus! {

/// Full scale squared: `32768 * 32768`, the mean square of a full-scale
/// signal in sample units.
pub const FULL_SCALE_SQ: u64 = 1073741824;

/// The mean square of a sample slice, in parts per million of full scale:
/// `sum(s_i^2) * 1_000_000 / (len * 32768^2)`, and 0 for an empty slice.
pub open spec fn mean_square_ppm(samples: Seq<i16>) -> int {
    if samples.len() == 0 {
        0
    } else {
        sum_sq(samples) * 1000000 / (samples.len() * (FULL_SCALE_SQ as int))
    }
}

/// Sum of squared samples.
pub open spec fn sum_sq(samples: Seq<i16>) -> int
    decreases samples.len(),
{
    if samples.len() == 0 {
        0
    } else {
        sum_sq(samples.drop_last()) + samples.last() * samples.last()
    }
}

/// State of the microphone recording pipeline within one process.
pub struct RecordingState {
    /// Whether the capture callback is currently feeding this state.
    pub is_recording: bool,
    /// Mean-square level of the last non-empty callback, in parts per
    /// million of full scale; a VU meter reads this.
    pub audio_level_ppm: u32,
    /// Path of the WAV the current segment records to.
    pub output_path: Option<String>,
    /// Live sample buffer for the transcription scheduler.
    pub audio_buffer: Vec<i16>,
    /// Sample rate of the open device, 0 before a device was opened.
    pub sample_rate: u32,
    /// Channel count of the open device, 0 before a device was opened.
    pub channels: u32,
    /// Phase of the session.
    pub phase: RecordingPhase,
    /// Index of the active segment within its note.
    pub current_segment_index: u32,
    /// Offset of the active segment on the note timeline, in milliseconds.
    pub segment_start_offset_ms: i64,
    /// The note being recorded, while a session is open.
    pub current_note_id: Option<String>,
    /// Store id of the active segment row, 0 while none is open.
    pub current_segment_db_id: i64,
}

impl RecordingState {
    /// A fresh, idle state.
    pub fn new() -> (r: Self)
        ensures
            !r.is_recording,
            r.audio_level_ppm == 0,
            r.output_path is None,
            r.audio_buffer@ =~= Seq::<i16>::empty(),
            r.sample_rate == 0,
            r.channels == 0,
            r.phase == RecordingPhase::Idle,
            r.current_segment_index == 0,
            r.segment_start_offset_ms == 0,
            r.current_note_id is None,
            r.current_segment_db_id == 0,
    {
        RecordingState {
            is_recording: false,
            audio_level_ppm: 0,
            output_path: None,
            audio_buffer: Vec::new(),
            sample_rate: 0,
            channels: 0,
            phase: RecordingPhase::Idle,
            current_segment_index: 0,
            segment_start_offset_ms: 0,
            current_note_id: None,
            current_segment_db_id: 0,
        }
    }

    /// The current phase.
    pub fn get_phase(&self) -> (r: RecordingPhase)
        ensures
            r == self.phase,
    {
        self.phase
    }

    /// Record the format of the device the capture layer opened.
    pub fn set_input_format(&mut self, sample_rate: u32, channels: u32)
        ensures
            (*final(self) == RecordingState { sample_rate, channels, ..*old(self) }),
    {
        self.sample_rate = sample_rate;
        self.channels = channels;
    }

    /// Zero the per-session counters: segment index, offset, store row id,
    /// and the note binding.
    pub fn reset_for_new_session(&mut self)
        ensures
            (*final(self) == RecordingState {
                current_segment_index: 0,
                segment_start_offset_ms: 0,
                current_segment_db_id: 0,
                current_note_id: None,
                ..*old(self)
            }),
    {
        self.current_segment_index = 0;
        self.segment_start_offset_ms = 0;
        self.current_segment_db_id = 0;
        self.current_note_id = None;
    }

    /// Drain the live buffer: return everything and leave it empty.
    pub fn take_audio_buffer(&mut self) -> (r: Vec<i16>)
        ensures
            r@ == old(self).audio_buffer@,
            (*final(self) == RecordingState { audio_buffer: final(self).audio_buffer, ..*old(self) }),
            final(self).audio_buffer@ =~= Seq::<i16>::empty(),
    {
        let mut taken: Vec<i16> = Vec::new();
        core::mem::swap(&mut taken, &mut self.audio_buffer);
        taken
    }

    /// Number of buffered samples.
    pub fn buffer_len(&self) -> (r: usize)
        ensures
            r == self.audio_buffer@.len(),
    {
        self.audio_buffer.len()
    }

    /// Feed one capture callback's samples: append them to the live buffer
    /// and refresh the level gauge.  A callback with no samples changes
    /// nothing — no push and no level update — and nothing changes while
    /// recording is off.
    pub fn push_mic_samples(&mut self, data: &Vec<i16>)
        ensures
            (!old(self).is_recording || data@.len() == 0) ==> *final(self) == *old(self),
            (old(self).is_recording && data@.len() > 0) ==> (*final(self) == RecordingState {
                audio_buffer: final(self).audio_buffer,
                audio_level_ppm: final(self).audio_level_ppm,
                ..*old(self)
            }),
            (old(self).is_recording && data@.len() > 0) ==> final(self).audio_buffer@ =~= old(
                self,
            ).audio_buffer@ + data@,
            (old(self).is_recording && data@.len() > 0) ==> final(self).audio_level_ppm
                == mean_square_ppm(data@),
    {
        if !self.is_recording {
            return ;
        }
        if data.len() == 0 {
            return ;
        }
        let level = mean_square_ppm_exec(data);
        let mut i: usize = 0;
        let n = data.len();
        while i < n
            invariant
                n == data.len(),
                i <= n,
                self.audio_buffer@ =~= old(self).audio_buffer@ + data@.take(i as int),
                (*self == RecordingState { audio_buffer: self.audio_buffer, ..*old(self) }),
            decreases n - i,
        {
            self.audio_buffer.push(data[i]);
            proof {
                assert(data@.take(i + 1).drop_last() =~= data@.take(i as int));
                assert(data@.take(i + 1) =~= data@.take(i as int).push(data@[i as int]));
            }
            i = i + 1;
        }
        proof {
            assert(data@.take(n as int) =~= data@);
        }
        self.audio_level_ppm = level;
    }

    /// Enter `Recording` for a new segment writing to `output_path`.
    /// Rejected with `AlreadyRecording` while a segment is already being
    /// recorded; the live buffer starts out empty.
    pub fn start_recording(&mut self, output_path: String) -> (r: Result<(), AudioError>)
        ensures
            (r is Ok <==> old(self).phase != RecordingPhase::Recording),
            r is Err ==> (*final(self) == *old(self) && r matches Err(
                AudioError::AlreadyRecording,
            )),
            r is Ok ==> (*final(self) == RecordingState {
                is_recording: true,
                phase: RecordingPhase::Recording,
                output_path: Some(output_path),
                audio_buffer: final(self).audio_buffer,
                ..*old(self)
            } && final(self).audio_buffer@ =~= Seq::<i16>::empty()),
    {
        if matches!(self.phase, RecordingPhase::Recording) {
            return Err(AudioError::AlreadyRecording);
        }
        self.output_path = Some(output_path);
        self.audio_buffer = Vec::new();
        self.is_recording = true;
        self.phase = RecordingPhase::Recording;
        Ok(())
    }

    /// Leave `Recording` for `Paused`, reporting the elapsed time of the
    /// segment as its duration.  Rejected with `NotRecording` in any other
    /// phase.
    pub fn pause_recording(&mut self, elapsed_ms: i64) -> (r: Result<i64, AudioError>)
        requires
            elapsed_ms >= 0,
        ensures
            (r is Ok <==> old(self).phase == RecordingPhase::Recording),
            r is Err ==> (*final(self) == *old(self) && r matches Err(AudioError::NotRecording)),
            r is Ok ==> (r matches Ok(d) && d == elapsed_ms && *final(self) == RecordingState {
                is_recording: false,
                audio_level_ppm: 0,
                phase: RecordingPhase::Paused,
                ..*old(self)
            }),
    {
        if !matches!(self.phase, RecordingPhase::Recording) {
            return Err(AudioError::NotRecording);
        }
        self.is_recording = false;
        self.audio_level_ppm = 0;
        self.phase = RecordingPhase::Paused;
        Ok(elapsed_ms)
    }

    /// Leave `Paused` for `Recording` on the next segment: the segment
    /// index advances by one and capture restarts into `output_path`.
    /// Rejected with `NotPaused` in any other phase.
    pub fn resume_recording(&mut self, output_path: String) -> (r: Result<(), AudioError>)
        requires
            old(self).current_segment_index < u32::MAX,
        ensures
            (r is Ok <==> old(self).phase == RecordingPhase::Paused),
            r is Err ==> (*final(self) == *old(self) && r matches Err(AudioError::NotPaused)),
            r is Ok ==> (*final(self) == RecordingState {
                is_recording: true,
                phase: RecordingPhase::Recording,
                output_path: Some(output_path),
                current_segment_index: (old(self).current_segment_index + 1) as u32,
                audio_buffer: final(self).audio_buffer,
                ..*old(self)
            } && final(self).audio_buffer@ =~= Seq::<i16>::empty()),
    {
        if !matches!(self.phase, RecordingPhase::Paused) {
            return Err(AudioError::NotPaused);
        }
        self.current_segment_index = self.current_segment_index + 1;
        self.output_path = Some(output_path);
        self.audio_buffer = Vec::new();
        self.is_recording = true;
        self.phase = RecordingPhase::Recording;
        Ok(())
    }

    /// Stop the session entirely: back to `Idle` with every per-session
    /// counter zeroed, returning the path of the last segment's WAV.
    /// The live buffer is left empty.
    pub fn stop_recording(&mut self) -> (r: Option<String>)
        ensures
            r == old(self).output_path,
            (*final(self) == RecordingState {
                is_recording: false,
                audio_level_ppm: 0,
                phase: RecordingPhase::Idle,
                current_segment_index: 0,
                segment_start_offset_ms: 0,
                current_segment_db_id: 0,
                current_note_id: None,
                output_path: None,
                audio_buffer: final(self).audio_buffer,
                ..*old(self)
            }),
            final(self).audio_buffer@ =~= Seq::<i16>::empty(),
    {
        self.is_recording = false;
        self.audio_level_ppm = 0;
        self.phase = RecordingPhase::Idle;
        self.audio_buffer = Vec::new();
        self.reset_for_new_session();
        let mut path: Option<String> = None;
        core::mem::swap(&mut path, &mut self.output_path);
        path
    }
}

/// Mean square of the samples in parts per million of full scale; exact
/// integer arithmetic over `mean_square_ppm`.
pub fn mean_square_ppm_exec(data: &Vec<i16>) -> (r: u32)
    ensures
        r == mean_square_ppm(data@),
{
    proof {
        lemma_sum_sq_bounds(data@);
    }
    let mut sum: u128 = 0;
    let mut i: usize = 0;
    let n = data.len();
    while i < n
        invariant
            n == data@.len(),
            i <= n,
            sum == sum_sq(data@.take(i as int)),
            sum <= i * (FULL_SCALE_SQ as int),
        decreases n - i,
    {
        proof {
            assert(data@.take(i + 1).drop_last() =~= data@.take(i as int));
            lemma_sum_sq_bounds(data@.take(i + 1));
        }
        let s = data[i] as i64;
        proof {
            assert(s * s >= 0 && s * s <= FULL_SCALE_SQ as int) by (nonlinear_arith)
                requires
                    -32768 <= s <= 32767,
            ;
        }
        let sq = (s * s) as u128;
        sum = sum + sq;
        i = i + 1;
    }
    proof {
        assert(data@.take(n as int) =~= data@);
    }
    if n == 0 {
        0
    } else {
        let scaled: u128 = sum * 1000000;
        let denom: u128 = (n as u128) * (FULL_SCALE_SQ as u128);
        let ppm: u128 = scaled / denom;
        proof {
            assert(sum <= n * (FULL_SCALE_SQ as int));
            assert(scaled <= n * (FULL_SCALE_SQ as int) * 1000000) by (nonlinear_arith)
                requires
                    sum <= n * (FULL_SCALE_SQ as int),
                    scaled == sum * 1000000,
            ;
            assert(ppm <= 1000000) by (nonlinear_arith)
                requires
                    scaled <= n * (FULL_SCALE_SQ as int) * 1000000,
                    denom == n * (FULL_SCALE_SQ as int),
                    n >= 1,
                    ppm == scaled / denom,
            ;
        }
        ppm as u32
    }
}

/// Each sample square is at most full scale squared, so the sum is at most
/// `len` times full scale squared, and never negative.
proof fn lemma_sum_sq_bounds(samples: Seq<i16>)
    ensures
        0 <= sum_sq(samples) <= samples.len() * (FULL_SCALE_SQ as int),
    decreases samples.len(),
{
    if samples.len() > 0 {
        lemma_sum_sq_bounds(samples.drop_last());
        let s = samples.last() as int;
        assert(s * s <= FULL_SCALE_SQ as int) by (nonlinear_arith)
            requires
                -32768 <= s <= 32767,
        ;
        assert(s * s >= 0) by (nonlinear_arith);
        assert((samples.len() - 1) * (FULL_SCALE_SQ as int) + (FULL_SCALE_SQ as int)
            == samples.len() * (FULL_SCALE_SQ as int)) by (nonlinear_arith);
    }
}

} // verus!
