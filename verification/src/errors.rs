//! Error kinds of the recording and transcription pipeline.

use vstd::prelude::*;

verus! {

/// Errors of the capture and recording side.
#[derive(Debug)]
pub enum AudioError {
    /// No default input device was available.
    NoInputDevice,
    /// `start` was called while a capture was already running.
    AlreadyRecording,
    /// `pause` or `stop` was called while nothing was recording.
    NotRecording,
    /// `resume` was called while the session was not paused.
    NotPaused,
    /// The device or file delivered samples in a format the pipeline
    /// does not handle.
    UnsupportedFormat,
    /// A shared lock was poisoned.
    LockError,
    /// The platform has no system-audio backend.
    UnsupportedPlatform,
    /// A recording was continued on a note the datastore does not hold.
    NoteNotFound,
    /// The OS denied an audio-capture permission; the payload carries
    /// the reason reported by the platform.
    PermissionDenied(String),
    /// A WAV file could not be read or written; the payload carries the
    /// codec's message.
    WavError(String),
    /// An I/O operation failed; the payload carries the message.
    IoError(String),
}

impl AudioError {
    /// A short stable label for each error kind, for logs and UIs.
    pub fn label(&self) -> (r: &'static str)
        ensures
            r@ == (match self {
                AudioError::NoInputDevice => "no input device"@,
                AudioError::AlreadyRecording => "already recording"@,
                AudioError::NotRecording => "not recording"@,
                AudioError::NotPaused => "not paused"@,
                AudioError::UnsupportedFormat => "unsupported format"@,
                AudioError::LockError => "lock error"@,
                AudioError::UnsupportedPlatform => "unsupported platform"@,
                AudioError::NoteNotFound => "note not found"@,
                AudioError::PermissionDenied(_) => "permission denied"@,
                AudioError::WavError(_) => "wav error"@,
                AudioError::IoError(_) => "io error"@,
            }),
    {
        match self {
            AudioError::NoInputDevice => "no input device",
            AudioError::AlreadyRecording => "already recording",
            AudioError::NotRecording => "not recording",
            AudioError::NotPaused => "not paused",
            AudioError::UnsupportedFormat => "unsupported format",
            AudioError::LockError => "lock error",
            AudioError::UnsupportedPlatform => "unsupported platform",
            AudioError::NoteNotFound => "note not found",
            AudioError::PermissionDenied(_) => "permission denied",
            AudioError::WavError(_) => "wav error",
            AudioError::IoError(_) => "io error",
        }
    }
}

/// Errors of the model manager and the transcribers.
#[derive(Debug)]
pub enum TranscriptionError {
    /// The requested model file is not present; the payload names it.
    ModelNotFound(String),
    /// A model download failed; the payload carries the cause.
    DownloadError(String),
    /// The model file exists but could not be loaded.
    ModelLoadError(String),
    /// The speech engine failed; the payload carries its message.
    TranscriptionFailed(String),
    /// The audio file to transcribe does not exist; the payload names it.
    AudioNotFound(String),
    /// The audio file is in a format the pipeline does not handle.
    UnsupportedFormat,
    /// An I/O operation failed; the payload carries the message.
    IoError(String),
    /// A transcription was requested while one was already running.
    AlreadyTranscribing,
    /// A stop was requested while no transcription was running.
    NotTranscribing,
}

impl TranscriptionError {
    /// A short stable label for each error kind, for logs and UIs.
    pub fn label(&self) -> (r: &'static str)
        ensures
            r@ == (match self {
                TranscriptionError::ModelNotFound(_) => "model not found"@,
                TranscriptionError::DownloadError(_) => "download error"@,
                TranscriptionError::ModelLoadError(_) => "model load error"@,
                TranscriptionError::TranscriptionFailed(_) => "transcription failed"@,
                TranscriptionError::AudioNotFound(_) => "audio not found"@,
                TranscriptionError::UnsupportedFormat => "unsupported format"@,
                TranscriptionError::IoError(_) => "io error"@,
                TranscriptionError::AlreadyTranscribing => "already transcribing"@,
                TranscriptionError::NotTranscribing => "not transcribing"@,
            }),
    {
        match self {
            TranscriptionError::ModelNotFound(_) => "model not found",
            TranscriptionError::DownloadError(_) => "download error",
            TranscriptionError::ModelLoadError(_) => "model load error",
            TranscriptionError::TranscriptionFailed(_) => "transcription failed",
            TranscriptionError::AudioNotFound(_) => "audio not found",
            TranscriptionError::UnsupportedFormat => "unsupported format",
            TranscriptionError::IoError(_) => "io error",
            TranscriptionError::AlreadyTranscribing => "already transcribing",
            TranscriptionError::NotTranscribing => "not transcribing",
        }
    }
}

} // verus!
