//! Core library of a local meeting-notes recorder.
//!
//! The library holds the logic of a dual-source recording pipeline: the
//! recording state machine with its per-note audio segments, the live sample
//! buffers, PCM preparation and mixing, the voice-activity gate, skip-token
//! filtering and echo suppression of the live transcription scheduler, the
//! speech-model catalogue, and the text utilities around them.  Platform
//! capture, the speech engine, networking and durable storage live outside;
//! they hand this library plain values and take plain values back.

pub mod aec;
pub mod ai;
pub mod buffer;
pub mod errors;
pub mod export;
pub mod laws;
pub mod live;
pub mod meeting;
pub mod model;
pub mod notes;
pub mod paths;
pub mod pcm;
pub mod phase;
pub mod platform;
pub mod prompts;
pub mod recorder;
pub mod records;
pub mod session;
pub mod store;
pub mod text;
pub mod transcriber;
pub mod transcripts;
pub mod vad;
pub mod wav;

pub use phase::RecordingPhase;
