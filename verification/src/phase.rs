//! The three phases of a recording session.

use vstd::prelude::*;

verus! {

/// Phase of the recording state machine: a session is idle, actively
/// recording a segment, or paused between segments.
#[derive(Debug, Clone, Copy, PartialEq, Eq, Structural)]
pub enum RecordingPhase {
    Idle,
    Recording,
    Paused,
}

impl RecordingPhase {
    /// Decode a phase from its stored byte; unknown values fall back to `Idle`.
    pub fn from_u8(v: u8) -> (r: Self)
        ensures
            r == (if v == 1 {
                RecordingPhase::Recording
            } else if v == 2 {
                RecordingPhase::Paused
            } else {
                RecordingPhase::Idle
            }),
    {
        match v {
            1 => RecordingPhase::Recording,
            2 => RecordingPhase::Paused,
            _ => RecordingPhase::Idle,
        }
    }

    /// Encode a phase as the byte that `from_u8` decodes.
    pub fn as_u8(self) -> (r: u8)
        ensures
            r == (match self {
                RecordingPhase::Idle => 0u8,
                RecordingPhase::Recording => 1u8,
                RecordingPhase::Paused => 2u8,
            }),
    {
        match self {
            RecordingPhase::Idle => 0,
            RecordingPhase::Recording => 1,
            RecordingPhase::Paused => 2,
        }
    }
}

} // verus!
