//! Plain records of the note datastore and of the assistant service.
//!
//! Timestamps travel as RFC 3339 text, exactly as the durable store keeps
//! them; the store itself lives outside the library.

use vstd::prelude::*;
use vstd::string::StringExecFns;

verus! {

/// The kinds of summary the assistant produces.
#[derive(Debug, Clone, Copy, PartialEq, Eq, Structural)]
pub enum SummaryType {
    Overview,
    ActionItems,
    KeyDecisions,
    Custom,
}

impl SummaryType {
    /// The kind's stored name.
    pub fn as_str(&self) -> (r: &'static str)
        ensures
            r@ == (match self {
                SummaryType::Overview => "overview"@,
                SummaryType::ActionItems => "action_items"@,
                SummaryType::KeyDecisions => "key_decisions"@,
                SummaryType::Custom => "custom"@,
            }),
    {
        match self {
            SummaryType::Overview => "overview",
            SummaryType::ActionItems => "action_items",
            SummaryType::KeyDecisions => "key_decisions",
            SummaryType::Custom => "custom",
        }
    }

    /// Decode a stored name; anything unknown reads as `Custom`.
    pub fn from_str(s: &str) -> (r: Self)
        ensures
            r == (if s@ == "overview"@ {
                SummaryType::Overview
            } else if s@ == "action_items"@ {
                SummaryType::ActionItems
            } else if s@ == "key_decisions"@ {
                SummaryType::KeyDecisions
            } else {
                SummaryType::Custom
            }),
    {
        if crate::model::eq_str(s, "overview") {
            SummaryType::Overview
        } else if crate::model::eq_str(s, "action_items") {
            SummaryType::ActionItems
        } else if crate::model::eq_str(s, "key_decisions") {
            SummaryType::KeyDecisions
        } else {
            SummaryType::Custom
        }
    }
}

/// A note of the datastore.
#[derive(Debug)]
pub struct Note {
    pub id: String,
    pub title: String,
    pub description: Option<String>,
    /// Comma-separated list of participants.
    pub participants: Option<String>,
    pub started_at: String,
    pub ended_at: Option<String>,
    pub audio_path: Option<String>,
    pub created_at: String,
    pub updated_at: String,
}

/// What a caller supplies to create a note.
#[derive(Debug)]
pub struct NewNote {
    pub title: String,
    pub description: Option<String>,
    pub participants: Option<String>,
}

/// What a caller supplies to update a note; absent fields stay.
#[derive(Debug)]
pub struct UpdateNote {
    pub title: Option<String>,
    pub description: Option<String>,
    pub participants: Option<String>,
}

/// What a caller supplies to insert an audio segment row.
#[derive(Debug)]
pub struct NewAudioSegment {
    pub note_id: String,
    pub segment_index: i32,
    pub mic_path: String,
    pub system_path: Option<String>,
    pub start_offset_ms: i64,
}

/// A stored summary.
#[derive(Debug)]
pub struct Summary {
    pub id: i64,
    pub note_id: String,
    pub summary_type: SummaryType,
    pub content: String,
    pub created_at: String,
}

/// The assistant service's errors.
#[derive(Debug)]
pub enum OllamaError {
    /// The service is not running.
    NotRunning,
    /// The named model is not installed.
    ModelNotFound(String),
    /// A request failed; the payload carries the cause.
    RequestFailed(String),
    /// A response could not be decoded; the payload carries the cause.
    InvalidResponse(String),
}

impl OllamaError {
    /// A short stable label for each error kind.
    pub fn label(&self) -> (r: &'static str)
        ensures
            r@ == (match self {
                OllamaError::NotRunning => "not running"@,
                OllamaError::ModelNotFound(_) => "model not found"@,
                OllamaError::RequestFailed(_) => "request failed"@,
                OllamaError::InvalidResponse(_) => "invalid response"@,
            }),
    {
        match self {
            OllamaError::NotRunning => "not running",
            OllamaError::ModelNotFound(_) => "model not found",
            OllamaError::RequestFailed(_) => "request failed",
            OllamaError::InvalidResponse(_) => "invalid response",
        }
    }
}

/// One installed assistant model, as the service lists it.
#[derive(Debug)]
pub struct OllamaModel {
    pub name: String,
    pub size: u64,
    pub modified_at: String,
    pub digest: String,
}

/// The assistant's status for the UI.
#[derive(Debug)]
pub struct OllamaStatus {
    pub running: bool,
    pub models: Vec<OllamaModel>,
    pub selected_model: Option<String>,
}

/// A request to generate a summary.
#[derive(Debug)]
pub struct GenerateSummaryRequest {
    pub note_id: String,
    pub summary_type: String,
    pub custom_prompt: Option<String>,
}

/// One chunk of a streamed summary for the UI.
#[derive(Debug)]
pub struct SummaryStreamEvent {
    pub note_id: String,
    pub chunk: String,
    pub is_done: bool,
}

/// The texts that survive the transcript filter: those not carrying the
/// blank-audio marker, in order.
pub open spec fn kept_texts(texts: Seq<Seq<char>>) -> Seq<Seq<char>>
    decreases texts.len(),
{
    if texts.len() == 0 {
        Seq::empty()
    } else if crate::text::contains_seq(texts.last(), "[BLANK_AUDIO]"@) {
        kept_texts(texts.drop_last())
    } else {
        kept_texts(texts.drop_last()).push(texts.last())
    }
}

/// Join stored transcript texts into one transcript for the assistant:
/// texts carrying the blank-audio marker are dropped, the rest joined
/// with single spaces.
pub fn join_transcript(texts: &Vec<String>) -> (r: String)
    ensures
        r@ =~= crate::transcriber::joined(kept_texts(crate::text::word_views(texts@))),
{
    let mut kept: Vec<String> = Vec::new();
    let mut i: usize = 0;
    let n = texts.len();
    while i < n
        invariant
            n == texts@.len(),
            i <= n,
            crate::text::word_views(kept@) =~= kept_texts(
                crate::text::word_views(texts@).take(i as int),
            ),
        decreases n - i,
    {
        proof {
            assert(crate::text::word_views(texts@).take(i + 1).drop_last()
                =~= crate::text::word_views(texts@).take(i as int));
            assert(crate::text::word_views(texts@).take(i + 1).last() == texts@[i as int]@);
        }
        if !crate::text::contains_str(texts[i].as_str(), "[BLANK_AUDIO]") {
            let ghost prev = crate::text::word_views(kept@);
            kept.push(texts[i].clone());
            proof {
                assert(crate::text::word_views(kept@) =~= prev.push(texts@[i as int]@));
            }
        }
        i = i + 1;
    }
    proof {
        assert(crate::text::word_views(texts@).take(n as int) =~= crate::text::word_views(
            texts@,
        ));
    }
    let mut out = String::new();
    let mut k: usize = 0;
    let m = kept.len();
    while k < m
        invariant
            m == kept@.len(),
            k <= m,
            out@ =~= crate::transcriber::joined(
                crate::text::word_views(kept@).take(k as int),
            ),
        decreases m - k,
    {
        proof {
            let texts_k = crate::text::word_views(kept@).take(k as int);
            let texts_k1 = crate::text::word_views(kept@).take(k + 1);
            assert(texts_k1.drop_last() =~= texts_k);
            assert(texts_k1.last() == kept@[k as int]@);
        }
        if k > 0 {
            out.append(" ");
        }
        out.append(kept[k].as_str());
        k = k + 1;
    }
    proof {
        assert(crate::text::word_views(kept@).take(m as int) =~= crate::text::word_views(kept@));
    }
    out
}

} // verus!
