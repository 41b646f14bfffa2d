//! The live transcription scheduler's per-tick logic.
//!
//! Every few seconds the scheduler drains both live buffers, runs the
//! speech engine on each, and commits what survives two filters: the skip
//! tokens of [`crate::text`], and — for the microphone only — echo
//! detection against a rolling history of recent system-audio segments, so
//! that speech the microphone re-captured from the loudspeakers is not
//! stored twice.  The engine itself and the timers run outside; this
//! module receives the engine's results and computes everything a tick
//! commits and emits.

use vstd::prelude::*;

use crate::errors::TranscriptionError;
use crate::text::{first_n, lower_of, match_count, skip_spec, words_from};
use crate::transcriber::{seg_views, TransSnap, TranscriptionSegment};

verus! {

/// How long a system segment stays in the echo history: 30 seconds, in
/// centiseconds.
pub const HISTORY_WINDOW_CS: i64 = 3000;

/// The least overlap between a microphone segment and a system segment
/// for echo detection: 1 second, in centiseconds.
pub const ECHO_OVERLAP_CS: i64 = 100;

/// The source of a transcript: the user's microphone or the system's
/// audio output.
#[derive(Debug, Clone, Copy, PartialEq, Eq, Structural)]
pub enum AudioSource {
    Mic,
    System,
}

/// Whether one system segment convicts a microphone segment as its echo:
/// the two overlap by at least a second on the note timeline, and of the
/// first five lowercase words of each, at least three match in any order —
/// or at least two, when the microphone segment has at most three words.
pub open spec fn echo_pair(mic_text: Seq<char>, ms: int, me: int, h: TransSnap) -> bool {
    let mw = first_n(words_from(lower_of(mic_text), 0), 5);
    let sw = first_n(words_from(lower_of(h.text), 0), 5);
    let overlap_end = if me < h.end_cs {
        me
    } else {
        h.end_cs
    };
    let overlap_start = if ms > h.start_cs {
        ms
    } else {
        h.start_cs
    };
    &&& overlap_end - overlap_start >= ECHO_OVERLAP_CS as int
    &&& (match_count(mw, sw) >= 3 || (match_count(mw, sw) >= 2 && mw.len() <= 3))
}

/// Whether the microphone segment is an echo of any segment in the
/// rolling history.  A segment without words is never an echo.
pub open spec fn is_echo_spec(
    mic_text: Seq<char>,
    ms: int,
    me: int,
    history: Seq<TransSnap>,
) -> bool {
    &&& first_n(words_from(lower_of(mic_text), 0), 5).len() > 0
    &&& exists|k: int| 0 <= k < history.len() && echo_pair(mic_text, ms, me, #[trigger] history[k])
}

/// Whether the microphone segment is an echo of a recent system segment.
pub fn is_echo_of_system(
    mic_text: &str,
    mic_start_cs: i64,
    mic_end_cs: i64,
    history: &Vec<TranscriptionSegment>,
) -> (r: bool)
    ensures
        r == is_echo_spec(mic_text@, mic_start_cs as int, mic_end_cs as int, seg_views(history@)),
{
    let mic_lower = crate::text::to_lowercase_str(mic_text);
    let mic_words_all = crate::text::split_words(mic_lower.as_str());
    let mic_words = crate::text::take_first_n(&mic_words_all, 5);
    if mic_words.len() == 0 {
        return false;
    }
    let mut k: usize = 0;
    let n = history.len();
    while k < n
        invariant
            n == history@.len(),
            crate::text::word_views(mic_words@) =~= first_n(
                words_from(lower_of(mic_text@), 0),
                5,
            ),
            mic_words@.len() > 0,
            k <= n,
            forall|j: int|
                0 <= j < k ==> !echo_pair(
                    mic_text@,
                    mic_start_cs as int,
                    mic_end_cs as int,
                    #[trigger] seg_views(history@)[j],
                ),
        decreases n - k,
    {
        let h = &history[k];
        let overlap_end: i128 = if (mic_end_cs as i128) < (h.end_cs as i128) {
            mic_end_cs as i128
        } else {
            h.end_cs as i128
        };
        let overlap_start: i128 = if (mic_start_cs as i128) > (h.start_cs as i128) {
            mic_start_cs as i128
        } else {
            h.start_cs as i128
        };
        if overlap_end - overlap_start >= ECHO_OVERLAP_CS as i128 {
            let sys_lower = crate::text::to_lowercase_str(h.text.as_str());
            let sys_words_all = crate::text::split_words(sys_lower.as_str());
            let sys_words = crate::text::take_first_n(&sys_words_all, 5);
            let matches = crate::text::count_matches(&mic_words, &sys_words);
            if matches >= 3 || (matches >= 2 && mic_words.len() <= 3) {
                proof {
                    assert(echo_pair(
                        mic_text@,
                        mic_start_cs as int,
                        mic_end_cs as int,
                        seg_views(history@)[k as int],
                    ));
                }
                return true;
            }
        }
        proof {
            assert(!echo_pair(
                mic_text@,
                mic_start_cs as int,
                mic_end_cs as int,
                seg_views(history@)[k as int],
            ));
        }
        k = k + 1;
    }
    false
}

/// The segments that pass the skip-token filter, in order.
pub open spec fn filter_skip(segs: Seq<TransSnap>) -> Seq<TransSnap>
    decreases segs.len(),
{
    if segs.len() == 0 {
        Seq::empty()
    } else if skip_spec(segs.last().text) {
        filter_skip(segs.drop_last())
    } else {
        filter_skip(segs.drop_last()).push(segs.last())
    }
}

/// The segments that are no echo of the history, in order.
pub open spec fn filter_echo(segs: Seq<TransSnap>, history: Seq<TransSnap>) -> Seq<TransSnap>
    decreases segs.len(),
{
    if segs.len() == 0 {
        Seq::empty()
    } else if is_echo_spec(
        segs.last().text,
        segs.last().start_cs,
        segs.last().end_cs,
        history,
    ) {
        filter_echo(segs.drop_last(), history)
    } else {
        filter_echo(segs.drop_last(), history).push(segs.last())
    }
}

/// The history entries still within the rolling window: eviction takes
/// what ended before the cutoff, so an entry ending exactly at the
/// cutoff stays.
pub open spec fn retain_recent(h: Seq<TransSnap>, cutoff: int) -> Seq<TransSnap>
    decreases h.len(),
{
    if h.len() == 0 {
        Seq::empty()
    } else if h.last().end_cs >= cutoff {
        retain_recent(h.drop_last(), cutoff).push(h.last())
    } else {
        retain_recent(h.drop_last(), cutoff)
    }
}

/// Drop the segments whose text carries a skip token.
pub fn filter_valid_segments(segs: &Vec<TranscriptionSegment>) -> (r: Vec<TranscriptionSegment>)
    ensures
        seg_views(r@) =~= filter_skip(seg_views(segs@)),
{
    let mut out: Vec<TranscriptionSegment> = Vec::new();
    let mut i: usize = 0;
    let n = segs.len();
    while i < n
        invariant
            n == segs@.len(),
            i <= n,
            seg_views(out@) =~= filter_skip(seg_views(segs@).take(i as int)),
        decreases n - i,
    {
        proof {
            assert(seg_views(segs@).take(i + 1).drop_last() =~= seg_views(segs@).take(i as int));
            assert(seg_views(segs@).take(i + 1).last() == segs@[i as int]@);
        }
        if !crate::text::should_skip_segment(segs[i].text.as_str()) {
            let copy = segs[i].dup();
            out.push(copy);
        }
        i = i + 1;
    }
    proof {
        assert(seg_views(segs@).take(n as int) =~= seg_views(segs@));
    }
    out
}

/// Drop the segments the history convicts as echoes.
pub fn filter_echo_segments(
    segs: &Vec<TranscriptionSegment>,
    history: &Vec<TranscriptionSegment>,
) -> (r: Vec<TranscriptionSegment>)
    ensures
        seg_views(r@) =~= filter_echo(seg_views(segs@), seg_views(history@)),
{
    let mut out: Vec<TranscriptionSegment> = Vec::new();
    let mut i: usize = 0;
    let n = segs.len();
    while i < n
        invariant
            n == segs@.len(),
            i <= n,
            seg_views(out@) =~= filter_echo(
                seg_views(segs@).take(i as int),
                seg_views(history@),
            ),
        decreases n - i,
    {
        proof {
            assert(seg_views(segs@).take(i + 1).drop_last() =~= seg_views(segs@).take(i as int));
            assert(seg_views(segs@).take(i + 1).last() == segs@[i as int]@);
        }
        if !is_echo_of_system(segs[i].text.as_str(), segs[i].start_cs, segs[i].end_cs, history) {
            let copy = segs[i].dup();
            out.push(copy);
        }
        i = i + 1;
    }
    proof {
        assert(seg_views(segs@).take(n as int) =~= seg_views(segs@));
    }
    out
}

/// In-memory state of one live transcription session.
pub struct LiveTranscriptionState {
    /// Whether the scheduler loop should keep running.
    pub is_running: bool,
    /// Note-timeline offset for the next microphone chunk, centiseconds.
    pub mic_time_offset_cs: i64,
    /// Note-timeline offset for the next system chunk, centiseconds.
    pub system_time_offset_cs: i64,
    /// Every segment committed in this session, in commit order.
    pub segments: Vec<TranscriptionSegment>,
    /// Rolling history of recent system segments for echo detection.
    pub recent_system_segments: Vec<TranscriptionSegment>,
}

impl LiveTranscriptionState {
    /// A state at rest.
    pub fn new() -> (r: Self)
        ensures
            !r.is_running,
            r.mic_time_offset_cs == 0,
            r.system_time_offset_cs == 0,
            r.segments@.len() == 0,
            r.recent_system_segments@.len() == 0,
    {
        LiveTranscriptionState {
            is_running: false,
            mic_time_offset_cs: 0,
            system_time_offset_cs: 0,
            segments: Vec::new(),
            recent_system_segments: Vec::new(),
        }
    }

    /// Begin a session: rejected with `AlreadyTranscribing` while one
    /// runs; otherwise offsets, accumulated segments and history reset.
    pub fn begin(&mut self) -> (r: Result<(), TranscriptionError>)
        ensures
            (r is Ok <==> !old(self).is_running),
            r is Err ==> (*final(self) == *old(self) && r matches Err(
                TranscriptionError::AlreadyTranscribing,
            )),
            r is Ok ==> ({
                &&& final(self).is_running
                &&& final(self).mic_time_offset_cs == 0
                &&& final(self).system_time_offset_cs == 0
                &&& final(self).segments@.len() == 0
                &&& final(self).recent_system_segments@.len() == 0
            }),
    {
        if self.is_running {
            return Err(TranscriptionError::AlreadyTranscribing);
        }
        self.is_running = true;
        self.mic_time_offset_cs = 0;
        self.system_time_offset_cs = 0;
        self.segments = Vec::new();
        self.recent_system_segments = Vec::new();
        Ok(())
    }

    /// Whether the scheduler should keep ticking.
    pub fn is_live_transcribing(&self) -> (r: bool)
        ensures
            r == self.is_running,
    {
        self.is_running
    }
}

/// One transcript row bound for durable storage.
#[derive(Debug)]
pub struct TranscriptRow {
    pub note_id: String,
    pub start_cs: i64,
    pub end_cs: i64,
    pub text: String,
    pub speaker: Option<String>,
}

/// The mathematical image of a transcript row.
pub ghost struct RowSnap {
    pub note_id: Seq<char>,
    pub start_cs: int,
    pub end_cs: int,
    pub text: Seq<char>,
    pub speaker: Option<Seq<char>>,
}

impl View for TranscriptRow {
    type V = RowSnap;

    open spec fn view(&self) -> RowSnap {
        RowSnap {
            note_id: self.note_id@,
            start_cs: self.start_cs as int,
            end_cs: self.end_cs as int,
            text: self.text@,
            speaker: match self.speaker {
                Some(ref s) => Some(s@),
                None => None,
            },
        }
    }
}

/// The views of a row vector.
pub open spec fn row_views(rows: Seq<TranscriptRow>) -> Seq<RowSnap> {
    rows.map_values(|r: TranscriptRow| r@)
}

/// The rows a batch of segments turns into, all for one note and one
/// speaker.
pub open spec fn rows_of(segs: Seq<TransSnap>, note: Seq<char>, speaker: Seq<char>) -> Seq<
    RowSnap,
> {
    segs.map_values(
        |s: TransSnap|
            RowSnap {
                note_id: note,
                start_cs: s.start_cs,
                end_cs: s.end_cs,
                text: s.text,
                speaker: Some(speaker),
            },
    )
}

/// One `transcription-update` event for the UI.
#[derive(Debug)]
pub struct TranscriptionUpdateEvent {
    pub note_id: String,
    pub segments: Vec<TranscriptionSegment>,
    pub is_final: bool,
    pub audio_source: AudioSource,
}

/// The mathematical image of an update event.
pub ghost struct EventSnap {
    pub note_id: Seq<char>,
    pub segments: Seq<TransSnap>,
    pub is_final: bool,
    pub audio_source: AudioSource,
}

impl View for TranscriptionUpdateEvent {
    type V = EventSnap;

    open spec fn view(&self) -> EventSnap {
        EventSnap {
            note_id: self.note_id@,
            segments: seg_views(self.segments@),
            is_final: self.is_final,
            audio_source: self.audio_source,
        }
    }
}

/// The views of an event vector.
pub open spec fn event_views(evs: Seq<TranscriptionUpdateEvent>) -> Seq<EventSnap> {
    evs.map_values(|e: TranscriptionUpdateEvent| e@)
}

/// What one tick commits and emits.
#[derive(Debug)]
pub struct TickOutcome {
    /// Rows to insert into the transcript table, in one batch.
    pub db_rows: Vec<TranscriptRow>,
    /// Events for the UI, in emission order.
    pub events: Vec<TranscriptionUpdateEvent>,
}

/// Copy a segment vector.
pub fn dup_segments(src: &Vec<TranscriptionSegment>) -> (r: Vec<TranscriptionSegment>)
    ensures
        seg_views(r@) =~= seg_views(src@),
{
    let mut out: Vec<TranscriptionSegment> = Vec::new();
    let mut i: usize = 0;
    let n = src.len();
    while i < n
        invariant
            n == src@.len(),
            i <= n,
            seg_views(out@) =~= seg_views(src@).take(i as int),
        decreases n - i,
    {
        out.push(src[i].dup());
        proof {
            assert(seg_views(out@) =~= seg_views(out@.drop_last()).push(src@[i as int]@));
            assert(seg_views(src@).take(i + 1) =~= seg_views(src@).take(i as int).push(
                seg_views(src@)[i as int],
            ));
        }
        i = i + 1;
    }
    proof {
        assert(seg_views(src@).take(n as int) =~= seg_views(src@));
    }
    out
}

/// Append one segment vector to another.
fn extend_segments(dst: &mut Vec<TranscriptionSegment>, src: &Vec<TranscriptionSegment>)
    ensures
        seg_views(final(dst)@) =~= seg_views(old(dst)@) + seg_views(src@),
{
    let mut i: usize = 0;
    let n = src.len();
    while i < n
        invariant
            n == src@.len(),
            i <= n,
            seg_views(dst@) =~= seg_views(old(dst)@) + seg_views(src@).take(i as int),
        decreases n - i,
    {
        let ghost prev = seg_views(dst@);
        dst.push(src[i].dup());
        proof {
            assert(seg_views(dst@) =~= prev.push(src@[i as int]@));
            assert(prev.push(src@[i as int]@) =~= seg_views(old(dst)@) + seg_views(src@).take(
                i + 1,
            ));
        }
        i = i + 1;
    }
    proof {
        assert(seg_views(src@).take(n as int) =~= seg_views(src@));
    }
}

/// Turn a batch of kept segments into rows for one note and speaker and
/// append them.
fn push_rows(
    rows: &mut Vec<TranscriptRow>,
    segs: &Vec<TranscriptionSegment>,
    note_id: &String,
    speaker: &str,
)
    ensures
        row_views(final(rows)@) =~= row_views(old(rows)@) + rows_of(
            seg_views(segs@),
            note_id@,
            speaker@,
        ),
{
    let mut i: usize = 0;
    let n = segs.len();
    while i < n
        invariant
            n == segs@.len(),
            i <= n,
            row_views(rows@) =~= row_views(old(rows)@) + rows_of(
                seg_views(segs@).take(i as int),
                note_id@,
                speaker@,
            ),
        decreases n - i,
    {
        let row = TranscriptRow {
            note_id: note_id.clone(),
            start_cs: segs[i].start_cs,
            end_cs: segs[i].end_cs,
            text: segs[i].text.clone(),
            speaker: Some(speaker.to_owned()),
        };
        let ghost prev = row_views(rows@);
        rows.push(row);
        proof {
            assert(row_views(rows@) =~= prev.push(rows@.last()@));
            assert(prev.push(rows@.last()@) =~= row_views(old(rows)@) + rows_of(
                seg_views(segs@).take(i + 1),
                note_id@,
                speaker@,
            ));
        }
        i = i + 1;
    }
    proof {
        assert(seg_views(segs@).take(n as int) =~= seg_views(segs@));
    }
}

/// The history after adding this tick's kept system segments and evicting
/// what ended before the cutoff.
pub fn updated_history(
    hist: &Vec<TranscriptionSegment>,
    add: &Vec<TranscriptionSegment>,
    cutoff: i64,
) -> (r: Vec<TranscriptionSegment>)
    ensures
        seg_views(r@) =~= retain_recent(seg_views(hist@) + seg_views(add@), cutoff as int),
{
    let mut combined = dup_segments(hist);
    extend_segments(&mut combined, add);
    let ghost all = seg_views(hist@) + seg_views(add@);
    proof {
        assert(seg_views(combined@) =~= all);
    }
    let mut out: Vec<TranscriptionSegment> = Vec::new();
    let mut i: usize = 0;
    let n = combined.len();
    while i < n
        invariant
            n == combined@.len(),
            all =~= seg_views(combined@),
            i <= n,
            seg_views(out@) =~= retain_recent(seg_views(combined@).take(i as int), cutoff as int),
        decreases n - i,
    {
        proof {
            assert(seg_views(combined@).take(i + 1).drop_last() =~= seg_views(combined@).take(
                i as int,
            ));
            assert(seg_views(combined@).take(i + 1).last() == combined@[i as int]@);
        }
        if combined[i].end_cs >= cutoff {
            out.push(combined[i].dup());
            proof {
                assert(seg_views(out@) =~= seg_views(out@.drop_last()).push(
                    combined@[i as int]@,
                ));
            }
        }
        i = i + 1;
    }
    proof {
        assert(seg_views(combined@).take(n as int) =~= seg_views(combined@));
    }
    out
}

/// Everything a kept row satisfies: ordered non-negative times and a
/// visible text free of skip tokens.
pub open spec fn row_committable(r: RowSnap) -> bool {
    &&& 0 <= r.start_cs <= r.end_cs
    &&& !skip_spec(r.text)
    &&& r.text.len() > 0
}

/// Segments kept by the skip filter are segments of the input whose texts
/// carry no skip token.
proof fn lemma_filter_skip_keeps(segs: Seq<TransSnap>)
    ensures
        forall|k: int|
            #![trigger filter_skip(segs)[k]]
            0 <= k < filter_skip(segs).len() ==> !skip_spec(filter_skip(segs)[k].text) && (
            exists|j: int| 0 <= j < segs.len() && filter_skip(segs)[k] == #[trigger] segs[j]),
    decreases segs.len(),
{
    if segs.len() > 0 {
        lemma_filter_skip_keeps(segs.drop_last());
        let out = filter_skip(segs);
        let prev = filter_skip(segs.drop_last());
        assert forall|k: int|
            #![trigger out[k]]
            0 <= k < out.len() implies !skip_spec(out[k].text) && (exists|j: int|
            0 <= j < segs.len() && out[k] == #[trigger] segs[j]) by {
            if k < prev.len() {
                assert(out[k] == prev[k]);
                let j = choose|j: int|
                    0 <= j < segs.drop_last().len() && prev[k] == #[trigger] segs.drop_last()[j];
                assert(segs.drop_last()[j] == segs[j]);
                assert(out[k] == segs[j]);
            } else {
                assert(out[k] == segs[segs.len() - 1]);
            }
        }
    }
}

/// Segments kept by the echo filter are segments of the input.
proof fn lemma_filter_echo_keeps(segs: Seq<TransSnap>, history: Seq<TransSnap>)
    ensures
        forall|k: int|
            #![trigger filter_echo(segs, history)[k]]
            0 <= k < filter_echo(segs, history).len() ==> exists|j: int|
                0 <= j < segs.len() && filter_echo(segs, history)[k] == #[trigger] segs[j],
    decreases segs.len(),
{
    if segs.len() > 0 {
        lemma_filter_echo_keeps(segs.drop_last(), history);
        let out = filter_echo(segs, history);
        let prev = filter_echo(segs.drop_last(), history);
        assert forall|k: int|
            #![trigger out[k]]
            0 <= k < out.len() implies exists|j: int|
            0 <= j < segs.len() && out[k] == #[trigger] segs[j] by {
            if k < prev.len() {
                assert(out[k] == prev[k]);
                let j = choose|j: int|
                    0 <= j < segs.drop_last().len() && prev[k] == #[trigger] segs.drop_last()[j];
                assert(segs.drop_last()[j] == segs[j]);
                assert(out[k] == segs[j]);
            } else {
                assert(out[k] == segs[segs.len() - 1]);
            }
        }
    }
}

/// Process one scheduler tick: given the speech engine's results for the
/// two drained chunks — segments already on the note timeline — update the
/// rolling history and the per-source time offsets, filter out skip tokens
/// and microphone echoes, extend the session transcript, and hand back the
/// rows to commit and the events to emit.
///
/// The system result feeds the history before the microphone result is
/// screened against it, so speech that just came out of the loudspeakers
/// convicts its immediate echo.  Each source's offset advances to the end
/// of its last raw segment whenever the engine returned any, filtered or
/// not, keeping stream time aligned with wall time.
pub fn process_tick(
    live: &mut LiveTranscriptionState,
    note_id: &String,
    mic_result: Option<&Vec<TranscriptionSegment>>,
    sys_result: Option<&Vec<TranscriptionSegment>>,
) -> (r: TickOutcome)
    requires
        old(live).mic_time_offset_cs >= 0,
        old(live).system_time_offset_cs >= 0,
        (match mic_result {
            Some(v) => forall|i: int|
                0 <= i < v@.len() ==> 0 <= #[trigger] v@[i]@.start_cs && v@[i]@.start_cs
                    <= v@[i]@.end_cs,
            None => true,
        }),
        (match sys_result {
            Some(v) => forall|i: int|
                0 <= i < v@.len() ==> 0 <= #[trigger] v@[i]@.start_cs && v@[i]@.start_cs
                    <= v@[i]@.end_cs,
            None => true,
        }),
        // the engine results carry the stored offset already, so they end
        // at or past it
        (match mic_result {
            Some(v) => v@.len() > 0 ==> v@.last()@.end_cs >= old(live).mic_time_offset_cs,
            None => true,
        }),
        (match sys_result {
            Some(v) => v@.len() > 0 ==> v@.last()@.end_cs >= old(live).system_time_offset_cs,
            None => true,
        }),
    ensures
        ({
            let mic_raw = match mic_result {
                Some(v) => seg_views(v@),
                None => Seq::<TransSnap>::empty(),
            };
            let sys_raw = match sys_result {
                Some(v) => seg_views(v@),
                None => Seq::<TransSnap>::empty(),
            };
            let sys_valid = filter_skip(sys_raw);
            let hist_after = if sys_raw.len() > 0 {
                retain_recent(
                    seg_views(old(live).recent_system_segments@) + sys_valid,
                    old(live).system_time_offset_cs - HISTORY_WINDOW_CS as int,
                )
            } else {
                seg_views(old(live).recent_system_segments@)
            };
            let mic_valid = filter_echo(filter_skip(mic_raw), hist_after);
            &&& final(live).is_running == old(live).is_running
            &&& final(live).mic_time_offset_cs >= old(live).mic_time_offset_cs
            &&& final(live).system_time_offset_cs >= old(live).system_time_offset_cs
            &&& seg_views(final(live).recent_system_segments@) =~= hist_after
            &&& final(live).system_time_offset_cs as int == (if sys_raw.len() > 0 {
                sys_raw.last().end_cs
            } else {
                old(live).system_time_offset_cs as int
            })
            &&& final(live).mic_time_offset_cs as int == (if mic_raw.len() > 0 {
                mic_raw.last().end_cs
            } else {
                old(live).mic_time_offset_cs as int
            })
            &&& seg_views(final(live).segments@) =~= seg_views(old(live).segments@) + mic_valid
                + sys_valid
            &&& row_views(r.db_rows@) =~= rows_of(mic_valid, note_id@, "self"@) + rows_of(
                sys_valid,
                note_id@,
                "others"@,
            )
            &&& forall|k: int|
                0 <= k < r.db_rows@.len() ==> row_committable(#[trigger] row_views(r.db_rows@)[k])
            &&& event_views(r.events@) =~= (if mic_valid.len() > 0 {
                seq![
                    EventSnap {
                        note_id: note_id@,
                        segments: mic_valid,
                        is_final: false,
                        audio_source: AudioSource::Mic,
                    },
                ]
            } else {
                Seq::<EventSnap>::empty()
            }) + (if sys_valid.len() > 0 {
                seq![
                    EventSnap {
                        note_id: note_id@,
                        segments: sys_valid,
                        is_final: false,
                        audio_source: AudioSource::System,
                    },
                ]
            } else {
                Seq::<EventSnap>::empty()
            })
        }),
{
    let ghost mic_raw = match mic_result {
        Some(v) => seg_views(v@),
        None => Seq::<TransSnap>::empty(),
    };
    let ghost sys_raw = match sys_result {
        Some(v) => seg_views(v@),
        None => Seq::<TransSnap>::empty(),
    };
    // System result first: keep what passes the skip filter and fold it
    // into the rolling history.
    let mut current_sys: Vec<TranscriptionSegment> = Vec::new();
    proof {
        assert(seg_views(current_sys@) =~= filter_skip(Seq::<TransSnap>::empty()));
    }
    match sys_result {
        Some(sys_segs) if sys_segs.len() > 0 => {
            let valid = filter_valid_segments(sys_segs);
            let cutoff = self_sub(live.system_time_offset_cs, HISTORY_WINDOW_CS);
            let new_hist = updated_history(&live.recent_system_segments, &valid, cutoff);
            live.recent_system_segments = new_hist;
            live.system_time_offset_cs = sys_segs[sys_segs.len() - 1].end_cs;
            current_sys = valid;
        },
        _ => {
            proof {
                assert(sys_raw.len() == 0);
                assert(filter_skip(sys_raw) =~= Seq::<TransSnap>::empty());
            }
        },
    }
    // Microphone result second, screened against the fresh history.
    let mut current_mic: Vec<TranscriptionSegment> = Vec::new();
    proof {
        assert(seg_views(current_mic@) =~= filter_echo(
            filter_skip(Seq::<TransSnap>::empty()),
            seg_views(live.recent_system_segments@),
        ));
    }
    match mic_result {
        Some(mic_segs) if mic_segs.len() > 0 => {
            live.mic_time_offset_cs = mic_segs[mic_segs.len() - 1].end_cs;
            let valid = filter_valid_segments(mic_segs);
            current_mic = filter_echo_segments(&valid, &live.recent_system_segments);
        },
        _ => {
            proof {
                assert(mic_raw.len() == 0);
                assert(filter_skip(mic_raw) =~= Seq::<TransSnap>::empty());
            }
        },
    }
    // Commit: rows and events, microphone first.
    let mut db_rows: Vec<TranscriptRow> = Vec::new();
    let mut events: Vec<TranscriptionUpdateEvent> = Vec::new();
    if current_mic.len() > 0 {
        push_rows(&mut db_rows, &current_mic, note_id, "self");
        extend_segments(&mut live.segments, &current_mic);
        events.push(
            TranscriptionUpdateEvent {
                note_id: note_id.clone(),
                segments: dup_segments(&current_mic),
                is_final: false,
                audio_source: AudioSource::Mic,
            },
        );
    } else {
        proof {
            assert(seg_views(live.segments@) =~= seg_views(live.segments@) + seg_views(
                current_mic@,
            ));
        }
    }
    if current_sys.len() > 0 {
        push_rows(&mut db_rows, &current_sys, note_id, "others");
        extend_segments(&mut live.segments, &current_sys);
        events.push(
            TranscriptionUpdateEvent {
                note_id: note_id.clone(),
                segments: dup_segments(&current_sys),
                is_final: false,
                audio_source: AudioSource::System,
            },
        );
    }
    proof {
        let sys_valid = filter_skip(sys_raw);
        let hist_after = seg_views(live.recent_system_segments@);
        let mic_valid = filter_echo(filter_skip(mic_raw), hist_after);
        assert(seg_views(current_sys@) =~= sys_valid);
        assert(seg_views(current_mic@) =~= mic_valid);
        lemma_filter_skip_keeps(sys_raw);
        lemma_filter_skip_keeps(mic_raw);
        lemma_filter_echo_keeps(filter_skip(mic_raw), hist_after);
        assert(row_views(db_rows@) =~= rows_of(mic_valid, note_id@, "self"@) + rows_of(
            sys_valid,
            note_id@,
            "others"@,
        ));
        assert forall|k: int| 0 <= k < db_rows@.len() implies row_committable(
            #[trigger] row_views(db_rows@)[k],
        ) by {
            let rows = row_views(db_rows@);
            if k < mic_valid.len() {
                assert(rows[k] == rows_of(mic_valid, note_id@, "self"@)[k]);
                let j = choose|j: int|
                    0 <= j < filter_skip(mic_raw).len() && mic_valid[k] == #[trigger] filter_skip(
                        mic_raw,
                    )[j];
                let raw = choose|j2: int|
                    0 <= j2 < mic_raw.len() && filter_skip(mic_raw)[j] == #[trigger] mic_raw[j2];
                match mic_result {
                    Some(v) => {
                        assert(mic_raw[raw] == v@[raw]@);
                        assert(0 <= mic_raw[raw].start_cs <= mic_raw[raw].end_cs);
                    },
                    None => {},
                }
                assert(!skip_spec(mic_valid[k].text));
                assert(mic_valid[k].text.len() > 0) by {
                    if mic_valid[k].text.len() == 0 {
                        assert(crate::text::is_blank(mic_valid[k].text));
                    }
                }
            } else {
                let k2 = k - mic_valid.len();
                assert(rows[k] == rows_of(sys_valid, note_id@, "others"@)[k2]);
                let raw = choose|j2: int|
                    0 <= j2 < sys_raw.len() && sys_valid[k2] == #[trigger] sys_raw[j2];
                match sys_result {
                    Some(v) => {
                        assert(sys_raw[raw] == v@[raw]@);
                        assert(0 <= sys_raw[raw].start_cs <= sys_raw[raw].end_cs);
                    },
                    None => {},
                }
                assert(!skip_spec(sys_valid[k2].text));
                assert(sys_valid[k2].text.len() > 0) by {
                    if sys_valid[k2].text.len() == 0 {
                        assert(crate::text::is_blank(sys_valid[k2].text));
                    }
                }
            }
        }
    }
    TickOutcome { db_rows, events }
}

/// Saturating-free subtraction that the history cutoff needs: offsets are
/// never negative, so `offset - window` stays in range.
fn self_sub(a: i64, b: i64) -> (r: i64)
    requires
        a >= 0,
        b >= 0,
    ensures
        r as int == a - b,
{
    a - b
}

/// End the session: clear the running flag and hand back everything it
/// accumulated, the texts joined with single spaces.
pub fn stop_live_transcription(live: &mut LiveTranscriptionState) -> (r:
    crate::transcriber::TranscriptionResult)
    ensures
        !final(live).is_running,
        final(live).mic_time_offset_cs == old(live).mic_time_offset_cs,
        final(live).system_time_offset_cs == old(live).system_time_offset_cs,
        seg_views(final(live).segments@) =~= seg_views(old(live).segments@),
        seg_views(final(live).recent_system_segments@) =~= seg_views(
            old(live).recent_system_segments@,
        ),
        seg_views(r.segments@) =~= seg_views(old(live).segments@),
        r.full_text@ =~= crate::transcriber::joined(
            crate::transcriber::texts_of(seg_views(old(live).segments@)),
        ),
        (r.language matches Some(l) && l@ == "en"@),
{
    live.is_running = false;
    let segments = dup_segments(&live.segments);
    let mut full_text = String::new();
    let mut i: usize = 0;
    let n = segments.len();
    proof {
        assert(seg_views(segments@) =~= seg_views(live.segments@));
    }
    while i < n
        invariant
            n == segments@.len(),
            i <= n,
            full_text@ =~= crate::transcriber::joined(
                crate::transcriber::texts_of(seg_views(segments@).take(i as int)),
            ),
        decreases n - i,
    {
        proof {
            let texts = crate::transcriber::texts_of(seg_views(segments@).take(i as int));
            let more = crate::transcriber::texts_of(seg_views(segments@).take(i + 1));
            assert(more.drop_last() =~= texts);
            assert(more.last() == segments@[i as int]@.text);
        }
        if i > 0 {
            full_text.append(" ");
        }
        full_text.append(segments[i].text.as_str());
        i = i + 1;
    }
    proof {
        assert(seg_views(segments@).take(n as int) =~= seg_views(segments@));
    }
    crate::transcriber::TranscriptionResult {
        segments,
        full_text,
        language: Some("en".to_owned()),
    }
}

/// The terminal event of a session: `is_final` with no segments.
pub fn final_event(note_id: &String) -> (r: TranscriptionUpdateEvent)
    ensures
        r@.note_id == note_id@,
        r@.segments.len() == 0,
        r@.is_final,
        r@.audio_source == AudioSource::Mic,
{
    TranscriptionUpdateEvent {
        note_id: note_id.clone(),
        segments: Vec::new(),
        is_final: true,
        audio_source: AudioSource::Mic,
    }
}

/// The transcript rows an offline transcription saves: the segments that
/// pass the skip filter, each as a row for the note under the speaker.
pub fn rows_for_result(
    segments: &Vec<TranscriptionSegment>,
    note_id: &String,
    speaker: &str,
) -> (r: Vec<TranscriptRow>)
    ensures
        row_views(r@) =~= rows_of(filter_skip(seg_views(segments@)), note_id@, speaker@),
{
    let valid = filter_valid_segments(segments);
    let mut rows: Vec<TranscriptRow> = Vec::new();
    push_rows(&mut rows, &valid, note_id, speaker);
    rows
}

} // verus!
