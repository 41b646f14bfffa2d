//! Transcript data and the assembly of engine output into results.
//!
//! The speech engine reports segments as `(t0, t1, text)` with times in
//! centiseconds from the start of the chunk it was given.  The library
//! stores times in centiseconds throughout; readers that want seconds
//! divide by 100.  Assembly trims each text, drops the empty ones, shifts
//! times onto the note timeline by the chunk's offset, and joins the kept
//! texts with single spaces.

use vstd::prelude::*;
use vstd::string::StrSliceExecFns;
use vstd::string::StringExecFns;

use crate::text::is_ws;

verus! {

/// A slice of recognized speech with its time bounds, in centiseconds.
#[derive(Debug)]
pub struct TranscriptionSegment {
    /// Start of the slice, centiseconds on its timeline.
    pub start_cs: i64,
    /// End of the slice, centiseconds on its timeline.
    pub end_cs: i64,
    /// The recognized text.
    pub text: String,
}

/// The mathematical image of a transcript segment.
pub ghost struct TransSnap {
    pub start_cs: int,
    pub end_cs: int,
    pub text: Seq<char>,
}

impl View for TranscriptionSegment {
    type V = TransSnap;

    open spec fn view(&self) -> TransSnap {
        TransSnap { start_cs: self.start_cs as int, end_cs: self.end_cs as int, text: self.text@ }
    }
}

impl TranscriptionSegment {
    /// A copy with the same times and text.
    pub fn dup(&self) -> (r: TranscriptionSegment)
        ensures
            r@ == self@,
    {
        TranscriptionSegment {
            start_cs: self.start_cs,
            end_cs: self.end_cs,
            text: self.text.clone(),
        }
    }
}

/// The views of a segment vector.
pub open spec fn seg_views(segs: Seq<TranscriptionSegment>) -> Seq<TransSnap> {
    segs.map_values(|s: TranscriptionSegment| s@)
}

/// A whole transcription: its segments in order and their joined text.
#[derive(Debug)]
pub struct TranscriptionResult {
    pub segments: Vec<TranscriptionSegment>,
    pub full_text: String,
    pub language: Option<String>,
}

/// The first position at or after `i` holding a visible character.
pub open spec fn skip_ws_idx(s: Seq<char>, i: int) -> int
    decreases s.len() - i,
{
    if i < 0 {
        i
    } else if i >= s.len() || !is_ws(s[i]) {
        i
    } else {
        skip_ws_idx(s, i + 1)
    }
}

/// One past the last visible character before `i`.
pub open spec fn rskip_ws_idx(s: Seq<char>, i: int) -> int
    decreases i,
{
    if i <= 0 {
        0
    } else if !is_ws(s[i - 1]) {
        i
    } else {
        rskip_ws_idx(s, i - 1)
    }
}

/// The text without its leading and trailing whitespace.
pub open spec fn trim_spec(s: Seq<char>) -> Seq<char> {
    let a = skip_ws_idx(s, 0);
    let b = rskip_ws_idx(s, s.len() as int);
    if a <= b {
        s.subrange(a, b)
    } else {
        Seq::empty()
    }
}

/// `skip_ws_idx` stays within bounds and skips exactly the whitespace.
proof fn lemma_skip_ws(s: Seq<char>, i: int)
    requires
        0 <= i <= s.len(),
    ensures
        i <= skip_ws_idx(s, i) <= s.len(),
        skip_ws_idx(s, i) == s.len() || !is_ws(s[skip_ws_idx(s, i)]),
        forall|j: int| i <= j < skip_ws_idx(s, i) ==> is_ws(#[trigger] s[j]),
    decreases s.len() - i,
{
    if i < s.len() && is_ws(s[i]) {
        lemma_skip_ws(s, i + 1);
    }
}

/// `rskip_ws_idx` stays within bounds and skips exactly the whitespace.
pub proof fn lemma_rskip_ws_pub(s: Seq<char>, i: int)
    requires
        0 <= i <= s.len(),
    ensures
        0 <= rskip_ws_idx(s, i) <= i,
        rskip_ws_idx(s, i) == 0 || !is_ws(s[rskip_ws_idx(s, i) - 1]),
        forall|j: int| rskip_ws_idx(s, i) <= j < i ==> is_ws(#[trigger] s[j]),
{
    lemma_rskip_ws(s, i);
}

/// `rskip_ws_idx` stays within bounds and skips exactly the whitespace.
proof fn lemma_rskip_ws(s: Seq<char>, i: int)
    requires
        0 <= i <= s.len(),
    ensures
        0 <= rskip_ws_idx(s, i) <= i,
        rskip_ws_idx(s, i) == 0 || !is_ws(s[rskip_ws_idx(s, i) - 1]),
        forall|j: int| rskip_ws_idx(s, i) <= j < i ==> is_ws(#[trigger] s[j]),
    decreases i,
{
    if i > 0 && is_ws(s[i - 1]) {
        lemma_rskip_ws(s, i - 1);
    }
}

/// The text without its leading and trailing whitespace.
pub fn trim_str(s: &str) -> (r: String)
    ensures
        r@ =~= trim_spec(s@),
{
    let n = s.unicode_len();
    proof {
        lemma_skip_ws(s@, 0);
        lemma_rskip_ws(s@, n as int);
    }
    let mut a: usize = 0;
    while a < n
        invariant
            n == s@.len(),
            a <= n,
            forall|j: int| 0 <= j < a ==> is_ws(#[trigger] s@[j]),
        ensures
            a <= n,
            forall|j: int| 0 <= j < a ==> is_ws(#[trigger] s@[j]),
            a == n || !is_ws(s@[a as int]),
        decreases n - a,
    {
        if !is_ws_exec(s.get_char(a)) {
            break ;
        }
        a = a + 1;
    }
    let mut b: usize = n;
    while b > a
        invariant
            n == s@.len(),
            a <= b <= n,
            forall|j: int| b <= j < n ==> is_ws(#[trigger] s@[j]),
        ensures
            a <= b <= n,
            forall|j: int| b <= j < n ==> is_ws(#[trigger] s@[j]),
            b == a || !is_ws(s@[b - 1]),
        decreases b,
    {
        if !is_ws_exec(s.get_char(b - 1)) {
            break ;
        }
        b = b - 1;
    }
    proof {
        lemma_skip_idx_agree(s@, a as int, b as int, n as int);
    }
    s.substring_char(a, b).to_owned()
}

/// Whether the character is whitespace.
fn is_ws_exec(c: char) -> (r: bool)
    ensures
        r == is_ws(c),
{
    crate::text::is_ws_char(c)
}

/// The indices found by the trim scans are the spec's indices, or the
/// text is all whitespace and both scans meet.
proof fn lemma_skip_idx_agree(s: Seq<char>, a: int, b: int, n: int)
    requires
        n == s.len(),
        0 <= a <= b <= n,
        forall|j: int| 0 <= j < a ==> is_ws(#[trigger] s[j]),
        a == n || !is_ws(s[a]),
        forall|j: int| b <= j < n ==> is_ws(#[trigger] s[j]),
        b == a || !is_ws(s[b - 1]),
    ensures
        s.subrange(a, b) =~= trim_spec(s),
{
    lemma_skip_ws(s, 0);
    lemma_rskip_ws(s, n);
    let sa = skip_ws_idx(s, 0);
    let sb = rskip_ws_idx(s, n);
    if a == b {
        // all whitespace up to `a` and from `b` on: nothing visible
        assert(forall|j: int| 0 <= j < n ==> is_ws(#[trigger] s[j]));
        assert(sa == n) by {
            if sa < n {
                assert(!is_ws(s[sa]));
            }
        }
        assert(sb == 0) by {
            if sb > 0 {
                assert(!is_ws(s[sb - 1]));
            }
        }
    } else {
        assert(!is_ws(s[a]) && !is_ws(s[b - 1]));
        assert(sa == a) by {
            if sa < a {
                assert(is_ws(s[sa]));
            }
            if sa > a {
                assert(is_ws(s[a]));
            }
        }
        assert(sb == b) by {
            if sb > b {
                assert(is_ws(s[sb - 1]));
            }
            if sb < b {
                assert(is_ws(s[b - 1]));
            }
        }
    }
}

/// The assembled segments: each raw segment trimmed, the empty ones
/// dropped, and the times shifted by the chunk's offset.
pub open spec fn assembled(raw: Seq<TransSnap>, off: int) -> Seq<TransSnap>
    decreases raw.len(),
{
    if raw.len() == 0 {
        Seq::empty()
    } else {
        let rest = assembled(raw.drop_last(), off);
        let t = trim_spec(raw.last().text);
        if t.len() == 0 {
            rest
        } else {
            rest.push(
                TransSnap {
                    start_cs: raw.last().start_cs + off,
                    end_cs: raw.last().end_cs + off,
                    text: t,
                },
            )
        }
    }
}

/// The texts of the segments, joined with single spaces.
pub open spec fn joined(texts: Seq<Seq<char>>) -> Seq<char>
    decreases texts.len(),
{
    if texts.len() == 0 {
        Seq::empty()
    } else if texts.len() == 1 {
        texts[0]
    } else {
        joined(texts.drop_last()) + " "@ + texts.last()
    }
}

/// The texts of a snapshot sequence.
pub open spec fn texts_of(segs: Seq<TransSnap>) -> Seq<Seq<char>> {
    segs.map_values(|s: TransSnap| s.text)
}

/// Assemble the speech engine's raw segments into a result on the note
/// timeline: trim each text, drop the empty ones, add `offset_cs` to both
/// times, and join the kept texts with single spaces.
pub fn assemble_result(
    raw: &Vec<TranscriptionSegment>,
    offset_cs: i64,
    language: Option<String>,
) -> (r: TranscriptionResult)
    requires
        offset_cs >= 0,
        forall|i: int|
            0 <= i < raw@.len() ==> 0 <= #[trigger] raw@[i]@.start_cs && raw@[i]@.start_cs
                <= raw@[i]@.end_cs && raw@[i]@.end_cs <= i64::MAX - offset_cs,
    ensures
        seg_views(r.segments@) =~= assembled(seg_views(raw@), offset_cs as int),
        r.full_text@ =~= joined(texts_of(assembled(seg_views(raw@), offset_cs as int))),
        r.language == language,
{
    let mut segments: Vec<TranscriptionSegment> = Vec::new();
    let mut full_text = String::new();
    let mut i: usize = 0;
    let n = raw.len();
    while i < n
        invariant
            n == raw@.len(),
            i <= n,
            offset_cs >= 0,
            forall|k: int|
                0 <= k < raw@.len() ==> 0 <= #[trigger] raw@[k]@.start_cs && raw@[k]@.start_cs
                    <= raw@[k]@.end_cs && raw@[k]@.end_cs <= i64::MAX - offset_cs,
            seg_views(segments@) =~= assembled(seg_views(raw@).take(i as int), offset_cs as int),
            full_text@ =~= joined(
                texts_of(assembled(seg_views(raw@).take(i as int), offset_cs as int)),
            ),
        decreases n - i,
    {
        proof {
            assert(seg_views(raw@).take(i + 1).drop_last() =~= seg_views(raw@).take(i as int));
            assert(seg_views(raw@).take(i + 1).last() == raw@[i as int]@);
        }
        proof {
            assert(0 <= raw@[i as int]@.start_cs && raw@[i as int]@.start_cs <= raw@[
                i as int
            ]@.end_cs && raw@[i as int]@.end_cs <= i64::MAX - offset_cs);
        }
        let text = trim_str(raw[i].text.as_str());
        if !text.as_str().is_empty() {
            proof {
                assert(text@.len() > 0);
            }
            let ghost old_full = full_text@;
            let ghost prev = assembled(seg_views(raw@).take(i as int), offset_cs as int);
            proof {
                assert(forall|k: int|
                    0 <= k < i ==> #[trigger] seg_views(raw@).take(i as int)[k] == raw@[k]@);
                lemma_assembled_wf(seg_views(raw@).take(i as int), offset_cs as int);
                if texts_of(prev).len() > 0 {
                    assert forall|k: int| 0 <= k < texts_of(prev).len() implies #[trigger] texts_of(
                        prev,
                    )[k].len() > 0 by {
                        assert(texts_of(prev)[k] == prev[k].text);
                        assert(0 <= prev[k].start_cs && prev[k].text.len() > 0);
                    }
                    lemma_joined_nonempty(texts_of(prev));
                }
            }
            if !full_text.as_str().is_empty() {
                full_text.append(" ");
            }
            full_text.append(text.as_str());
            let seg = TranscriptionSegment {
                start_cs: raw[i].start_cs + offset_cs,
                end_cs: raw[i].end_cs + offset_cs,
                text,
            };
            segments.push(seg);
            proof {
                let now = assembled(seg_views(raw@).take(i + 1), offset_cs as int);
                assert(seg_views(segments@) =~= now);
                assert(texts_of(now) =~= texts_of(prev).push(now.last().text));
                lemma_joined_push(texts_of(prev), now.last().text);
                if texts_of(prev).len() == 0 {
                    assert(old_full =~= joined(texts_of(prev)));
                    assert(joined(texts_of(prev)).len() == 0);
                    assert(full_text@ =~= now.last().text);
                } else {
                    assert(old_full.len() > 0);
                    assert(full_text@ =~= old_full + " "@ + now.last().text);
                }
            }
        } else {
            proof {
                assert(text@.len() == 0);
                assert(assembled(seg_views(raw@).take(i + 1), offset_cs as int) =~= assembled(
                    seg_views(raw@).take(i as int),
                    offset_cs as int,
                ));
            }
        }
        i = i + 1;
    }
    proof {
        assert(seg_views(raw@).take(n as int) =~= seg_views(raw@));
    }
    TranscriptionResult { segments, full_text, language }
}

/// A join of one or more visible texts is itself visible.
proof fn lemma_joined_nonempty(texts: Seq<Seq<char>>)
    requires
        texts.len() > 0,
        forall|i: int| 0 <= i < texts.len() ==> #[trigger] texts[i].len() > 0,
    ensures
        joined(texts).len() > 0,
    decreases texts.len(),
{
    if texts.len() > 1 {
        assert(forall|i: int|
            0 <= i < texts.drop_last().len() ==> #[trigger] texts.drop_last()[i] == texts[i]);
        lemma_joined_nonempty(texts.drop_last());
    }
}

/// Joining after one more text appends a space and that text, except on
/// the first.
proof fn lemma_joined_push(texts: Seq<Seq<char>>, t: Seq<char>)
    ensures
        texts.len() == 0 ==> joined(texts.push(t)) =~= t,
        texts.len() > 0 ==> joined(texts.push(t)) =~= joined(texts) + " "@ + t,
{
    assert(texts.push(t).drop_last() =~= texts);
    if texts.len() == 0 {
        assert(joined(texts.push(t)) == texts.push(t)[0]);
    }
}

/// Every assembled segment keeps its order bounds: its times lie on the
/// note timeline in order, and its text is the trimmed raw text, not
/// empty.
pub proof fn lemma_assembled_wf(raw: Seq<TransSnap>, off: int)
    requires
        off >= 0,
        forall|i: int|
            0 <= i < raw.len() ==> 0 <= #[trigger] raw[i].start_cs && raw[i].start_cs
                <= raw[i].end_cs,
    ensures
        forall|i: int|
            0 <= i < assembled(raw, off).len() ==> {
                &&& 0 <= #[trigger] assembled(raw, off)[i].start_cs
                &&& assembled(raw, off)[i].start_cs <= assembled(raw, off)[i].end_cs
                &&& assembled(raw, off)[i].text.len() > 0
            },
    decreases raw.len(),
{
    if raw.len() > 0 {
        assert(forall|i: int|
            0 <= i < raw.drop_last().len() ==> #[trigger] raw.drop_last()[i] == raw[i]);
        lemma_assembled_wf(raw.drop_last(), off);
        let a = assembled(raw, off);
        let rest = assembled(raw.drop_last(), off);
        assert forall|i: int| 0 <= i < a.len() implies {
            &&& 0 <= #[trigger] a[i].start_cs
            &&& a[i].start_cs <= a[i].end_cs
            &&& a[i].text.len() > 0
        } by {
            if i < rest.len() {
                assert(a[i] == rest[i]);
                assert(0 <= rest[i].start_cs && rest[i].start_cs <= rest[i].end_cs && rest[
                i].text.len() > 0);
            } else {
                assert(a[i] == a.last());
            }
        }
    }
}

/// The transcriber's non-reentrancy guard: one transcription at a time.
pub struct TranscribeGate {
    is_transcribing: bool,
}

impl TranscribeGate {
    /// Nothing running.
    pub fn new() -> (r: Self)
        ensures
            !r.spec_transcribing(),
    {
        TranscribeGate { is_transcribing: false }
    }

    /// Whether a transcription is running.
    pub closed spec fn spec_transcribing(self) -> bool {
        self.is_transcribing
    }

    /// Whether a transcription is running.
    pub fn is_transcribing(&self) -> (r: bool)
        ensures
            r == self.spec_transcribing(),
    {
        self.is_transcribing
    }

    /// Enter the transcriber: rejected with `AlreadyTranscribing` while
    /// another transcription runs.
    pub fn begin(&mut self) -> (r: Result<(), crate::errors::TranscriptionError>)
        ensures
            (r is Ok <==> !old(self).spec_transcribing()),
            final(self).spec_transcribing(),
            r is Err ==> (r matches Err(crate::errors::TranscriptionError::AlreadyTranscribing)),
    {
        if self.is_transcribing {
            return Err(crate::errors::TranscriptionError::AlreadyTranscribing);
        }
        self.is_transcribing = true;
        Ok(())
    }

    /// Leave the transcriber, however the transcription went.
    pub fn finish(&mut self)
        ensures
            !final(self).spec_transcribing(),
    {
        self.is_transcribing = false;
    }
}

/// The number of threads an inference uses: every core the machine
/// offers, capped at eight.
pub fn inference_threads(available_parallelism: usize) -> (r: i32)
    ensures
        r == (if available_parallelism < 8 {
            available_parallelism as int
        } else {
            8int
        }),
{
    if available_parallelism < 8 {
        available_parallelism as i32
    } else {
        8
    }
}

} // verus!
