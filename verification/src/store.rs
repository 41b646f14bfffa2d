//! In-memory model of the per-note audio-segment table.
//!
//! Each row records one recorded interval of a note: its dense index, the
//! two WAV paths, the offset of its start on the note timeline and, once the
//! interval is closed, its duration.  The store offers exactly the queries
//! the recording controller needs: insert, update-duration-by-id, list by
//! note, next index for a note, total duration for a note, delete by note.
//! The durable mirror of these rows lives outside the library; every
//! computation on them happens here.

use vstd::prelude::*;

verus! {

/// One recorded interval of a note, one WAV file per source.
#[derive(Debug)]
pub struct AudioSegment {
    /// Row id, unique within the store.
    pub id: i64,
    /// The note this interval belongs to.
    pub note_id: String,
    /// Dense index of the interval within its note, starting at 0.
    pub segment_index: u32,
    /// Path of the microphone WAV of this interval.
    pub mic_path: String,
    /// Path of the system-audio WAV, where the platform records one.
    pub system_path: Option<String>,
    /// Offset of this interval's start on the note timeline, in
    /// milliseconds: the sum of the durations of all prior intervals.
    pub start_offset_ms: i64,
    /// Duration in milliseconds; `None` only while the interval is still
    /// being recorded.
    pub duration_ms: Option<i64>,
}

/// The mathematical image of one segment row.
pub ghost struct SegSnap {
    pub id: int,
    pub note_id: Seq<char>,
    pub segment_index: int,
    pub mic_path: Seq<char>,
    pub system_path: Option<Seq<char>>,
    pub start_offset_ms: int,
    pub duration_ms: Option<int>,
}

impl View for AudioSegment {
    type V = SegSnap;

    open spec fn view(&self) -> SegSnap {
        SegSnap {
            id: self.id as int,
            note_id: self.note_id@,
            segment_index: self.segment_index as int,
            mic_path: self.mic_path@,
            system_path: match self.system_path {
                Some(p) => Some(p@),
                None => None,
            },
            start_offset_ms: self.start_offset_ms as int,
            duration_ms: match self.duration_ms {
                Some(d) => Some(d as int),
                None => None,
            },
        }
    }
}

/// Whether a row belongs to the given note.
pub open spec fn is_for(r: SegSnap, note: Seq<char>) -> bool {
    r.note_id == note
}

/// The duration a row contributes to a sum: its own where set, else 0.
/// An interval still being recorded counts as 0 until it is closed.
pub open spec fn dur_or_zero(r: SegSnap) -> int {
    match r.duration_ms {
        Some(d) => d,
        None => 0,
    }
}

/// How many rows of the sequence belong to the note.
pub open spec fn count_for(rows: Seq<SegSnap>, note: Seq<char>) -> int
    decreases rows.len(),
{
    if rows.len() == 0 {
        0
    } else {
        count_for(rows.drop_last(), note) + if is_for(rows.last(), note) {
            1int
        } else {
            0int
        }
    }
}

/// Total duration of the note's rows, counting open intervals as 0.
pub open spec fn sum_for(rows: Seq<SegSnap>, note: Seq<char>) -> int
    decreases rows.len(),
{
    if rows.len() == 0 {
        0
    } else {
        sum_for(rows.drop_last(), note) + if is_for(rows.last(), note) {
            dur_or_zero(rows.last())
        } else {
            0int
        }
    }
}

/// The note's rows, in store order.
pub open spec fn rows_for(rows: Seq<SegSnap>, note: Seq<char>) -> Seq<SegSnap>
    decreases rows.len(),
{
    if rows.len() == 0 {
        Seq::empty()
    } else if is_for(rows.last(), note) {
        rows_for(rows.drop_last(), note).push(rows.last())
    } else {
        rows_for(rows.drop_last(), note)
    }
}

/// The largest segment index among the note's rows, if it has any.
pub open spec fn max_index_for(rows: Seq<SegSnap>, note: Seq<char>) -> Option<int>
    decreases rows.len(),
{
    if rows.len() == 0 {
        None
    } else {
        let rest = max_index_for(rows.drop_last(), note);
        if is_for(rows.last(), note) {
            match rest {
                None => Some(rows.last().segment_index),
                Some(m) => if rows.last().segment_index > m {
                    Some(rows.last().segment_index)
                } else {
                    Some(m)
                },
            }
        } else {
            rest
        }
    }
}

/// The index the note's next interval receives: one past the largest
/// existing index, or 0 for a note without rows.
pub open spec fn next_index_spec(rows: Seq<SegSnap>, note: Seq<char>) -> int {
    match max_index_for(rows, note) {
        None => 0,
        Some(m) => m + 1,
    }
}

/// The views of a row vector.
pub open spec fn views_of(rows: Seq<AudioSegment>) -> Seq<SegSnap> {
    rows.map_values(|r: AudioSegment| r@)
}

/// Well-formedness of a note's rows: in store order its rows carry the
/// dense indices `0, 1, 2, ...`, each starts where the durations of the
/// prior rows end, and only its last row may still be open.
pub open spec fn note_wf(rows: Seq<SegSnap>, note: Seq<char>) -> bool {
    forall|i: int|
        0 <= i < rows.len() && #[trigger] is_for(rows[i], note) ==> {
            &&& rows[i].segment_index == count_for(rows.take(i), note)
            &&& rows[i].start_offset_ms == sum_for(rows.take(i), note)
            &&& (rows[i].duration_ms is None ==> count_for(rows, note) == count_for(
                rows.take(i),
                note,
            ) + 1)
        }
}

/// The in-memory segment table.
pub struct SegmentStore {
    rows: Vec<AudioSegment>,
    next_id: i64,
}

impl SegmentStore {
    /// The rows currently in the store, as mathematical values.
    pub closed spec fn rows_view(self) -> Seq<SegSnap> {
        views_of(self.rows@)
    }

    /// The id the next inserted row will receive.
    pub closed spec fn spec_next_id(self) -> int {
        self.next_id as int
    }

    /// Internal invariant: ids are positive, unique and below `next_id`;
    /// closed durations and offsets are never negative.
    pub open spec fn wf(self) -> bool {
        &&& self.spec_next_id() >= 1
        &&& forall|i: int|
            0 <= i < self.rows_view().len() ==> 0 < #[trigger] self.rows_view()[i].id
                < self.spec_next_id()
        &&& forall|i: int, j: int|
            0 <= i < self.rows_view().len() && 0 <= j < self.rows_view().len() && i != j
                ==> #[trigger] self.rows_view()[i].id != #[trigger] self.rows_view()[j].id
        &&& forall|i: int|
            0 <= i < self.rows_view().len() ==> match #[trigger] self.rows_view()[i].duration_ms {
                Some(d) => d >= 0,
                None => true,
            }
        &&& forall|i: int|
            0 <= i < self.rows_view().len() ==> #[trigger] self.rows_view()[i].start_offset_ms >= 0
    }

    /// An empty store.
    pub fn new() -> (r: Self)
        ensures
            r.wf(),
            r.rows_view() =~= Seq::<SegSnap>::empty(),
            r.spec_next_id() == 1,
    {
        SegmentStore { rows: Vec::new(), next_id: 1 }
    }

    /// Insert a new, still-open interval for a note and return its id.
    pub fn add_audio_segment(
        &mut self,
        note_id: &String,
        segment_index: u32,
        mic_path: String,
        system_path: Option<String>,
        start_offset_ms: i64,
    ) -> (id: i64)
        requires
            old(self).wf(),
            start_offset_ms >= 0,
            old(self).spec_next_id() < i64::MAX,
        ensures
            final(self).wf(),
            id == old(self).spec_next_id(),
            final(self).spec_next_id() == old(self).spec_next_id() + 1,
            final(self).rows_view() =~= old(self).rows_view().push(
                SegSnap {
                    id: id as int,
                    note_id: note_id@,
                    segment_index: segment_index as int,
                    mic_path: mic_path@,
                    system_path: match system_path {
                        Some(p) => Some(p@),
                        None => None,
                    },
                    start_offset_ms: start_offset_ms as int,
                    duration_ms: None,
                },
            ),
    {
        let id = self.next_id;
        let row = AudioSegment {
            id,
            note_id: note_id.clone(),
            segment_index,
            mic_path,
            system_path,
            start_offset_ms,
            duration_ms: None,
        };
        self.rows.push(row);
        self.next_id = self.next_id + 1;
        assert(self.rows_view() =~= old(self).rows_view().push(self.rows@.last()@));
        id
    }

    /// Close the interval with the given id by writing its duration.
    /// Rows with another id are untouched; an id without a row is a no-op.
    pub fn update_segment_duration(&mut self, segment_id: i64, duration_ms: i64) -> (found: bool)
        requires
            old(self).wf(),
            duration_ms >= 0,
        ensures
            final(self).wf(),
            final(self).spec_next_id() == old(self).spec_next_id(),
            final(self).rows_view() =~= rows_with_duration(
                old(self).rows_view(),
                segment_id as int,
                duration_ms as int,
            ),
            found == exists|i: int|
                0 <= i < old(self).rows_view().len() && #[trigger] old(self).rows_view()[i].id
                    == segment_id,
    {
        let mut i: usize = 0;
        let mut found = false;
        let n = self.rows.len();
        while i < n
            invariant
                n == self.rows.len(),
                i <= n,
                self.wf(),
                self.spec_next_id() == old(self).spec_next_id(),
                self.rows_view().len() == old(self).rows_view().len(),
                duration_ms >= 0,
                forall|k: int|
                    0 <= k < n ==> #[trigger] self.rows_view()[k] == (if k < i && old(
                        self,
                    ).rows_view()[k].id == segment_id {
                        SegSnap {
                            duration_ms: Some(duration_ms as int),
                            ..old(self).rows_view()[k]
                        }
                    } else {
                        old(self).rows_view()[k]
                    }),
                found == exists|k: int|
                    0 <= k < i && #[trigger] old(self).rows_view()[k].id == segment_id,
            decreases n - i,
        {
            if self.rows[i].id == segment_id {
                let ghost prev = self.rows_view();
                let updated = AudioSegment {
                    id: self.rows[i].id,
                    note_id: self.rows[i].note_id.clone(),
                    segment_index: self.rows[i].segment_index,
                    mic_path: self.rows[i].mic_path.clone(),
                    system_path: match &self.rows[i].system_path {
                        Some(p) => Some(p.clone()),
                        None => None,
                    },
                    start_offset_ms: self.rows[i].start_offset_ms,
                    duration_ms: Some(duration_ms),
                };
                proof {
                    assert(updated@ == SegSnap {
                        duration_ms: Some(duration_ms as int),
                        ..prev[i as int]
                    });
                }
                self.rows.set(i, updated);
                proof {
                    assert(self.rows_view() =~= prev.update(
                        i as int,
                        SegSnap { duration_ms: Some(duration_ms as int), ..prev[i as int] },
                    ));
                }
                found = true;
            }
            i = i + 1;
        }
        found
    }

    /// All rows of the note, in store order.
    pub fn get_audio_segments(&self, note_id: &String) -> (r: Vec<AudioSegment>)
        ensures
            views_of(r@) =~= rows_for(self.rows_view(), note_id@),
    {
        let mut out: Vec<AudioSegment> = Vec::new();
        let mut i: usize = 0;
        let n = self.rows.len();
        while i < n
            invariant
                n == self.rows.len(),
                i <= n,
                views_of(out@) =~= rows_for(self.rows_view().take(i as int), note_id@),
            decreases n - i,
        {
            proof {
                assert(self.rows_view().take(i + 1).drop_last() =~= self.rows_view().take(
                    i as int,
                ));
            }
            if str_eq(&self.rows[i].note_id, note_id) {
                let row = &self.rows[i];
                let copy = AudioSegment {
                    id: row.id,
                    note_id: row.note_id.clone(),
                    segment_index: row.segment_index,
                    mic_path: row.mic_path.clone(),
                    system_path: match &row.system_path {
                        Some(p) => Some(p.clone()),
                        None => None,
                    },
                    start_offset_ms: row.start_offset_ms,
                    duration_ms: row.duration_ms,
                };
                assert(copy@ == self.rows_view()[i as int]);
                out.push(copy);
            }
            i = i + 1;
        }
        proof {
            assert(self.rows_view().take(n as int) =~= self.rows_view());
        }
        out
    }

    /// The index the note's next interval receives: the largest existing
    /// index plus one, or 0 where the note has no rows yet.
    pub fn get_next_segment_index(&self, note_id: &String) -> (r: u32)
        requires
            match max_index_for(self.rows_view(), note_id@) {
                Some(m) => m < u32::MAX,
                None => true,
            },
        ensures
            r == next_index_spec(self.rows_view(), note_id@),
    {
        let mut best: Option<u32> = None;
        let mut i: usize = 0;
        let n = self.rows.len();
        while i < n
            invariant
                n == self.rows.len(),
                i <= n,
                match (best, max_index_for(self.rows_view().take(i as int), note_id@)) {
                    (Some(b), Some(m)) => b == m,
                    (None, None) => true,
                    _ => false,
                },
                match max_index_for(self.rows_view(), note_id@) {
                    Some(m) => m < u32::MAX,
                    None => true,
                },
            decreases n - i,
        {
            proof {
                assert(self.rows_view().take(i + 1).drop_last() =~= self.rows_view().take(
                    i as int,
                ));
                lemma_max_index_take_le(self.rows_view(), note_id@, i + 1);
            }
            if str_eq(&self.rows[i].note_id, note_id) {
                let idx = self.rows[i].segment_index;
                best = match best {
                    None => Some(idx),
                    Some(b) => if idx > b {
                        Some(idx)
                    } else {
                        Some(b)
                    },
                };
            }
            i = i + 1;
        }
        proof {
            assert(self.rows_view().take(n as int) =~= self.rows_view());
        }
        match best {
            None => 0,
            Some(b) => b + 1,
        }
    }

    /// Total duration of the note's closed intervals, in milliseconds.
    /// An interval still being recorded contributes 0.
    pub fn get_total_segment_duration(&self, note_id: &String) -> (r: i64)
        requires
            self.wf(),
            sum_for(self.rows_view(), note_id@) <= i64::MAX,
        ensures
            r == sum_for(self.rows_view(), note_id@),
            r >= 0,
    {
        proof {
            lemma_sum_for_nonneg(self.rows_view(), note_id@);
        }
        let mut total: i64 = 0;
        let mut i: usize = 0;
        let n = self.rows.len();
        while i < n
            invariant
                n == self.rows.len(),
                i <= n,
                self.wf(),
                sum_for(self.rows_view(), note_id@) <= i64::MAX,
                total == sum_for(self.rows_view().take(i as int), note_id@),
                total >= 0,
            decreases n - i,
        {
            proof {
                assert(self.rows_view().take(i + 1).drop_last() =~= self.rows_view().take(
                    i as int,
                ));
                lemma_sum_take_le(self.rows_view(), note_id@, i + 1);
                lemma_sum_for_nonneg(self.rows_view().take(i + 1), note_id@);
            }
            if str_eq(&self.rows[i].note_id, note_id) {
                match self.rows[i].duration_ms {
                    Some(d) => {
                        total = total + d;
                    },
                    None => (),
                }
            }
            i = i + 1;
        }
        proof {
            assert(self.rows_view().take(n as int) =~= self.rows_view());
        }
        total
    }

    /// The most recent interval of the note: a row of the note carrying
    /// its largest segment index, or nothing where the note has no rows.
    pub fn get_latest_segment(&self, note_id: &String) -> (r: Option<AudioSegment>)
        ensures
            (r is Some <==> max_index_for(self.rows_view(), note_id@) is Some),
            (r matches Some(seg) ==> exists|i: int|
                0 <= i < self.rows_view().len() && #[trigger] self.rows_view()[i] == seg@
                    && is_for(self.rows_view()[i], note_id@) && Some(
                    self.rows_view()[i].segment_index,
                ) == max_index_for(self.rows_view(), note_id@)),
    {
        let mut best: Option<usize> = None;
        let mut i: usize = 0;
        let n = self.rows.len();
        while i < n
            invariant
                n == self.rows_view().len(),
                n == self.rows@.len(),
                i <= n,
                (match best {
                    Some(b) => b < i && is_for(self.rows_view()[b as int], note_id@) && Some(
                        self.rows_view()[b as int].segment_index,
                    ) == max_index_for(self.rows_view().take(i as int), note_id@),
                    None => max_index_for(self.rows_view().take(i as int), note_id@) is None,
                }),
            decreases n - i,
        {
            proof {
                assert(self.rows_view().take(i + 1).drop_last() =~= self.rows_view().take(
                    i as int,
                ));
                assert(self.rows_view().take(i + 1).last() == self.rows_view()[i as int]);
            }
            if str_eq(&self.rows[i].note_id, note_id) {
                let better = match best {
                    None => true,
                    Some(b) => self.rows[i].segment_index > self.rows[b].segment_index,
                };
                if better {
                    best = Some(i);
                }
            }
            i = i + 1;
        }
        proof {
            assert(self.rows_view().take(n as int) =~= self.rows_view());
        }
        match best {
            Some(b) => {
                let row = &self.rows[b];
                let copy = AudioSegment {
                    id: row.id,
                    note_id: row.note_id.clone(),
                    segment_index: row.segment_index,
                    mic_path: row.mic_path.clone(),
                    system_path: match &row.system_path {
                        Some(p) => Some(p.clone()),
                        None => None,
                    },
                    start_offset_ms: row.start_offset_ms,
                    duration_ms: row.duration_ms,
                };
                proof {
                    assert(copy@ == self.rows_view()[b as int]);
                }
                Some(copy)
            },
            None => None,
        }
    }

    /// Remove every row of the note.
    pub fn delete_audio_segments(&mut self, note_id: &String)
        requires
            old(self).wf(),
        ensures
            final(self).wf(),
            final(self).spec_next_id() == old(self).spec_next_id(),
            final(self).rows_view() =~= filter_out(old(self).rows_view(), note_id@),
    {
        let mut out: Vec<AudioSegment> = Vec::new();
        let n = self.rows.len();
        let mut i: usize = 0;
        while i < n
            invariant
                n == self.rows.len(),
                i <= n,
                old(self).wf(),
                self.rows_view() == old(self).rows_view(),
                self.spec_next_id() == old(self).spec_next_id(),
                views_of(out@) =~= filter_out(self.rows_view().take(i as int), note_id@),
            decreases n - i,
        {
            proof {
                assert(self.rows_view().take(i + 1).drop_last() =~= self.rows_view().take(
                    i as int,
                ));
            }
            if !str_eq(&self.rows[i].note_id, note_id) {
                let row = &self.rows[i];
                let copy = AudioSegment {
                    id: row.id,
                    note_id: row.note_id.clone(),
                    segment_index: row.segment_index,
                    mic_path: row.mic_path.clone(),
                    system_path: match &row.system_path {
                        Some(p) => Some(p.clone()),
                        None => None,
                    },
                    start_offset_ms: row.start_offset_ms,
                    duration_ms: row.duration_ms,
                };
                assert(copy@ == self.rows_view()[i as int]);
                out.push(copy);
            }
            i = i + 1;
        }
        proof {
            assert(self.rows_view().take(n as int) =~= self.rows_view());
        }
        self.rows = out;
        proof {
            lemma_filter_out_keeps(old(self).rows_view(), note_id@);
        }
    }
}

/// The rows after closing the row with the given id at the given
/// duration; rows with another id are untouched.
pub open spec fn rows_with_duration(rows: Seq<SegSnap>, id: int, d: int) -> Seq<SegSnap> {
    Seq::new(
        rows.len(),
        |i: int|
            if rows[i].id == id {
                SegSnap { duration_ms: Some(d), ..rows[i] }
            } else {
                rows[i]
            },
    )
}

/// The rows that do not belong to the note, in store order.
pub open spec fn filter_out(rows: Seq<SegSnap>, note: Seq<char>) -> Seq<SegSnap>
    decreases rows.len(),
{
    if rows.len() == 0 {
        Seq::empty()
    } else if is_for(rows.last(), note) {
        filter_out(rows.drop_last(), note)
    } else {
        filter_out(rows.drop_last(), note).push(rows.last())
    }
}

/// Every row kept by `filter_out` is one of the original rows, and
/// distinct ids stay distinct.
proof fn lemma_filter_out_keeps(rows: Seq<SegSnap>, note: Seq<char>)
    requires
        forall|i: int, j: int|
            0 <= i < rows.len() && 0 <= j < rows.len() && i != j ==> #[trigger] rows[i].id
                != #[trigger] rows[j].id,
    ensures
        forall|k: int|
            0 <= k < filter_out(rows, note).len() ==> exists|j: int|
                0 <= j < rows.len() && #[trigger] filter_out(rows, note)[k] == rows[j],
        forall|k: int, l: int|
            0 <= k < filter_out(rows, note).len() && 0 <= l < filter_out(rows, note).len() && k
                != l ==> #[trigger] filter_out(rows, note)[k].id != #[trigger] filter_out(
                rows,
                note,
            )[l].id,
    decreases rows.len(),
{
    if rows.len() > 0 {
        let head = rows.drop_last();
        assert(forall|i: int| 0 <= i < head.len() ==> head[i] == #[trigger] rows[i]);
        lemma_filter_out_keeps(head, note);
        let out = filter_out(rows, note);
        let prev = filter_out(head, note);
        assert forall|k: int| 0 <= k < out.len() implies exists|j: int|
            0 <= j < rows.len() && #[trigger] out[k] == rows[j] by {
            if k < prev.len() {
                let j = choose|j: int| 0 <= j < head.len() && #[trigger] prev[k] == head[j];
                assert(out[k] == rows[j]);
            } else {
                assert(out[k] == rows[rows.len() - 1]);
            }
        }
        assert forall|k: int, l: int|
            0 <= k < out.len() && 0 <= l < out.len() && k != l implies #[trigger] out[k].id
            != #[trigger] out[l].id by {
            if k < prev.len() && l < prev.len() {
                assert(out[k] == prev[k] && out[l] == prev[l]);
            } else if k < prev.len() {
                let j = choose|j: int| 0 <= j < head.len() && #[trigger] prev[k] == head[j];
                assert(out[l] == rows[rows.len() - 1]);
                assert(out[k] == rows[j]);
            } else {
                let j = choose|j: int| 0 <= j < head.len() && #[trigger] prev[l] == head[j];
                assert(out[k] == rows[rows.len() - 1]);
                assert(out[l] == rows[j]);
            }
        }
    }
}

/// A note's total over a prefix never exceeds its total over the whole,
/// as long as closed durations are not negative.
proof fn lemma_sum_take_le(rows: Seq<SegSnap>, note: Seq<char>, i: int)
    requires
        0 <= i <= rows.len(),
        forall|k: int|
            0 <= k < rows.len() ==> match #[trigger] rows[k].duration_ms {
                Some(d) => d >= 0,
                None => true,
            },
    ensures
        sum_for(rows.take(i), note) <= sum_for(rows, note),
    decreases rows.len() - i,
{
    if i < rows.len() {
        assert(rows.take(i + 1).drop_last() =~= rows.take(i));
        lemma_sum_take_le(rows, note, i + 1);
    } else {
        assert(rows.take(i) =~= rows);
    }
}

/// A note's total duration is never negative while closed durations are
/// not negative.
proof fn lemma_sum_for_nonneg(rows: Seq<SegSnap>, note: Seq<char>)
    requires
        forall|k: int|
            0 <= k < rows.len() ==> match #[trigger] rows[k].duration_ms {
                Some(d) => d >= 0,
                None => true,
            },
    ensures
        sum_for(rows, note) >= 0,
    decreases rows.len(),
{
    if rows.len() > 0 {
        assert(forall|k: int|
            0 <= k < rows.drop_last().len() ==> rows.drop_last()[k] == #[trigger] rows[k]);
        lemma_sum_for_nonneg(rows.drop_last(), note);
    }
}

/// The largest index over a prefix never exceeds the largest over the whole.
proof fn lemma_max_index_take_le(rows: Seq<SegSnap>, note: Seq<char>, i: int)
    requires
        0 <= i <= rows.len(),
    ensures
        match (max_index_for(rows.take(i), note), max_index_for(rows, note)) {
            (Some(a), Some(b)) => a <= b,
            (Some(_), None) => false,
            _ => true,
        },
    decreases rows.len() - i,
{
    if i < rows.len() {
        assert(rows.take(i + 1).drop_last() =~= rows.take(i));
        lemma_max_index_take_le(rows, note, i + 1);
    } else {
        assert(rows.take(i) =~= rows);
    }
}

/// String equality by characters.
pub fn str_eq(a: &String, b: &String) -> (r: bool)
    ensures
        r == (a@ == b@),
{
    a.eq(b)
}

} // verus!
