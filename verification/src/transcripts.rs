//! In-memory model of the transcript table.
//!
//! The live scheduler commits its rows in one batch — the transaction
//! boundary is one call, which appends every row or none — and readers
//! get a note's rows ordered by start time, the canonical transcript
//! view.  Rows of equal start time come in no particular order, as a
//! bare order-by leaves ties to the engine.  The durable mirror lives
//! outside the library.

use vstd::prelude::*;

use crate::live::TranscriptRow;

verus! {

broadcast use vstd::seq_lib::group_to_multiset_ensures;

/// One stored transcript row.
#[derive(Debug)]
pub struct TranscriptRecord {
    /// Row id, unique within the store.
    pub id: i64,
    /// The note this row belongs to.
    pub note_id: String,
    /// Start of the slice on the note timeline, centiseconds.
    pub start_cs: i64,
    /// End of the slice on the note timeline, centiseconds.
    pub end_cs: i64,
    /// The recognized text.
    pub text: String,
    /// The speaker label, where one was attributed.
    pub speaker: Option<String>,
}

/// The record a committed row becomes under a given id.
pub open spec fn record_of(row: TranscriptRow, id: int) -> TranscriptRecord {
    TranscriptRecord {
        id: id as i64,
        note_id: row.note_id,
        start_cs: row.start_cs,
        end_cs: row.end_cs,
        text: row.text,
        speaker: row.speaker,
    }
}

/// The note's records, in store order.
pub open spec fn tr_rows_for(rows: Seq<TranscriptRecord>, note: Seq<char>) -> Seq<
    TranscriptRecord,
>
    decreases rows.len(),
{
    if rows.len() == 0 {
        Seq::empty()
    } else if rows.last().note_id@ == note {
        tr_rows_for(rows.drop_last(), note).push(rows.last())
    } else {
        tr_rows_for(rows.drop_last(), note)
    }
}

/// The records that do not belong to the note, in store order.
pub open spec fn tr_rows_not_for(rows: Seq<TranscriptRecord>, note: Seq<char>) -> Seq<
    TranscriptRecord,
>
    decreases rows.len(),
{
    if rows.len() == 0 {
        Seq::empty()
    } else if rows.last().note_id@ == note {
        tr_rows_not_for(rows.drop_last(), note)
    } else {
        tr_rows_not_for(rows.drop_last(), note).push(rows.last())
    }
}

/// Whether a record sequence is ordered by start time, ascending.
pub open spec fn sorted_by_start(rows: Seq<TranscriptRecord>) -> bool {
    forall|i: int, j: int|
        0 <= i <= j < rows.len() ==> #[trigger] rows[i].start_cs <= #[trigger] rows[j].start_cs
}

/// The in-memory transcript table.
pub struct TranscriptStore {
    rows: Vec<TranscriptRecord>,
    next_id: i64,
}

impl TranscriptStore {
    /// An empty store.
    pub fn new() -> (r: Self)
        ensures
            r.rows_view() =~= Seq::<TranscriptRecord>::empty(),
            r.spec_next_id() == 1,
    {
        TranscriptStore { rows: Vec::new(), next_id: 1 }
    }

    /// The records currently in the store.
    pub closed spec fn rows_view(self) -> Seq<TranscriptRecord> {
        self.rows@
    }

    /// The id the next inserted record receives.
    pub closed spec fn spec_next_id(self) -> int {
        self.next_id as int
    }

    /// Commit a batch of rows in one step: all of them are appended in
    /// order with consecutive fresh ids — the transaction boundary of the
    /// live scheduler's per-tick commit.  Returns how many were inserted.
    pub fn add_transcript_segments_batch(&mut self, batch: &Vec<TranscriptRow>) -> (count: usize)
        requires
            old(self).spec_next_id() + batch@.len() <= i64::MAX,
        ensures
            count == batch@.len(),
            final(self).spec_next_id() == old(self).spec_next_id() + batch@.len(),
            final(self).rows_view() =~= old(self).rows_view() + Seq::new(
                batch@.len(),
                |i: int| record_of(batch@[i], old(self).spec_next_id() + i),
            ),
    {
        let mut i: usize = 0;
        let n = batch.len();
        while i < n
            invariant
                n == batch@.len(),
                i <= n,
                old(self).spec_next_id() + n <= i64::MAX,
                self.spec_next_id() == old(self).spec_next_id() + i,
                self.rows_view() =~= old(self).rows_view() + Seq::new(
                    i as nat,
                    |k: int| record_of(batch@[k], old(self).spec_next_id() + k),
                ),
            decreases n - i,
        {
            let row = &batch[i];
            let ghost prev = self.rows_view();
            let record = TranscriptRecord {
                id: self.next_id,
                note_id: row.note_id.clone(),
                start_cs: row.start_cs,
                end_cs: row.end_cs,
                text: row.text.clone(),
                speaker: clone_opt(&row.speaker),
            };
            proof {
                assert(record == record_of(batch@[i as int], self.spec_next_id()));
            }
            self.rows.push(record);
            self.next_id = self.next_id + 1;
            proof {
                assert(self.rows_view() =~= prev.push(
                    record_of(batch@[i as int], old(self).spec_next_id() + i),
                ));
                assert(self.rows_view() =~= old(self).rows_view() + Seq::new(
                    (i + 1) as nat,
                    |k: int| record_of(batch@[k], old(self).spec_next_id() + k),
                ));
            }
            i = i + 1;
        }
        n
    }

    /// Commit a single row.
    pub fn add_transcript_segment(&mut self, row: &TranscriptRow) -> (id: i64)
        requires
            old(self).spec_next_id() < i64::MAX,
        ensures
            id == old(self).spec_next_id(),
            final(self).spec_next_id() == old(self).spec_next_id() + 1,
            final(self).rows_view() =~= old(self).rows_view().push(
                record_of(*row, old(self).spec_next_id()),
            ),
    {
        let id = self.next_id;
        let record = TranscriptRecord {
            id,
            note_id: row.note_id.clone(),
            start_cs: row.start_cs,
            end_cs: row.end_cs,
            text: row.text.clone(),
            speaker: clone_opt(&row.speaker),
        };
        self.rows.push(record);
        self.next_id = self.next_id + 1;
        id
    }

    /// The note's rows ordered by start time, ascending — the canonical
    /// transcript view.  The result holds exactly the note's records.
    pub fn get_transcript_segments(&self, note_id: &String) -> (r: Vec<TranscriptRecord>)
        ensures
            sorted_by_start(r@),
            r@.to_multiset() == tr_rows_for(self.rows_view(), note_id@).to_multiset(),
    {
        // gather the note's rows in store order
        let mut work: Vec<TranscriptRecord> = Vec::new();
        let mut i: usize = 0;
        let n = self.rows.len();
        while i < n
            invariant
                n == self.rows_view().len(),
                i <= n,
                work@ =~= tr_rows_for(self.rows_view().take(i as int), note_id@),
            decreases n - i,
        {
            proof {
                assert(self.rows_view().take(i + 1).drop_last() =~= self.rows_view().take(
                    i as int,
                ));
                assert(self.rows_view().take(i + 1).last() == self.rows_view()[i as int]);
            }
            if crate::store::str_eq(&self.rows[i].note_id, note_id) {
                let row = &self.rows[i];
                let copy = TranscriptRecord {
                    id: row.id,
                    note_id: row.note_id.clone(),
                    start_cs: row.start_cs,
                    end_cs: row.end_cs,
                    text: row.text.clone(),
                    speaker: clone_opt(&row.speaker),
                };
                proof {
                    assert(copy == self.rows_view()[i as int]);
                }
                work.push(copy);
            }
            i = i + 1;
        }
        proof {
            assert(self.rows_view().take(n as int) =~= self.rows_view());
        }
        let ghost all = work@;
        // drain the smallest start time first
        let mut out: Vec<TranscriptRecord> = Vec::new();
        while work.len() > 0
            invariant
                sorted_by_start(out@),
                forall|a: int, b: int|
                    0 <= a < out@.len() && 0 <= b < work@.len() ==> #[trigger] out@[a].start_cs
                        <= #[trigger] work@[b].start_cs,
                out@.to_multiset().add(work@.to_multiset()) == all.to_multiset(),
            decreases work@.len(),
        {
            let mut m: usize = 0;
            let mut j: usize = 1;
            let wl = work.len();
            while j < wl
                invariant
                    wl == work@.len(),
                    m < j <= wl,
                    forall|k: int| 0 <= k < j ==> work@[m as int].start_cs <= #[trigger] work@[
                    k].start_cs,
                decreases wl - j,
            {
                if work[j].start_cs < work[m].start_cs {
                    m = j;
                }
                j = j + 1;
            }
            let ghost prev_work = work@;
            let ghost prev_out = out@;
            let ghost x = work@[m as int];
            let picked = work.remove(m);
            out.push(picked);
            proof {
                assert(work@.to_multiset() =~= prev_work.to_multiset().remove(x));
                assert(out@.to_multiset() =~= prev_out.to_multiset().insert(x));
                assert(prev_work.contains(x));
                assert(prev_work.to_multiset().count(x) > 0);
                assert(out@.to_multiset().add(work@.to_multiset()) =~= prev_out.to_multiset().add(
                    prev_work.to_multiset(),
                ));
                // every remaining row starts at or after the one taken
                assert(forall|b: int|
                    0 <= b < work@.len() ==> x.start_cs <= #[trigger] work@[b].start_cs);
            }
        }
        proof {
            assert(work@.to_multiset() =~= Seq::<TranscriptRecord>::empty().to_multiset());
            assert(out@.to_multiset() =~= all.to_multiset());
        }
        out
    }

    /// Remove every record of the note — live results discarded before a
    /// file is transcribed anew.
    pub fn delete_transcript_segments(&mut self, note_id: &String)
        ensures
            final(self).spec_next_id() == old(self).spec_next_id(),
            final(self).rows_view() =~= tr_rows_not_for(old(self).rows_view(), note_id@),
    {
        let mut kept: Vec<TranscriptRecord> = Vec::new();
        let mut i: usize = 0;
        let n = self.rows.len();
        while i < n
            invariant
                n == self.rows_view().len(),
                i <= n,
                kept@ =~= tr_rows_not_for(self.rows_view().take(i as int), note_id@),
            decreases n - i,
        {
            proof {
                assert(self.rows_view().take(i + 1).drop_last() =~= self.rows_view().take(
                    i as int,
                ));
                assert(self.rows_view().take(i + 1).last() == self.rows_view()[i as int]);
            }
            if !crate::store::str_eq(&self.rows[i].note_id, note_id) {
                let row = &self.rows[i];
                let copy = TranscriptRecord {
                    id: row.id,
                    note_id: row.note_id.clone(),
                    start_cs: row.start_cs,
                    end_cs: row.end_cs,
                    text: row.text.clone(),
                    speaker: clone_opt(&row.speaker),
                };
                proof {
                    assert(copy == self.rows_view()[i as int]);
                }
                kept.push(copy);
            }
            i = i + 1;
        }
        proof {
            assert(self.rows_view().take(n as int) =~= self.rows_view());
        }
        self.rows = kept;
    }
}

/// A copy of an optional text.
fn clone_opt(o: &Option<String>) -> (r: Option<String>)
    ensures
        r == *o,
{
    match o {
        Some(s) => Some(s.clone()),
        None => None,
    }
}

} // verus!
