//! Invariants of the segment table, proved once and for all.
//!
//! [`note_wf`] is the shape every session leaves the table in: a note's
//! rows, in store order, carry the dense indices `0, 1, 2, ...`, each row
//! starts where the durations of the rows before it end, and only the last
//! row may still be open.  This module proves that the shape means what the
//! data model promises — dense index prefix, chained offsets — and that the
//! transitions of the session controller preserve it.

use vstd::prelude::*;

use crate::store::{
    count_for, dur_or_zero, is_for, max_index_for, next_index_spec, note_wf, rows_with_duration,
    sum_for, SegSnap,
};

verus! {

/// Whether every row of the note is closed: no duration is missing.
pub open spec fn all_closed_for(rows: Seq<SegSnap>, note: Seq<char>) -> bool {
    forall|i: int|
        0 <= i < rows.len() && #[trigger] is_for(rows[i], note) ==> rows[i].duration_ms is Some
}

/// Whether some row of the note carries the given segment index.
pub open spec fn has_index(rows: Seq<SegSnap>, note: Seq<char>, k: int) -> bool {
    exists|i: int|
        0 <= i < rows.len() && is_for(#[trigger] rows[i], note) && rows[i].segment_index == k
}

/// Unfold `count_for` over a one-longer prefix.
proof fn lemma_count_take_succ(rows: Seq<SegSnap>, note: Seq<char>, i: int)
    requires
        0 <= i < rows.len(),
    ensures
        count_for(rows.take(i + 1), note) == count_for(rows.take(i), note) + if is_for(
            rows[i],
            note,
        ) {
            1int
        } else {
            0int
        },
{
    assert(rows.take(i + 1).drop_last() =~= rows.take(i));
    assert(rows.take(i + 1).last() == rows[i]);
}

/// Unfold `sum_for` over a one-longer prefix.
proof fn lemma_sum_take_succ(rows: Seq<SegSnap>, note: Seq<char>, i: int)
    requires
        0 <= i < rows.len(),
    ensures
        sum_for(rows.take(i + 1), note) == sum_for(rows.take(i), note) + if is_for(
            rows[i],
            note,
        ) {
            dur_or_zero(rows[i])
        } else {
            0int
        },
{
    assert(rows.take(i + 1).drop_last() =~= rows.take(i));
    assert(rows.take(i + 1).last() == rows[i]);
}

/// A count over a prefix never exceeds the count over a longer prefix,
/// and counts are never negative.
proof fn lemma_count_take_mono(rows: Seq<SegSnap>, note: Seq<char>, a: int, b: int)
    requires
        0 <= a <= b <= rows.len(),
    ensures
        0 <= count_for(rows.take(a), note) <= count_for(rows.take(b), note),
        count_for(rows.take(b), note) <= count_for(rows.take(a), note) + (b - a),
    decreases b - a,
{
    lemma_count_nonneg(rows.take(a), note);
    if a < b {
        lemma_count_take_succ(rows, note, b - 1);
        lemma_count_take_mono(rows, note, a, b - 1);
    }
}

/// Counts are never negative.
proof fn lemma_count_nonneg(rows: Seq<SegSnap>, note: Seq<char>)
    ensures
        count_for(rows, note) >= 0,
    decreases rows.len(),
{
    if rows.len() > 0 {
        lemma_count_nonneg(rows.drop_last(), note);
    }
}

/// The whole sequence is its own full prefix.
proof fn lemma_take_full(rows: Seq<SegSnap>, note: Seq<char>)
    ensures
        count_for(rows.take(rows.len() as int), note) == count_for(rows, note),
        sum_for(rows.take(rows.len() as int), note) == sum_for(rows, note),
{
    assert(rows.take(rows.len() as int) =~= rows);
}

/// Among a well-formed note's rows there is one of rank `k` for every
/// `k` below the count, and its index is `k`.
proof fn lemma_rank_exists(rows: Seq<SegSnap>, note: Seq<char>, k: int)
    requires
        note_wf(rows, note),
        0 <= k < count_for(rows, note),
    ensures
        has_index(rows, note, k),
    decreases rows.len(),
{
    lemma_count_nonneg(rows.drop_last(), note);
    if rows.len() > 0 {
        let last = rows.len() - 1;
        if is_for(rows[last], note) && k == count_for(rows.drop_last(), note) {
            assert(rows.take(last) =~= rows.drop_last());
            assert(rows[last].segment_index == count_for(rows.take(last), note));
        } else {
            assert(note_wf(rows.drop_last(), note)) by {
                assert forall|i: int|
                    0 <= i < rows.drop_last().len() && #[trigger] is_for(
                        rows.drop_last()[i],
                        note,
                    ) implies {
                    &&& rows.drop_last()[i].segment_index == count_for(
                        rows.drop_last().take(i),
                        note,
                    )
                    &&& rows.drop_last()[i].start_offset_ms == sum_for(
                        rows.drop_last().take(i),
                        note,
                    )
                    &&& (rows.drop_last()[i].duration_ms is None ==> count_for(
                        rows.drop_last(),
                        note,
                    ) == count_for(rows.drop_last().take(i), note) + 1)
                } by {
                    assert(rows.drop_last()[i] == rows[i]);
                    assert(rows.drop_last().take(i) =~= rows.take(i));
                    assert(is_for(rows[i], note));
                    if rows[i].duration_ms is None {
                        assert(count_for(rows, note) == count_for(rows.take(i), note) + 1);
                        lemma_count_take_mono(rows, note, i + 1, rows.len() as int);
                        lemma_count_take_succ(rows, note, i);
                        lemma_take_full(rows, note);
                        lemma_count_take_mono(rows, note, i + 1, rows.len() - 1);
                        assert(rows.take(rows.len() - 1) =~= rows.drop_last());
                    }
                }
            }
            if is_for(rows[last], note) {
                assert(k < count_for(rows.drop_last(), note));
            } else {
                assert(count_for(rows, note) == count_for(rows.drop_last(), note));
            }
            lemma_rank_exists(rows.drop_last(), note, k);
            let i = choose|i: int|
                0 <= i < rows.drop_last().len() && is_for(#[trigger] rows.drop_last()[i], note)
                    && rows.drop_last()[i].segment_index == k;
            assert(rows.drop_last()[i] == rows[i]);
            assert(is_for(rows[i], note) && rows[i].segment_index == k);
        }
    }
}

/// The indices of a well-formed note's rows form exactly the dense prefix
/// `0 .. N`, where `N` is the note's row count.
pub proof fn lemma_segment_indices_dense(rows: Seq<SegSnap>, note: Seq<char>)
    requires
        note_wf(rows, note),
    ensures
        forall|i: int|
            0 <= i < rows.len() && #[trigger] is_for(rows[i], note) ==> 0
                <= rows[i].segment_index < count_for(rows, note),
        forall|k: int| 0 <= k < count_for(rows, note) ==> #[trigger] has_index(rows, note, k),
{
    assert forall|i: int|
        0 <= i < rows.len() && #[trigger] is_for(rows[i], note) implies 0 <= rows[i].segment_index
        < count_for(rows, note) by {
        lemma_count_take_mono(rows, note, 0, i);
        lemma_count_take_succ(rows, note, i);
        lemma_count_take_mono(rows, note, i + 1, rows.len() as int);
        lemma_take_full(rows, note);
    }
    assert forall|k: int| 0 <= k < count_for(rows, note) implies #[trigger] has_index(
        rows,
        note,
        k,
    ) by {
        lemma_rank_exists(rows, note, k);
    }
}

/// Two ranks of the note that are equal over a window mean the window has
/// no note rows, so the note's sums agree over it.
proof fn lemma_sum_same_count(rows: Seq<SegSnap>, note: Seq<char>, a: int, b: int)
    requires
        0 <= a <= b <= rows.len(),
        count_for(rows.take(a), note) == count_for(rows.take(b), note),
    ensures
        sum_for(rows.take(a), note) == sum_for(rows.take(b), note),
    decreases b - a,
{
    if a < b {
        lemma_count_take_succ(rows, note, b - 1);
        lemma_count_take_mono(rows, note, a, b - 1);
        lemma_sum_take_succ(rows, note, b - 1);
        lemma_sum_same_count(rows, note, a, b - 1);
    }
}

/// In a well-formed note, each row starts where the previous one ended:
/// the row of index `k+1` starts at the start of the row of index `k`
/// plus that row's duration, which is already written.
pub proof fn lemma_offsets_chain(rows: Seq<SegSnap>, note: Seq<char>, i: int, j: int)
    requires
        note_wf(rows, note),
        0 <= i < rows.len(),
        0 <= j < rows.len(),
        is_for(rows[i], note),
        is_for(rows[j], note),
        rows[j].segment_index == rows[i].segment_index + 1,
    ensures
        rows[i].duration_ms is Some,
        rows[j].start_offset_ms == rows[i].start_offset_ms + dur_or_zero(rows[i]),
{
    assert(rows[i].segment_index == count_for(rows.take(i), note));
    assert(rows[j].segment_index == count_for(rows.take(j), note));
    // `j` comes after `i` in store order: ranks grow along the store.
    if j <= i {
        lemma_count_take_mono(rows, note, j, i);
        assert(false);
    }
    lemma_count_take_succ(rows, note, i);
    assert(count_for(rows.take(i + 1), note) == count_for(rows.take(j), note));
    lemma_sum_same_count(rows, note, i + 1, j);
    lemma_sum_take_succ(rows, note, i);
    // The row of index `k` is closed: a later note row exists.
    if rows[i].duration_ms is None {
        assert(count_for(rows, note) == count_for(rows.take(i), note) + 1);
        lemma_count_take_succ(rows, note, j);
        lemma_count_take_mono(rows, note, j + 1, rows.len() as int);
        lemma_take_full(rows, note);
        assert(false);
    }
}

/// In a well-formed note the next free index is exactly the row count.
pub proof fn lemma_next_index_is_count(rows: Seq<SegSnap>, note: Seq<char>)
    requires
        note_wf(rows, note),
    ensures
        next_index_spec(rows, note) == count_for(rows, note),
    decreases rows.len(),
{
    lemma_count_nonneg(rows, note);
    if rows.len() == 0 {
    } else {
        let last = rows.len() - 1;
        assert(note_wf(rows.drop_last(), note)) by {
            lemma_drop_last_wf(rows, note);
        }
        lemma_next_index_is_count(rows.drop_last(), note);
        assert(rows.take(last) =~= rows.drop_last());
        if is_for(rows[last], note) {
            assert(rows[last].segment_index == count_for(rows.drop_last(), note));
            lemma_count_nonneg(rows.drop_last(), note);
            match max_index_for(rows.drop_last(), note) {
                None => {
                    assert(count_for(rows.drop_last(), note) == 0) by {
                        if count_for(rows.drop_last(), note) > 0 {
                            lemma_rank_exists(rows.drop_last(), note, 0);
                            let w = choose|w: int|
                                0 <= w < rows.drop_last().len() && is_for(
                                    #[trigger] rows.drop_last()[w],
                                    note,
                                ) && rows.drop_last()[w].segment_index == 0;
                            lemma_max_index_witness(rows.drop_last(), note, w);
                        }
                    }
                },
                Some(m) => {
                    assert(m == count_for(rows.drop_last(), note) - 1);
                },
            }
        }
    }
}

/// A note row is never above the note's largest index.
proof fn lemma_max_index_witness(rows: Seq<SegSnap>, note: Seq<char>, w: int)
    requires
        0 <= w < rows.len(),
        is_for(rows[w], note),
    ensures
        max_index_for(rows, note) is Some,
        rows[w].segment_index <= max_index_for(rows, note)->0,
    decreases rows.len(),
{
    if w < rows.len() - 1 {
        assert(rows.drop_last()[w] == rows[w]);
        lemma_max_index_witness(rows.drop_last(), note, w);
    }
}

/// Dropping the last row keeps a note well-formed.
proof fn lemma_drop_last_wf(rows: Seq<SegSnap>, note: Seq<char>)
    requires
        note_wf(rows, note),
        rows.len() > 0,
    ensures
        note_wf(rows.drop_last(), note),
{
    let head = rows.drop_last();
    assert forall|i: int|
        0 <= i < head.len() && #[trigger] is_for(head[i], note) implies {
        &&& head[i].segment_index == count_for(head.take(i), note)
        &&& head[i].start_offset_ms == sum_for(head.take(i), note)
        &&& (head[i].duration_ms is None ==> count_for(head, note) == count_for(head.take(i), note)
            + 1)
    } by {
        assert(head[i] == rows[i]);
        assert(head.take(i) =~= rows.take(i));
        assert(is_for(rows[i], note));
        if head[i].duration_ms is None {
            assert(count_for(rows, note) == count_for(rows.take(i), note) + 1);
            lemma_count_take_succ(rows, note, i);
            lemma_count_take_mono(rows, note, i + 1, rows.len() - 1);
            lemma_count_take_mono(rows, note, rows.len() - 1, rows.len() as int);
            lemma_take_full(rows, note);
            assert(rows.take(rows.len() - 1) =~= head);
        }
    }
}

/// Opening a new interval preserves well-formedness: when every existing
/// row of the note is closed, pushing a row at the next free index, whose
/// offset is the note's total duration, keeps the note well-formed, and
/// `start` at offset 0 is the special case of a note without rows.
pub proof fn lemma_open_preserves_note_wf(
    rows: Seq<SegSnap>,
    note: Seq<char>,
    id: int,
    mic: Seq<char>,
    sysp: Seq<char>,
)
    requires
        note_wf(rows, note),
        all_closed_for(rows, note),
    ensures
        note_wf(
            rows.push(
                crate::session::new_seg_row(
                    id,
                    note,
                    next_index_spec(rows, note),
                    mic,
                    sysp,
                    sum_for(rows, note),
                ),
            ),
            note,
        ),
        count_for(
            rows.push(
                crate::session::new_seg_row(
                    id,
                    note,
                    next_index_spec(rows, note),
                    mic,
                    sysp,
                    sum_for(rows, note),
                ),
            ),
            note,
        ) == count_for(rows, note) + 1,
        sum_for(
            rows.push(
                crate::session::new_seg_row(
                    id,
                    note,
                    next_index_spec(rows, note),
                    mic,
                    sysp,
                    sum_for(rows, note),
                ),
            ),
            note,
        ) == sum_for(rows, note),
{
    let row = crate::session::new_seg_row(
        id,
        note,
        next_index_spec(rows, note),
        mic,
        sysp,
        sum_for(rows, note),
    );
    let out = rows.push(row);
    lemma_next_index_is_count(rows, note);
    assert(out.drop_last() =~= rows);
    assert(out.last() == row);
    assert(count_for(out, note) == count_for(rows, note) + 1);
    assert(sum_for(out, note) == sum_for(rows, note));
    assert forall|i: int|
        0 <= i < out.len() && #[trigger] is_for(out[i], note) implies {
        &&& out[i].segment_index == count_for(out.take(i), note)
        &&& out[i].start_offset_ms == sum_for(out.take(i), note)
        &&& (out[i].duration_ms is None ==> count_for(out, note) == count_for(out.take(i), note)
            + 1)
    } by {
        if i < rows.len() {
            assert(out[i] == rows[i]);
            assert(out.take(i) =~= rows.take(i));
            assert(is_for(rows[i], note));
            assert(rows[i].duration_ms is Some);
        } else {
            assert(out[i] == row);
            assert(out.take(i) =~= rows);
        }
    }
}

/// Closing the note's last open interval preserves well-formedness and
/// leaves every row of the note closed.
pub proof fn lemma_close_preserves_note_wf(
    rows: Seq<SegSnap>,
    note: Seq<char>,
    id: int,
    d: int,
)
    requires
        note_wf(rows, note),
        // ids name rows uniquely
        forall|i: int, j: int|
            0 <= i < rows.len() && 0 <= j < rows.len() && #[trigger] rows[i].id == #[trigger] rows[j].id
                ==> i == j,
        // the row being closed is still open
        forall|i: int|
            0 <= i < rows.len() && #[trigger] rows[i].id == id ==> rows[i].duration_ms is None,
        // and, within this note, it is the last row
        forall|i: int|
            0 <= i < rows.len() && #[trigger] rows[i].id == id && is_for(rows[i], note)
                ==> count_for(rows, note) == count_for(rows.take(i), note) + 1,
        // no other row of the note is open
        forall|i: int|
            0 <= i < rows.len() && #[trigger] is_for(rows[i], note) && rows[i].duration_ms is None
                ==> rows[i].id == id,
    ensures
        note_wf(rows_with_duration(rows, id, d), note),
        all_closed_for(rows_with_duration(rows, id, d), note),
        count_for(rows_with_duration(rows, id, d), note) == count_for(rows, note),
        sum_for(rows_with_duration(rows, id, d), note) == sum_for(rows, note) + (if exists|i: int|
            0 <= i < rows.len() && #[trigger] is_for(rows[i], note) && rows[i].id == id {
            d
        } else {
            0int
        }),
{
    let out = rows_with_duration(rows, id, d);
    lemma_close_counts(rows, note, id, d, rows.len() as int);
    assert(out.take(rows.len() as int) =~= out);
    assert(rows.take(rows.len() as int) =~= rows);
    assert forall|i: int|
        0 <= i < out.len() && #[trigger] is_for(out[i], note) implies {
        &&& out[i].segment_index == count_for(out.take(i), note)
        &&& out[i].start_offset_ms == sum_for(out.take(i), note)
        &&& (out[i].duration_ms is None ==> count_for(out, note) == count_for(out.take(i), note)
            + 1)
    } by {
        assert(is_for(rows[i], note));
        lemma_close_counts(rows, note, id, d, i);
        // The sum over the prefix before row `i` is unchanged: a note row
        // with the closed id inside it would have to be the note's last
        // row, yet row `i` of the note comes after it.
        if exists|w: int|
            0 <= w < i && #[trigger] is_for(rows[w], note) && rows[w].id == id {
            let w = choose|w: int|
                0 <= w < i && #[trigger] is_for(rows[w], note) && rows[w].id == id;
            assert(rows[w].id == id);
            assert(count_for(rows, note) == count_for(rows.take(w), note) + 1);
            lemma_count_take_succ(rows, note, w);
            lemma_count_take_mono(rows, note, w + 1, i);
            lemma_count_take_succ(rows, note, i);
            lemma_count_take_mono(rows, note, i + 1, rows.len() as int);
            lemma_take_full(rows, note);
            assert(false);
        }
        if out[i].duration_ms is None {
            assert(rows[i].id != id);
            assert(rows[i].duration_ms is None);
            assert(rows[i].id == id);
            assert(false);
        }
    }
    assert forall|i: int|
        0 <= i < out.len() && #[trigger] is_for(out[i], note) implies out[i].duration_ms
        is Some by {
        assert(is_for(rows[i], note));
        if out[i].duration_ms is None {
            assert(rows[i].id != id && rows[i].duration_ms is None);
            assert(rows[i].id == id);
        }
    }
}

/// Counts agree between the rows and their closed version over every
/// prefix, and the sums differ exactly by the duration written into the
/// note's open row where the prefix contains it.
proof fn lemma_close_counts(rows: Seq<SegSnap>, note: Seq<char>, id: int, d: int, p: int)
    requires
        0 <= p <= rows.len(),
        forall|i: int, j: int|
            0 <= i < rows.len() && 0 <= j < rows.len() && #[trigger] rows[i].id == #[trigger] rows[j].id
                ==> i == j,
        forall|i: int|
            0 <= i < rows.len() && #[trigger] rows[i].id == id ==> rows[i].duration_ms is None,
    ensures
        count_for(rows_with_duration(rows, id, d).take(p), note) == count_for(
            rows.take(p),
            note,
        ),
        sum_for(rows_with_duration(rows, id, d).take(p), note) == sum_for(rows.take(p), note) + (
        if exists|i: int|
            0 <= i < p && #[trigger] is_for(rows[i], note) && rows[i].id == id {
            d
        } else {
            0int
        }),
    decreases p,
{
    let out = rows_with_duration(rows, id, d);
    if p > 0 {
        lemma_close_counts(rows, note, id, d, p - 1);
        assert(out.take(p).drop_last() =~= out.take(p - 1));
        assert(rows.take(p).drop_last() =~= rows.take(p - 1));
        assert(out.take(p).last() == out[p - 1]);
        assert(rows.take(p).last() == rows[p - 1]);
        let changed_before = exists|i: int|
            0 <= i < p - 1 && #[trigger] is_for(rows[i], note) && rows[i].id == id;
        let changed_now = exists|i: int|
            0 <= i < p && #[trigger] is_for(rows[i], note) && rows[i].id == id;
        if is_for(rows[p - 1], note) && rows[p - 1].id == id {
            assert(rows[p - 1].duration_ms is None);
            assert(dur_or_zero(out[p - 1]) == d && dur_or_zero(rows[p - 1]) == 0);
            assert(changed_now);
            if changed_before {
                // ids are unique, so no earlier row can carry this id too
                let w = choose|i: int|
                    0 <= i < p - 1 && #[trigger] is_for(rows[i], note) && rows[i].id == id;
                assert(rows[w].id == rows[p - 1].id);
                assert(w == p - 1);
                assert(false);
            }
        } else {
            if rows[p - 1].id == id {
                assert(!is_for(rows[p - 1], note));
                assert(if is_for(out[p - 1], note) {
                    dur_or_zero(out[p - 1])
                } else {
                    0int
                } == if is_for(rows[p - 1], note) {
                    dur_or_zero(rows[p - 1])
                } else {
                    0int
                });
            } else {
                assert(out[p - 1] == rows[p - 1]);
            }
            if changed_now && !changed_before {
                let w = choose|i: int|
                    0 <= i < p && #[trigger] is_for(rows[i], note) && rows[i].id == id;
                assert(w == p - 1);
                assert(false);
            }
            if changed_before {
                assert(changed_now) by {
                    let w = choose|i: int|
                        0 <= i < p - 1 && #[trigger] is_for(rows[i], note) && rows[i].id == id;
                    assert(0 <= w < p && is_for(rows[w], note) && rows[w].id == id);
                }
            }
        }
    }
}

/// A note's rows are none at count zero, and their durations sum to zero.
proof fn lemma_count_zero(rows: Seq<SegSnap>, note: Seq<char>)
    requires
        count_for(rows, note) == 0,
    ensures
        forall|i: int| 0 <= i < rows.len() ==> !is_for(#[trigger] rows[i], note),
        sum_for(rows, note) == 0,
{
    assert forall|i: int| 0 <= i < rows.len() implies !is_for(#[trigger] rows[i], note) by {
        if is_for(rows[i], note) {
            lemma_count_take_mono(rows, note, 0, i);
            lemma_count_take_succ(rows, note, i);
            lemma_count_take_mono(rows, note, i + 1, rows.len() as int);
            lemma_take_full(rows, note);
        }
    }
    lemma_count_take_mono(rows, note, 0, rows.len() as int);
    lemma_take_full(rows, note);
    assert(rows.take(0) =~= Seq::<SegSnap>::empty());
    assert(count_for(rows.take(0), note) == 0);
    lemma_sum_same_count(rows, note, 0, rows.len() as int);
}

/// One full session on a fresh note — start, pause after `d0`
/// milliseconds, resume, stop after `d1` more — leaves exactly two rows
/// for the note, both closed with their measured durations, the second
/// starting where the first ended, and the note's total duration is
/// `d0 + d1`: the sum of the per-segment durations.
pub proof fn lemma_session_two_segments(
    rows0: Seq<SegSnap>,
    note: Seq<char>,
    id1: int,
    id2: int,
    mic1: Seq<char>,
    sys1: Seq<char>,
    mic2: Seq<char>,
    sys2: Seq<char>,
    d0: int,
    d1: int,
)
    requires
        note_wf(rows0, note),
        count_for(rows0, note) == 0,
        d0 >= 0,
        d1 >= 0,
        id1 != id2,
        forall|i: int|
            0 <= i < rows0.len() ==> #[trigger] rows0[i].id != id1 && #[trigger] rows0[i].id
                != id2,
        forall|i: int, j: int|
            0 <= i < rows0.len() && 0 <= j < rows0.len() && #[trigger] rows0[i].id
                == #[trigger] rows0[j].id ==> i == j,
    ensures
        ({
            // what the controller's contracts leave behind, step by step
            let rows1 = rows0.push(
                crate::session::new_seg_row(id1, note, next_index_spec(rows0, note), mic1, sys1, 0),
            );
            let rows2 = rows_with_duration(rows1, id1, d0);
            let rows3 = rows2.push(
                crate::session::new_seg_row(
                    id2,
                    note,
                    next_index_spec(rows2, note),
                    mic2,
                    sys2,
                    sum_for(rows2, note),
                ),
            );
            let rows4 = rows_with_duration(rows3, id2, d1);
            &&& next_index_spec(rows2, note) == 1
            &&& sum_for(rows2, note) == d0
            &&& note_wf(rows4, note)
            &&& all_closed_for(rows4, note)
            &&& count_for(rows4, note) == 2
            &&& sum_for(rows4, note) == d0 + d1
        }),
{
    lemma_count_zero(rows0, note);
    let row1 = crate::session::new_seg_row(id1, note, next_index_spec(rows0, note), mic1, sys1, 0);
    let rows1 = rows0.push(row1);
    assert(row1 == crate::session::new_seg_row(
        id1,
        note,
        next_index_spec(rows0, note),
        mic1,
        sys1,
        sum_for(rows0, note),
    ));
    assert(all_closed_for(rows0, note));
    lemma_open_preserves_note_wf(rows0, note, id1, mic1, sys1);
    assert(note_wf(rows1, note));
    assert(count_for(rows1, note) == 1);
    assert(sum_for(rows1, note) == 0);
    // pause: close the open first row
    assert(forall|i: int|
        0 <= i < rows1.len() && #[trigger] rows1[i].id == id1 ==> rows1[i].duration_ms is None)
        by {
        assert(forall|i: int| 0 <= i < rows0.len() ==> #[trigger] rows1[i] == rows0[i]);
    }
    assert(forall|i: int, j: int|
        0 <= i < rows1.len() && 0 <= j < rows1.len() && #[trigger] rows1[i].id
            == #[trigger] rows1[j].id ==> i == j) by {
        assert(forall|i: int| 0 <= i < rows0.len() ==> #[trigger] rows1[i] == rows0[i]);
        assert(rows1[rows0.len() as int].id == id1);
    }
    assert(forall|i: int|
        0 <= i < rows1.len() && #[trigger] rows1[i].id == id1 && is_for(rows1[i], note)
            ==> count_for(rows1, note) == count_for(rows1.take(i), note) + 1) by {
        assert forall|i: int|
            0 <= i < rows1.len() && #[trigger] rows1[i].id == id1 && is_for(
                rows1[i],
                note,
            ) implies count_for(rows1, note) == count_for(rows1.take(i), note) + 1 by {
            assert(forall|k: int| 0 <= k < rows0.len() ==> #[trigger] rows1[k] == rows0[k]);
            assert(i == rows0.len());
            assert(rows1.take(i) =~= rows0);
        }
    }
    assert(forall|i: int|
        0 <= i < rows1.len() && #[trigger] is_for(rows1[i], note) && rows1[i].duration_ms is None
            ==> rows1[i].id == id1) by {
        assert(forall|k: int| 0 <= k < rows0.len() ==> #[trigger] rows1[k] == rows0[k]);
    }
    lemma_close_preserves_note_wf(rows1, note, id1, d0);
    let rows2 = rows_with_duration(rows1, id1, d0);
    assert(note_wf(rows2, note));
    assert(all_closed_for(rows2, note));
    assert(count_for(rows2, note) == 1);
    assert(sum_for(rows2, note) == d0) by {
        assert(is_for(rows1[rows0.len() as int], note) && rows1[rows0.len() as int].id == id1);
    }
    lemma_next_index_is_count(rows2, note);
    // resume: open the second row at offset d0
    lemma_open_preserves_note_wf(rows2, note, id2, mic2, sys2);
    let row2 = crate::session::new_seg_row(
        id2,
        note,
        next_index_spec(rows2, note),
        mic2,
        sys2,
        sum_for(rows2, note),
    );
    let rows3 = rows2.push(row2);
    assert(note_wf(rows3, note));
    assert(count_for(rows3, note) == 2);
    assert(sum_for(rows3, note) == d0);
    // stop: close the second row
    assert(forall|i: int| 0 <= i < rows2.len() ==> #[trigger] rows2[i].id == rows1[i].id);
    assert(forall|i: int|
        0 <= i < rows3.len() && #[trigger] rows3[i].id == id2 ==> rows3[i].duration_ms is None)
        by {
        assert(forall|k: int| 0 <= k < rows2.len() ==> #[trigger] rows3[k] == rows2[k]);
        assert(forall|k: int| 0 <= k < rows0.len() ==> #[trigger] rows1[k] == rows0[k]);
    }
    assert(forall|i: int, j: int|
        0 <= i < rows3.len() && 0 <= j < rows3.len() && #[trigger] rows3[i].id
            == #[trigger] rows3[j].id ==> i == j) by {
        assert(forall|k: int| 0 <= k < rows2.len() ==> #[trigger] rows3[k] == rows2[k]);
        assert(forall|k: int| 0 <= k < rows0.len() ==> #[trigger] rows1[k] == rows0[k]);
        assert(rows3[rows2.len() as int].id == id2);
        assert(rows1[rows0.len() as int].id == id1);
    }
    assert(forall|i: int|
        0 <= i < rows3.len() && #[trigger] rows3[i].id == id2 && is_for(rows3[i], note)
            ==> count_for(rows3, note) == count_for(rows3.take(i), note) + 1) by {
        assert forall|i: int|
            0 <= i < rows3.len() && #[trigger] rows3[i].id == id2 && is_for(
                rows3[i],
                note,
            ) implies count_for(rows3, note) == count_for(rows3.take(i), note) + 1 by {
            assert(forall|k: int| 0 <= k < rows2.len() ==> #[trigger] rows3[k] == rows2[k]);
            assert(forall|k: int| 0 <= k < rows0.len() ==> #[trigger] rows1[k] == rows0[k]);
            assert(i == rows2.len());
            assert(rows3.take(i) =~= rows2);
        }
    }
    assert(forall|i: int|
        0 <= i < rows3.len() && #[trigger] is_for(rows3[i], note) && rows3[i].duration_ms is None
            ==> rows3[i].id == id2) by {
        assert(forall|k: int| 0 <= k < rows2.len() ==> #[trigger] rows3[k] == rows2[k]);
    }
    lemma_close_preserves_note_wf(rows3, note, id2, d1);
    assert(sum_for(rows_with_duration(rows3, id2, d1), note) == d0 + d1) by {
        assert(is_for(rows3[rows2.len() as int], note) && rows3[rows2.len() as int].id == id2);
    }
}

} // verus!
