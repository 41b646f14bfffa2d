//! In-memory model of the notes table, as far as the recording pipeline
//! touches it: whether a note exists, and the `ended_at` mark that a
//! continued recording clears and an ended note sets.  The durable mirror
//! lives outside the library.

use vstd::prelude::*;

use crate::records::Note;

verus! {

/// The notes a continued or ended recording goes through.
pub struct NoteStore {
    rows: Vec<Note>,
}

/// The rows after reopening the note with the given id: its `ended_at`
/// cleared and `updated_at` set to the clock reading, other notes
/// untouched.
pub open spec fn notes_reopened(rows: Seq<Note>, id: Seq<char>, now: String) -> Seq<Note> {
    Seq::new(
        rows.len(),
        |i: int|
            if rows[i].id@ == id {
                Note { ended_at: None, updated_at: now, ..rows[i] }
            } else {
                rows[i]
            },
    )
}

/// The rows after ending the note with the given id: its `ended_at` set
/// and `updated_at` set to the clock reading, other notes untouched.
pub open spec fn notes_ended(rows: Seq<Note>, id: Seq<char>, ended: String, now: String) -> Seq<
    Note,
> {
    Seq::new(
        rows.len(),
        |i: int|
            if rows[i].id@ == id {
                Note { ended_at: Some(ended), updated_at: now, ..rows[i] }
            } else {
                rows[i]
            },
    )
}

/// Whether some row carries the id.
pub open spec fn note_exists(rows: Seq<Note>, id: Seq<char>) -> bool {
    exists|i: int| 0 <= i < rows.len() && #[trigger] rows[i].id@ == id
}

impl NoteStore {
    /// An empty store.
    pub fn new() -> (r: Self)
        ensures
            r.rows_view() =~= Seq::<Note>::empty(),
    {
        NoteStore { rows: Vec::new() }
    }

    /// The rows currently in the store.
    pub closed spec fn rows_view(self) -> Seq<Note> {
        self.rows@
    }

    /// Insert a note; an id already present is refused and nothing
    /// changes, as the table's primary key would refuse it.
    pub fn insert_note(&mut self, note: Note) -> (inserted: bool)
        ensures
            (inserted <==> !note_exists(old(self).rows_view(), note.id@)),
            inserted ==> final(self).rows_view() =~= old(self).rows_view().push(note),
            !inserted ==> final(self).rows_view() =~= old(self).rows_view(),
    {
        if self.has_note(&note.id) {
            return false;
        }
        self.rows.push(note);
        true
    }

    /// Whether a note with the id exists.
    pub fn has_note(&self, id: &String) -> (r: bool)
        ensures
            r == note_exists(self.rows_view(), id@),
    {
        let mut i: usize = 0;
        let n = self.rows.len();
        while i < n
            invariant
                n == self.rows_view().len(),
                i <= n,
                forall|j: int| 0 <= j < i ==> #[trigger] self.rows_view()[j].id@ != id@,
            decreases n - i,
        {
            if crate::store::str_eq(&self.rows[i].id, id) {
                proof {
                    assert(self.rows_view()[i as int].id@ == id@);
                }
                return true;
            }
            i = i + 1;
        }
        false
    }

    /// The note with the id, where one exists.
    pub fn get_note(&self, id: &String) -> (r: Option<Note>)
        ensures
            (r is Some <==> note_exists(self.rows_view(), id@)),
            (r matches Some(note) ==> note.id@ == id@ && exists|i: int|
                0 <= i < self.rows_view().len() && #[trigger] self.rows_view()[i] == note),
    {
        let mut i: usize = 0;
        let n = self.rows.len();
        while i < n
            invariant
                n == self.rows_view().len(),
                i <= n,
                forall|j: int| 0 <= j < i ==> #[trigger] self.rows_view()[j].id@ != id@,
            decreases n - i,
        {
            if crate::store::str_eq(&self.rows[i].id, id) {
                let row = &self.rows[i];
                let copy = Note {
                    id: row.id.clone(),
                    title: row.title.clone(),
                    description: clone_opt(&row.description),
                    participants: clone_opt(&row.participants),
                    started_at: row.started_at.clone(),
                    ended_at: clone_opt(&row.ended_at),
                    audio_path: clone_opt(&row.audio_path),
                    created_at: row.created_at.clone(),
                    updated_at: row.updated_at.clone(),
                };
                proof {
                    assert(copy == self.rows_view()[i as int]);
                }
                return Some(copy);
            }
            i = i + 1;
        }
        None
    }

    /// Reopen the note: clear its `ended_at`, stamp `updated_at` with the
    /// clock reading; reports whether the note was found.
    pub fn reopen_note(&mut self, id: &String, now: &String) -> (found: bool)
        ensures
            (found <==> note_exists(old(self).rows_view(), id@)),
            final(self).rows_view() =~= notes_reopened(old(self).rows_view(), id@, *now),
    {
        let mut found = false;
        let mut i: usize = 0;
        let n = self.rows.len();
        while i < n
            invariant
                n == self.rows.len(),
                i <= n,
                forall|k: int|
                    0 <= k < n ==> #[trigger] self.rows_view()[k] == (if k < i && old(
                        self,
                    ).rows_view()[k].id@ == id@ {
                        Note {
                            ended_at: None,
                            updated_at: *now,
                            ..old(self).rows_view()[k]
                        }
                    } else {
                        old(self).rows_view()[k]
                    }),
                found == exists|k: int|
                    0 <= k < i && #[trigger] old(self).rows_view()[k].id@ == id@,
            decreases n - i,
        {
            if crate::store::str_eq(&self.rows[i].id, id) {
                let ghost prev = self.rows_view();
                let row = &self.rows[i];
                let updated = Note {
                    id: row.id.clone(),
                    title: row.title.clone(),
                    description: clone_opt(&row.description),
                    participants: clone_opt(&row.participants),
                    started_at: row.started_at.clone(),
                    ended_at: None,
                    audio_path: clone_opt(&row.audio_path),
                    created_at: row.created_at.clone(),
                    updated_at: now.clone(),
                };
                proof {
                    assert(updated == Note {
                        ended_at: None,
                        updated_at: *now,
                        ..prev[i as int]
                    });
                }
                self.rows.set(i, updated);
                found = true;
            }
            i = i + 1;
        }
        found
    }

    /// End the note: set its `ended_at`, stamp `updated_at`; reports
    /// whether the note was found.
    pub fn end_note(&mut self, id: &String, ended: &String, now: &String) -> (found: bool)
        ensures
            (found <==> note_exists(old(self).rows_view(), id@)),
            final(self).rows_view() =~= notes_ended(old(self).rows_view(), id@, *ended, *now),
    {
        let mut found = false;
        let mut i: usize = 0;
        let n = self.rows.len();
        while i < n
            invariant
                n == self.rows.len(),
                i <= n,
                forall|k: int|
                    0 <= k < n ==> #[trigger] self.rows_view()[k] == (if k < i && old(
                        self,
                    ).rows_view()[k].id@ == id@ {
                        Note {
                            ended_at: Some(*ended),
                            updated_at: *now,
                            ..old(self).rows_view()[k]
                        }
                    } else {
                        old(self).rows_view()[k]
                    }),
                found == exists|k: int|
                    0 <= k < i && #[trigger] old(self).rows_view()[k].id@ == id@,
            decreases n - i,
        {
            if crate::store::str_eq(&self.rows[i].id, id) {
                let ghost prev = self.rows_view();
                let row = &self.rows[i];
                let updated = Note {
                    id: row.id.clone(),
                    title: row.title.clone(),
                    description: clone_opt(&row.description),
                    participants: clone_opt(&row.participants),
                    started_at: row.started_at.clone(),
                    ended_at: Some(ended.clone()),
                    audio_path: clone_opt(&row.audio_path),
                    created_at: row.created_at.clone(),
                    updated_at: now.clone(),
                };
                proof {
                    assert(updated == Note {
                        ended_at: Some(*ended),
                        updated_at: *now,
                        ..prev[i as int]
                    });
                }
                self.rows.set(i, updated);
                found = true;
            }
            i = i + 1;
        }
        found
    }
}

/// A copy of an optional text.
fn clone_opt(o: &Option<String>) -> (r: Option<String>)
    ensures
        r == *o,
{
    match o {
        Some(s) => Some(s.clone()),
        None => None,
    }
}

} // verus!
