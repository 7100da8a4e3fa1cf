//! The relational state behind the services: the table of notes, one row a
//! date, and the table of users, one row an identifier and an address.

pub mod notes;
pub mod users;

pub use notes::{
    erased, has_date, has_note_id, has_random_note_id, lemma_dates_distinct, lemma_erased_remove,
    lemma_matching_members, lemma_matching_ordered, lemma_note_for_row, lemma_written_insert,
    lemma_written_update, listing, matching, note_for, note_ids_distinct, notes_ordered, notes_wf,
    upsert_row, written,
};
pub use users::{
    email_of_another, has_email, has_random_user_id, has_user_id, lemma_user_for_row,
    lemma_user_pushed, lemma_user_replaced, update_row, user_for, user_index, users_wf,
};

use crate::error::{StorageError, StorageErrorView};
use crate::models::note::{Note, NoteMetadata, NoteView};
use crate::models::user::{User, UserView};
use crate::order::{
    lemma_precedes_irreflexive, lemma_precedes_total, lemma_precedes_transitive, precedes,
    same_text, sorts_before,
};
use crate::pattern::like;
use crate::text::chars_of;
use vstd::prelude::*;

verus! {

/// The store: the rows of its two tables.
pub struct Database {
    notes: Vec<Note>,
    users: Vec<User>,
}

impl Database {
    /// The rows of the table of notes, in stored order.
    pub closed spec fn notes(&self) -> Seq<NoteView> {
        self.notes@.map_values(|n: Note| n@)
    }

    /// The rows of the table of users, in stored order.
    pub closed spec fn users(&self) -> Seq<UserView> {
        self.users@.map_values(|u: User| u@)
    }

    /// What always holds of the store.
    pub open spec fn wf(&self) -> bool {
        notes_wf(self.notes()) && users_wf(self.users())
    }

    /// A store with both tables empty.
    pub fn new() -> (db: Database)
        ensures
            db.wf(),
            db.notes() == Seq::<NoteView>::empty(),
            db.users() == Seq::<UserView>::empty(),
    {
        let db = Database { notes: Vec::new(), users: Vec::new() };
        proof {
            assert(db.notes() =~= Seq::<NoteView>::empty());
            assert(db.users() =~= Seq::<UserView>::empty());
        }
        db
    }

    /// Where the row for `date` stands or would stand: the index of the
    /// first row whose date does not sort after `date`, and whether that row
    /// is the one for `date`.
    fn note_position(&self, date: &Vec<char>) -> (at: (usize, bool))
        requires
            self.wf(),
        ensures
            at.0 <= self.notes().len(),
            forall|i: int| 0 <= i < at.0 ==> precedes(date@, (#[trigger] self.notes()[i]).date),
            forall|i: int|
                at.0 <= i < self.notes().len() && !(at.1 && i == at.0) ==> precedes(
                    (#[trigger] self.notes()[i]).date,
                    date@,
                ),
            at.1 ==> at.0 < self.notes().len() && self.notes()[at.0 as int].date == date@,
            at.1 == has_date(self.notes(), date@),
    {
        let ghost rows = self.notes();
        let mut i: usize = 0;
        let mut found: bool = false;
        while i < self.notes.len()
            invariant_except_break
                !found,
            invariant
                i <= self.notes.len(),
                rows == self.notes(),
                rows.len() == self.notes.len(),
                forall|k: int| 0 <= k < i ==> precedes(date@, (#[trigger] rows[k]).date),
            ensures
                i <= self.notes.len(),
                found ==> i < rows.len() && rows[i as int].date == date@,
                !found ==> i == rows.len() || precedes(rows[i as int].date, date@),
            decreases self.notes.len() - i,
        {
            let here: Vec<char> = chars_of(self.notes[i].date.as_str());
            assert(here@ == rows[i as int].date);
            if same_text(&here, date) {
                found = true;
                break;
            }
            if sorts_before(&here, date) {
                break;
            }
            proof {
                lemma_precedes_total(here@, date@);
            }
            i = i + 1;
        }
        proof {
            assert forall|k: int| i <= k < rows.len() && !(found && k == i) implies precedes(
                (#[trigger] rows[k]).date,
                date@,
            ) by {
                if k > i {
                    assert(precedes(rows[k].date, rows[i as int].date));
                    if !found {
                        lemma_precedes_transitive(rows[k].date, rows[i as int].date, date@);
                    }
                }
            }
            if !found {
                assert forall|k: int| 0 <= k < rows.len() implies (#[trigger] rows[k]).date
                    != date@ by {
                    lemma_precedes_irreflexive(date@);
                }
            }
        }
        (i, found)
    }

    /// The row stored for `date`, if there is one.
    pub fn find_note(&self, date: &str) -> (found: Option<Note>)
        requires
            self.wf(),
        ensures
            match found {
                Some(n) => note_for(self.notes(), date@) == Some(n@),
                None => note_for(self.notes(), date@) is None,
            },
    {
        let key: Vec<char> = chars_of(date);
        let at = self.note_position(&key);
        if at.1 {
            proof {
                lemma_note_for_row(self.notes(), at.0 as int);
            }
            Some(self.notes[at.0].clone())
        } else {
            None
        }
    }

    /// Whether a row of the table of notes has the identifier `id`.
    fn note_id_taken(&self, id: &String) -> (taken: bool)
        ensures
            taken == has_note_id(self.notes(), id@),
    {
        let ghost rows = self.notes();
        let mut i: usize = 0;
        while i < self.notes.len()
            invariant
                i <= self.notes.len(),
                rows == self.notes(),
                rows.len() == self.notes.len(),
                forall|k: int| 0 <= k < i ==> (#[trigger] rows[k]).id != id@,
            decreases self.notes.len() - i,
        {
            if self.notes[i].id == *id {
                assert(rows[i as int].id == id@);
                return true;
            }
            i = i + 1;
        }
        false
    }

    /// Writes `row` under its date in one step, and returns the row that
    /// then stands for that date: a row that is already stored for the date
    /// takes the content, the word count and the time of the change from
    /// `row` and keeps the rest; otherwise `row` is added, unless its
    /// identifier is already in use.
    pub fn upsert_note(&mut self, row: Note) -> (r: Result<Note, StorageError>)
        requires
            old(self).wf(),
        ensures
            final(self).wf(),
            final(self).users() == old(self).users(),
            r is Err <==> !has_date(old(self).notes(), row@.date) && has_note_id(
                old(self).notes(),
                row@.id,
            ),
            match r {
                Ok(stored) => {
                    &&& stored@ == upsert_row(note_for(old(self).notes(), row@.date), row@)
                    &&& written(old(self).notes(), final(self).notes(), row@.date, stored@)
                },
                Err(e) => {
                    &&& final(self).notes() == old(self).notes()
                    &&& e@ == StorageErrorView::unique_violation()
                },
            },
    {
        let ghost before = self.notes();
        let key: Vec<char> = chars_of(row.date.as_str());
        let at = self.note_position(&key);
        let p: usize = at.0;
        if at.1 {
            let kept: &Note = &self.notes[p];
            let merged = Note {
                id: kept.id.clone(),
                date: kept.date.clone(),
                content: row.content,
                word_count: row.word_count,
                created_at: kept.created_at.clone(),
                updated_at: row.updated_at,
            };
            self.notes.set(p, merged.clone());
            proof {
                lemma_note_for_row(before, p as int);
                assert(self.notes() =~= before.update(p as int, merged@));
                lemma_written_update(before, p as int, merged@);
                assert forall|i: int, j: int| 0 <= i < j < self.notes().len() implies self.notes()[i].id
                    != self.notes()[j].id by {
                    assert(self.notes()[i].id == before[i].id && self.notes()[j].id
                        == before[j].id);
                }
            }
            Ok(merged)
        } else if self.note_id_taken(&row.id) {
            Err(StorageError::unique_violation())
        } else {
            let ghost added = row@;
            self.notes.insert(p, row.clone());
            proof {
                let after = self.notes();
                assert(after =~= before.insert(p as int, added));
                assert forall|i: int, j: int| 0 <= i < j < after.len() implies precedes(
                    after[j].date,
                    after[i].date,
                ) && after[i].id != after[j].id by {
                    let i0 = if i < p {
                        i
                    } else {
                        i - 1
                    };
                    let j0 = if j < p {
                        j
                    } else {
                        j - 1
                    };
                    if i != p {
                        assert(after[i] == before[i0]);
                    }
                    if j != p {
                        assert(after[j] == before[j0]);
                    }
                }
                lemma_written_insert(before, p as int, added);
            }
            Ok(row)
        }
    }

    /// Removes the row stored for `date`; without one, nothing changes.
    pub fn delete_note(&mut self, date: &str)
        requires
            old(self).wf(),
        ensures
            final(self).wf(),
            final(self).users() == old(self).users(),
            erased(old(self).notes(), final(self).notes(), date@),
            !has_date(old(self).notes(), date@) ==> final(self).notes() == old(self).notes(),
    {
        let ghost before = self.notes();
        let key: Vec<char> = chars_of(date);
        let at = self.note_position(&key);
        if at.1 {
            let p: usize = at.0;
            self.notes.remove(p);
            proof {
                let after = self.notes();
                assert(after =~= before.remove(p as int));
                lemma_erased_remove(before, p as int);
                assert forall|i: int, j: int| 0 <= i < j < after.len() implies after[i].id
                    != after[j].id by {
                    let i0 = if i < p {
                        i
                    } else {
                        i + 1
                    };
                    let j0 = if j < p {
                        j
                    } else {
                        j + 1
                    };
                    assert(after[i] == before[i0] && after[j] == before[j0]);
                }
            }
        }
    }

    /// Adds `row` to the table of notes, unless its date or its identifier
    /// is already in use.
    pub fn insert_note(&mut self, row: Note) -> (r: Result<(), StorageError>)
        requires
            old(self).wf(),
        ensures
            final(self).wf(),
            final(self).users() == old(self).users(),
            r is Err <==> has_date(old(self).notes(), row@.date) || has_note_id(
                old(self).notes(),
                row@.id,
            ),
            match r {
                Ok(()) => written(old(self).notes(), final(self).notes(), row@.date, row@),
                Err(e) => {
                    &&& final(self).notes() == old(self).notes()
                    &&& e@ == StorageErrorView::unique_violation()
                },
            },
    {
        let key: Vec<char> = chars_of(row.date.as_str());
        let at = self.note_position(&key);
        if at.1 {
            Err(StorageError::unique_violation())
        } else {
            match self.upsert_note(row) {
                Ok(_) => Ok(()),
                Err(e) => Err(e),
            }
        }
    }

    /// The list views of all rows, in descending order of their dates.
    pub fn list_notes(&self) -> (out: Vec<NoteMetadata>)
        ensures
            out@.len() == self.notes().len(),
            out@.map_values(|m: NoteMetadata| m@) == listing(self.notes()),
    {
        let ghost rows = self.notes();
        let mut out: Vec<NoteMetadata> = Vec::new();
        let mut i: usize = 0;
        while i < self.notes.len()
            invariant
                i <= self.notes.len(),
                rows == self.notes(),
                rows.len() == self.notes.len(),
                out@.map_values(|m: NoteMetadata| m@) == listing(rows.take(i as int)),
            decreases self.notes.len() - i,
        {
            let meta = self.notes[i].to_metadata();
            let ghost shown = out@.map_values(|m: NoteMetadata| m@);
            out.push(meta);
            proof {
                assert(meta@ == rows[i as int].metadata());
                assert(out@.map_values(|m: NoteMetadata| m@) =~= shown.push(meta@));
                assert(listing(rows.take(i + 1)) =~= listing(rows.take(i as int)).push(
                    rows[i as int].metadata(),
                ));
            }
            i = i + 1;
        }
        proof {
            assert(rows.take(rows.len() as int) =~= rows);
        }
        out
    }

    /// The list views of the rows whose content matches `pattern`, in
    /// descending order of their dates.
    pub fn search_notes(&self, pattern: &str) -> (out: Vec<NoteMetadata>)
        ensures
            out@.len() == matching(self.notes(), pattern@).len(),
            out@.map_values(|m: NoteMetadata| m@) == listing(matching(self.notes(), pattern@)),
    {
        let ghost rows = self.notes();
        let wanted: Vec<char> = chars_of(pattern);
        let mut out: Vec<NoteMetadata> = Vec::new();
        let mut i: usize = 0;
        while i < self.notes.len()
            invariant
                i <= self.notes.len(),
                rows == self.notes(),
                rows.len() == self.notes.len(),
                wanted@ == pattern@,
                out@.map_values(|m: NoteMetadata| m@) == listing(
                    matching(rows.take(i as int), pattern@),
                ),
            decreases self.notes.len() - i,
        {
            let content: Vec<char> = chars_of(self.notes[i].content.as_str());
            proof {
                assert(rows.take(i + 1).drop_last() =~= rows.take(i as int));
                assert(rows.take(i + 1).last() == rows[i as int]);
            }
            if like(&wanted, &content) {
                let meta = self.notes[i].to_metadata();
                let ghost shown = out@.map_values(|m: NoteMetadata| m@);
                out.push(meta);
                proof {
                    assert(meta@ == rows[i as int].metadata());
                    assert(out@.map_values(|m: NoteMetadata| m@) =~= shown.push(meta@));
                    assert(listing(matching(rows.take(i + 1), pattern@)) =~= listing(
                        matching(rows.take(i as int), pattern@),
                    ).push(rows[i as int].metadata()));
                }
            }
            i = i + 1;
        }
        proof {
            assert(rows.take(rows.len() as int) =~= rows);
        }
        out
    }

    /// The index of the row with the identifier `id`, if there is one.
    fn user_position(&self, id: &String) -> (at: Option<usize>)
        ensures
            match at {
                Some(i) => i < self.users().len() && self.users()[i as int].id == id@,
                None => !has_user_id(self.users(), id@),
            },
    {
        let ghost rows = self.users();
        let mut i: usize = 0;
        while i < self.users.len()
            invariant
                i <= self.users.len(),
                rows == self.users(),
                rows.len() == self.users.len(),
                forall|k: int| 0 <= k < i ==> (#[trigger] rows[k]).id != id@,
            decreases self.users.len() - i,
        {
            if self.users[i].id == *id {
                assert(rows[i as int].id == id@);
                return Some(i);
            }
            i = i + 1;
        }
        None
    }

    /// The index of the row with the address `email`, if there is one.
    fn email_position(&self, email: &String) -> (at: Option<usize>)
        ensures
            match at {
                Some(i) => i < self.users().len() && self.users()[i as int].email == email@,
                None => !has_email(self.users(), email@),
            },
    {
        let ghost rows = self.users();
        let mut i: usize = 0;
        while i < self.users.len()
            invariant
                i <= self.users.len(),
                rows == self.users(),
                rows.len() == self.users.len(),
                forall|k: int| 0 <= k < i ==> (#[trigger] rows[k]).email != email@,
            decreases self.users.len() - i,
        {
            if self.users[i].email == *email {
                assert(rows[i as int].email == email@);
                return Some(i);
            }
            i = i + 1;
        }
        None
    }

    /// Adds `row` to the table of users, unless its identifier or its
    /// address is already in use.
    pub fn insert_user(&mut self, row: User) -> (r: Result<(), StorageError>)
        requires
            old(self).wf(),
        ensures
            final(self).wf(),
            final(self).notes() == old(self).notes(),
            r is Err <==> has_user_id(old(self).users(), row@.id) || has_email(
                old(self).users(),
                row@.email,
            ),
            match r {
                Ok(()) => {
                    &&& final(self).users() == old(self).users().push(row@)
                    &&& user_for(final(self).users(), row@.id) == Some(row@)
                    &&& has_email(final(self).users(), row@.email)
                },
                Err(e) => {
                    &&& final(self).users() == old(self).users()
                    &&& e@ == StorageErrorView::unique_violation()
                },
            },
    {
        let ghost before = self.users();
        if self.user_position(&row.id).is_some() || self.email_position(&row.email).is_some() {
            return Err(StorageError::unique_violation());
        }
        let ghost added = row@;
        self.users.push(row);
        proof {
            assert(self.users() =~= before.push(added));
            lemma_user_pushed(before, added);
        }
        Ok(())
    }

    /// The row stored under `id`, if there is one.
    pub fn find_user(&self, id: &str) -> (found: Option<User>)
        requires
            self.wf(),
        ensures
            match found {
                Some(u) => user_for(self.users(), id@) == Some(u@),
                None => user_for(self.users(), id@) is None,
            },
    {
        let key: String = id.to_string();
        match self.user_position(&key) {
            Some(i) => {
                proof {
                    lemma_user_for_row(self.users(), i as int);
                }
                Some(self.users[i].clone())
            },
            None => None,
        }
    }

    /// Writes the address, the name and the time of the change of `row` to
    /// the row stored under its identifier, unless another row has that
    /// address; without a row under that identifier, nothing changes.
    pub fn update_user(&mut self, row: &User) -> (r: Result<(), StorageError>)
        requires
            old(self).wf(),
        ensures
            final(self).wf(),
            final(self).notes() == old(self).notes(),
            r is Err <==> has_user_id(old(self).users(), row@.id) && email_of_another(
                old(self).users(),
                row@.id,
                row@.email,
            ),
            match r {
                Ok(()) => match user_for(old(self).users(), row@.id) {
                    Some(existing) => {
                        &&& final(self).users() == old(self).users().update(
                            user_index(old(self).users(), row@.id),
                            update_row(existing, row@),
                        )
                        &&& user_for(final(self).users(), row@.id) == Some(
                            update_row(existing, row@),
                        )
                    },
                    None => final(self).users() == old(self).users(),
                },
                Err(e) => {
                    &&& final(self).users() == old(self).users()
                    &&& e@ == StorageErrorView::unique_violation()
                },
            },
    {
        let ghost before = self.users();
        let at = self.user_position(&row.id);
        match at {
            None => Ok(()),
            Some(p) => {
                proof {
                    lemma_user_for_row(before, p as int);
                }
                let clash = self.email_position(&row.email);
                let taken: bool = match clash {
                    Some(j) => j != p,
                    None => false,
                };
                if taken {
                    proof {
                        let j = clash->0 as int;
                        if j < p {
                            assert(before[j].id != before[p as int].id);
                        } else {
                            assert(before[p as int].id != before[j].id);
                        }
                    }
                    return Err(StorageError::unique_violation());
                }
                proof {
                    if email_of_another(before, row@.id, row@.email) {
                        let k = choose|k: int|
                            0 <= k < before.len() && (#[trigger] before[k]).email == row@.email
                                && before[k].id != row@.id;
                        let j = clash->0 as int;
                        if k < j {
                            assert(before[k].email != before[j].email);
                        } else if j < k {
                            assert(before[j].email != before[k].email);
                        }
                    }
                }
                let kept: &User = &self.users[p];
                let merged = User {
                    id: kept.id.clone(),
                    email: row.email.clone(),
                    name: row.name.clone(),
                    created_at: kept.created_at.clone(),
                    updated_at: row.updated_at.clone(),
                };
                self.users.set(p, merged);
                proof {
                    assert(self.users() =~= before.update(p as int, merged@));
                    lemma_user_replaced(before, p as int, merged@);
                }
                Ok(())
            },
        }
    }

}

} // verus!
