//! Notes: saved by date, looked up, deleted, listed and searched.

use crate::db::{
    erased, has_date, has_note_id, has_random_note_id, lemma_note_for_row, listing, matching,
    note_for, notes_ordered, written, Database,
};
use crate::error::{AppError, AppErrorView, AppResult, StorageErrorView};
use crate::models::note::{CreateNoteDto, Note, NoteMetadata, NoteView, UpdateNoteDto};
use crate::pattern::{search_pattern, search_pattern_of};
use crate::stamp::{current_time, fresh_id, is_random_id, is_utc_stamp};
use crate::text::{chars_of, string_from_chars};
use vstd::prelude::*;
use vstd::string::StringExecFns;

verus! {

/// Every row has the word count that its content gives.
pub open spec fn all_consistent(rows: Seq<NoteView>) -> bool {
    forall|i: int| 0 <= i < rows.len() ==> (#[trigger] rows[i]).consistent()
}

/// The entry that a save leaves for its date: the entry that was there with
/// its content rewritten, or a new one under `id`.
pub open spec fn saved_note(
    existing: Option<NoteView>,
    date: Seq<char>,
    content: Seq<char>,
    id: Seq<char>,
    now: Seq<char>,
) -> NoteView {
    match existing {
        Some(e) => e.rewritten(content, now),
        None => NoteView::created(id, now, date, content),
    }
}

/// What a save of `content` for `date` that returned `note` has done to the
/// table: `note` is the entry that the save leaves, and it stands for `date`
/// in a table that is otherwise as before.
pub open spec fn saved(
    before: Seq<NoteView>,
    after: Seq<NoteView>,
    date: Seq<char>,
    content: Seq<char>,
    note: NoteView,
) -> bool {
    &&& note == saved_note(note_for(before, date), date, content, note.id, note.updated_at)
    &&& written(before, after, date, note)
}

/// What holds of an entry that was written now, whatever the clock and the
/// source of identifiers gave: its time of change is a time in UTC, and its
/// identifier, where the entry is new, has the shape of a random one.
pub open spec fn stamped_now(existing: Option<NoteView>, note: NoteView) -> bool {
    is_utc_stamp(note.updated_at) && (existing is None ==> is_random_id(note.id))
}

/// What a creation that returned `note` has done to the table: `note` is a
/// new entry of `content` for `date`, nothing was stored for that date, and
/// the table is otherwise as before.
pub open spec fn created(
    before: Seq<NoteView>,
    after: Seq<NoteView>,
    date: Seq<char>,
    content: Seq<char>,
    note: NoteView,
) -> bool {
    &&& note == NoteView::created(note.id, note.created_at, date, content)
    &&& !has_date(before, date)
    &&& !has_note_id(before, note.id)
    &&& written(before, after, date, note)
}

/// What an update that returned `note` has done to the table: `note` is the
/// entry that was stored for `date` with its content rewritten, and the
/// table is otherwise as before.
pub open spec fn rewritten(
    before: Seq<NoteView>,
    after: Seq<NoteView>,
    date: Seq<char>,
    content: Seq<char>,
    note: NoteView,
) -> bool {
    &&& has_date(before, date)
    &&& note == note_for(before, date)->0.rewritten(content, note.updated_at)
    &&& written(before, after, date, note)
}

/// What the update of an entry that is not there reports.
pub open spec fn missing_note(date: Seq<char>) -> Seq<char> {
    "Note not found for date: "@ + date
}

/// What the update of an entry that is not there reports.
pub fn missing_note_text(date: &str) -> (text: String)
    ensures
        text@ == missing_note(date@),
{
    "Note not found for date: ".to_string().concat(date)
}

/// A consistent table stays consistent when a consistent row is written.
pub proof fn lemma_consistent_after_write(
    before: Seq<NoteView>,
    after: Seq<NoteView>,
    date: Seq<char>,
    row: NoteView,
)
    requires
        notes_ordered(before),
        notes_ordered(after),
        written(before, after, date, row),
        all_consistent(before),
        row.consistent(),
    ensures
        all_consistent(after),
{
    assert forall|i: int| 0 <= i < after.len() implies (#[trigger] after[i]).consistent() by {
        lemma_note_for_row(after, i);
        let d = after[i].date;
        if d != date {
            assert(note_for(before, d) == Some(after[i]));
            let k = choose|k: int| 0 <= k < before.len() && (#[trigger] before[k]).date == d;
            assert(before[k].consistent());
        }
    }
}

/// A consistent table stays consistent when a date is erased.
pub proof fn lemma_consistent_after_delete(
    before: Seq<NoteView>,
    after: Seq<NoteView>,
    date: Seq<char>,
)
    requires
        notes_ordered(before),
        notes_ordered(after),
        erased(before, after, date),
        all_consistent(before),
    ensures
        all_consistent(after),
{
    assert forall|i: int| 0 <= i < after.len() implies (#[trigger] after[i]).consistent() by {
        lemma_note_for_row(after, i);
        let d = after[i].date;
        assert(note_for(before, d) == Some(after[i]));
        let k = choose|k: int| 0 <= k < before.len() && (#[trigger] before[k]).date == d;
        assert(before[k].consistent());
    }
}

/// The pattern that a search for `query` hands to the store.
pub fn like_pattern(query: &str) -> (pattern: String)
    ensures
        pattern@ == search_pattern_of(query@),
{
    string_from_chars(&search_pattern(&chars_of(query)))
}

/// The service for notes, over its store.
pub struct NoteService {
    db: Database,
}

impl NoteService {
    /// The store behind the service.
    pub closed spec fn db(&self) -> Database {
        self.db
    }

    /// The stored notes, in descending order of their dates.
    pub open spec fn notes(&self) -> Seq<NoteView> {
        self.db().notes()
    }

    /// What always holds of the service.
    pub open spec fn wf(&self) -> bool {
        self.db().wf()
    }

    /// A service over `db`.
    pub fn new(db: Database) -> (service: NoteService)
        ensures
            service.db() == db,
    {
        NoteService { db }
    }

    /// Adds a new entry for the date of `dto` under the identifier `id` at
    /// the time `now`; fails where the date or the identifier is in use.
    pub fn create_note_at(&mut self, dto: CreateNoteDto, id: String, now: String) -> (r: AppResult<
        Note,
    >)
        requires
            old(self).wf(),
        ensures
            final(self).wf(),
            final(self).db().users() == old(self).db().users(),
            all_consistent(old(self).notes()) ==> all_consistent(final(self).notes()),
            r is Err <==> has_date(old(self).notes(), dto.date@) || has_note_id(
                old(self).notes(),
                id@,
            ),
            match r {
                Ok(note) => {
                    &&& created(
                        old(self).notes(),
                        final(self).notes(),
                        dto.date@,
                        dto.content@,
                        note@,
                    )
                    &&& note@.id == id@
                    &&& note@.created_at == now@
                },
                Err(e) => {
                    &&& final(self).notes() == old(self).notes()
                    &&& e@ == AppErrorView::Database(StorageErrorView::unique_violation())
                },
            },
    {
        let note = Note::with_stamp(id, now, dto.date, dto.content);
        match self.db.insert_note(note.clone()) {
            Ok(()) => {
                proof {
                    if all_consistent(old(self).notes()) {
                        lemma_consistent_after_write(
                            old(self).notes(),
                            self.notes(),
                            note@.date,
                            note@,
                        );
                    }
                }
                Ok(note)
            },
            Err(e) => Err(AppError::from(e)),
        }
    }

    /// Adds a new entry for the date of `dto`, with a fresh identifier,
    /// created now. It fails where the date is in use, and otherwise only
    /// where the fresh identifier is one that a stored entry has.
    pub fn create_note(&mut self, dto: CreateNoteDto) -> (r: AppResult<Note>)
        requires
            old(self).wf(),
        ensures
            final(self).wf(),
            final(self).db().users() == old(self).db().users(),
            all_consistent(old(self).notes()) ==> all_consistent(final(self).notes()),
            has_date(old(self).notes(), dto.date@) ==> r is Err,
            r is Err ==> has_date(old(self).notes(), dto.date@) || has_random_note_id(
                old(self).notes(),
            ),
            match r {
                Ok(note) => {
                    &&& created(
                        old(self).notes(),
                        final(self).notes(),
                        dto.date@,
                        dto.content@,
                        note@,
                    )
                    &&& is_random_id(note@.id)
                    &&& is_utc_stamp(note@.created_at)
                },
                Err(e) => {
                    &&& final(self).notes() == old(self).notes()
                    &&& e@ == AppErrorView::Database(StorageErrorView::unique_violation())
                },
            },
    {
        let now: String = current_time();
        self.create_note_at(dto, fresh_id(), now)
    }

    /// The entry stored for `date`, if there is one.
    pub fn get_note(&self, date: &str) -> (r: AppResult<Option<Note>>)
        requires
            self.wf(),
        ensures
            match r {
                Ok(Some(note)) => note_for(self.notes(), date@) == Some(note@),
                Ok(None) => note_for(self.notes(), date@) is None,
                Err(_) => false,
            },
    {
        Ok(self.db.find_note(date))
    }

    /// Replaces the content of the entry stored for `date` at the time
    /// `now`; fails where there is none.
    pub fn update_note_at(&mut self, date: &str, dto: UpdateNoteDto, now: String) -> (r: AppResult<
        Note,
    >)
        requires
            old(self).wf(),
        ensures
            final(self).wf(),
            final(self).db().users() == old(self).db().users(),
            all_consistent(old(self).notes()) ==> all_consistent(final(self).notes()),
            r is Err <==> !has_date(old(self).notes(), date@),
            match r {
                Ok(note) => {
                    &&& rewritten(
                        old(self).notes(),
                        final(self).notes(),
                        date@,
                        dto.content@,
                        note@,
                    )
                    &&& note@.updated_at == now@
                },
                Err(e) => {
                    &&& final(self).notes() == old(self).notes()
                    &&& e@ == AppErrorView::NotFound(missing_note(date@))
                },
            },
    {
        match self.db.find_note(date) {
            None => Err(AppError::NotFound(missing_note_text(date))),
            Some(mut note) => {
                note.update_content_at(dto.content, now);
                match self.db.upsert_note(note) {
                    Ok(stored) => {
                        proof {
                            if all_consistent(old(self).notes()) {
                                lemma_consistent_after_write(
                                    old(self).notes(),
                                    self.notes(),
                                    date@,
                                    stored@,
                                );
                            }
                        }
                        Ok(stored)
                    },
                    // The entry is there, so the write meets no identifier in use.
                    Err(e) => Err(AppError::from(e)),
                }
            },
        }
    }

    /// Replaces the content of the entry stored for `date` now; fails where
    /// there is none.
    pub fn update_note(&mut self, date: &str, dto: UpdateNoteDto) -> (r: AppResult<Note>)
        requires
            old(self).wf(),
        ensures
            final(self).wf(),
            final(self).db().users() == old(self).db().users(),
            all_consistent(old(self).notes()) ==> all_consistent(final(self).notes()),
            r is Err <==> !has_date(old(self).notes(), date@),
            match r {
                Ok(note) => {
                    &&& rewritten(
                        old(self).notes(),
                        final(self).notes(),
                        date@,
                        dto.content@,
                        note@,
                    )
                    &&& is_utc_stamp(note@.updated_at)
                },
                Err(e) => {
                    &&& final(self).notes() == old(self).notes()
                    &&& e@ == AppErrorView::NotFound(missing_note(date@))
                },
            },
    {
        let now: String = current_time();
        self.update_note_at(date, dto, now)
    }

    /// Saves `content` for `date` at the time `now`, by one write to the
    /// store: an entry that is there keeps its identifier and its time of
    /// creation and takes the content; otherwise a new entry is written
    /// under `id`, which fails where `id` is in use.
    pub fn save_note_at(&mut self, date: String, content: String, id: String, now: String) -> (r:
        AppResult<Note>)
        requires
            old(self).wf(),
        ensures
            final(self).wf(),
            final(self).db().users() == old(self).db().users(),
            all_consistent(old(self).notes()) ==> all_consistent(final(self).notes()),
            r is Err <==> !has_date(old(self).notes(), date@) && has_note_id(
                old(self).notes(),
                id@,
            ),
            match r {
                Ok(note) => {
                    &&& saved(old(self).notes(), final(self).notes(), date@, content@, note@)
                    &&& note@.updated_at == now@
                    &&& !has_date(old(self).notes(), date@) ==> note@.id == id@
                },
                Err(e) => {
                    &&& final(self).notes() == old(self).notes()
                    &&& e@ == AppErrorView::Database(StorageErrorView::unique_violation())
                },
            },
    {
        let fresh = Note::with_stamp(id, now, date, content);
        match self.db.upsert_note(fresh) {
            Ok(stored) => {
                proof {
                    if all_consistent(old(self).notes()) {
                        lemma_consistent_after_write(
                            old(self).notes(),
                            self.notes(),
                            date@,
                            stored@,
                        );
                    }
                }
                Ok(stored)
            },
            Err(e) => Err(AppError::from(e)),
        }
    }

    /// Saves `content` for `date` now. An entry that is there keeps its
    /// identifier and its time of creation; otherwise a new entry is written
    /// under a fresh identifier. The save fails only where that identifier
    /// is one that a stored entry has.
    pub fn save_note(&mut self, date: String, content: String) -> (r: AppResult<Note>)
        requires
            old(self).wf(),
        ensures
            final(self).wf(),
            final(self).db().users() == old(self).db().users(),
            all_consistent(old(self).notes()) ==> all_consistent(final(self).notes()),
            has_date(old(self).notes(), date@) ==> r is Ok,
            r is Err ==> has_random_note_id(old(self).notes()),
            match r {
                Ok(note) => {
                    &&& saved(old(self).notes(), final(self).notes(), date@, content@, note@)
                    &&& stamped_now(note_for(old(self).notes(), date@), note@)
                },
                Err(e) => {
                    &&& !has_date(old(self).notes(), date@)
                    &&& final(self).notes() == old(self).notes()
                    &&& e@ == AppErrorView::Database(StorageErrorView::unique_violation())
                },
            },
    {
        let now: String = current_time();
        self.save_note_at(date, content, fresh_id(), now)
    }

    /// Removes the entry stored for `date`; without one, nothing changes.
    pub fn delete_note(&mut self, date: &str) -> (r: AppResult<()>)
        requires
            old(self).wf(),
        ensures
            final(self).wf(),
            final(self).db().users() == old(self).db().users(),
            all_consistent(old(self).notes()) ==> all_consistent(final(self).notes()),
            r is Ok,
            erased(old(self).notes(), final(self).notes(), date@),
            !has_date(old(self).notes(), date@) ==> final(self).notes() == old(self).notes(),
    {
        self.db.delete_note(date);
        proof {
            if all_consistent(old(self).notes()) {
                lemma_consistent_after_delete(old(self).notes(), self.notes(), date@);
            }
        }
        Ok(())
    }

    /// The list views of all entries, the latest date first.
    pub fn get_all_notes(&self) -> (r: AppResult<Vec<NoteMetadata>>)
        ensures
            match r {
                Ok(list) => {
                    &&& list@.len() == self.notes().len()
                    &&& list@.map_values(|m: NoteMetadata| m@) == listing(self.notes())
                },
                Err(_) => false,
            },
    {
        Ok(self.db.list_notes())
    }

    /// The list views of the entries whose content holds `query`, where `%`
    /// in the query stands for any run of characters and `_` for any one;
    /// the latest date first.
    pub fn search_notes(&self, query: &str) -> (r: AppResult<Vec<NoteMetadata>>)
        ensures
            match r {
                Ok(list) => {
                    &&& list@.len() == matching(self.notes(), search_pattern_of(query@)).len()
                    &&& list@.map_values(|m: NoteMetadata| m@) == listing(
                        matching(self.notes(), search_pattern_of(query@)),
                    )
                },
                Err(_) => false,
            },
    {
        let pattern: String = like_pattern(query);
        Ok(self.db.search_notes(pattern.as_str()))
    }
}

} // verus!
