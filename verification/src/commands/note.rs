//! The operations on notes at the boundary.

use crate::db::{erased, has_date, has_random_note_id, listing, matching, note_for};
use crate::error::{AppErrorView, FrontendError, StorageErrorView};
use crate::models::note::{Note, NoteMetadata};
use crate::pattern::search_pattern_of;
use crate::services::note_service::{all_consistent, saved, stamped_now, NoteService};
use vstd::prelude::*;

verus! {

/// Saves `content` for `date`: the entry for that date is rewritten, or
/// a new one is made. The save fails only where the fresh identifier of a
/// new entry is one that a stored entry has.
pub fn save_note(service: &mut NoteService, date: String, content: String) -> (r: Result<
    Note,
    FrontendError,
>)
    requires
        old(service).wf(),
    ensures
        final(service).wf(),
        final(service).db().users() == old(service).db().users(),
        all_consistent(old(service).notes()) ==> all_consistent(final(service).notes()),
        has_date(old(service).notes(), date@) ==> r is Ok,
        r is Err ==> has_random_note_id(old(service).notes()),
        match r {
            Ok(note) => {
                &&& saved(old(service).notes(), final(service).notes(), date@, content@, note@)
                &&& stamped_now(note_for(old(service).notes(), date@), note@)
            },
            Err(shown) => {
                &&& !has_date(old(service).notes(), date@)
                &&& final(service).notes() == old(service).notes()
                &&& shown@ == AppErrorView::Database(StorageErrorView::unique_violation()).shown()
            },
        },
{
    match service.save_note(date, content) {
        Ok(note) => Ok(note),
        Err(e) => Err(FrontendError::from(e)),
    }
}

/// The entry stored for `date`, if there is one.
pub fn get_note(service: &NoteService, date: String) -> (r: Result<Option<Note>, FrontendError>)
    requires
        service.wf(),
    ensures
        match r {
            Ok(Some(note)) => note_for(service.notes(), date@) == Some(note@),
            Ok(None) => note_for(service.notes(), date@) is None,
            Err(_) => false,
        },
{
    match service.get_note(date.as_str()) {
        Ok(found) => Ok(found),
        Err(e) => Err(FrontendError::from(e)),
    }
}

/// Removes the entry stored for `date`; without one, nothing changes.
pub fn delete_note(service: &mut NoteService, date: String) -> (r: Result<(), FrontendError>)
    requires
        old(service).wf(),
    ensures
        final(service).wf(),
        final(service).db().users() == old(service).db().users(),
        all_consistent(old(service).notes()) ==> all_consistent(final(service).notes()),
        r is Ok,
        erased(old(service).notes(), final(service).notes(), date@),
        !has_date(old(service).notes(), date@) ==> final(service).notes() == old(service).notes(),
{
    match service.delete_note(date.as_str()) {
        Ok(()) => Ok(()),
        Err(e) => Err(FrontendError::from(e)),
    }
}

/// The list views of all entries, the latest date first.
pub fn get_all_notes(service: &NoteService) -> (r: Result<Vec<NoteMetadata>, FrontendError>)
    ensures
        match r {
            Ok(list) => {
                &&& list@.len() == service.notes().len()
                &&& list@.map_values(|m: NoteMetadata| m@) == listing(service.notes())
            },
            Err(_) => false,
        },
{
    match service.get_all_notes() {
        Ok(list) => Ok(list),
        Err(e) => Err(FrontendError::from(e)),
    }
}

/// The list views of the entries whose content holds `query`, where `%` in
/// the query stands for any run of characters and `_` for any one; the
/// latest date first.
pub fn search_notes(service: &NoteService, query: String) -> (r: Result<
    Vec<NoteMetadata>,
    FrontendError,
>)
    ensures
        match r {
            Ok(list) => {
                &&& list@.len() == matching(service.notes(), search_pattern_of(query@)).len()
                &&& list@.map_values(|m: NoteMetadata| m@) == listing(
                    matching(service.notes(), search_pattern_of(query@)),
                )
            },
            Err(_) => false,
        },
{
    match service.search_notes(query.as_str()) {
        Ok(list) => Ok(list),
        Err(e) => Err(FrontendError::from(e)),
    }
}

} // verus!
