//! A journal entry, keyed by its calendar date, and its list view.

use crate::stamp::{current_time, fresh_id, is_random_id, is_utc_stamp};
use crate::text::{
    chars_of, count_words, make_preview, preview_of, string_from_chars, word_count_of,
};
use vstd::prelude::*;

verus! {

/// The number of characters that a list preview keeps of a note.
pub const PREVIEW_LENGTH: usize = 100;

/// One journal entry.
#[derive(Debug)]
pub struct Note {
    pub id: String,
    /// The calendar date, written `YYYY-MM-DD`.
    pub date: String,
    pub content: String,
    pub word_count: i32,
    pub created_at: String,
    pub updated_at: String,
}

/// What a `Note` holds.
pub struct NoteView {
    pub id: Seq<char>,
    pub date: Seq<char>,
    pub content: Seq<char>,
    pub word_count: i32,
    pub created_at: Seq<char>,
    pub updated_at: Seq<char>,
}

impl View for Note {
    type V = NoteView;

    open spec fn view(&self) -> NoteView {
        NoteView {
            id: self.id@,
            date: self.date@,
            content: self.content@,
            word_count: self.word_count,
            created_at: self.created_at@,
            updated_at: self.updated_at@,
        }
    }
}

impl NoteView {
    /// The stored word count is the one that the content gives.
    pub open spec fn consistent(self) -> bool {
        self.word_count == word_count_of(self.content)
    }

    /// The entry that is first written for `date`.
    pub open spec fn created(
        id: Seq<char>,
        now: Seq<char>,
        date: Seq<char>,
        content: Seq<char>,
    ) -> NoteView {
        NoteView {
            id,
            date,
            content,
            word_count: word_count_of(content),
            created_at: now,
            updated_at: now,
        }
    }

    /// This entry after its content was replaced at the time `now`.
    pub open spec fn rewritten(self, content: Seq<char>, now: Seq<char>) -> NoteView {
        NoteView { content, word_count: word_count_of(content), updated_at: now, ..self }
    }

    /// The list view of this entry.
    pub open spec fn metadata(self) -> NoteMetadataView {
        NoteMetadataView {
            id: self.id,
            date: self.date,
            word_count: self.word_count,
            preview: preview_of(self.content, PREVIEW_LENGTH as nat),
            updated_at: self.updated_at,
        }
    }
}

/// The request to create an entry.
#[derive(Debug)]
pub struct CreateNoteDto {
    pub date: String,
    pub content: String,
}

/// The request to replace an entry's content.
#[derive(Debug)]
pub struct UpdateNoteDto {
    pub content: String,
}

/// The list view of an entry: what identifies it and a preview in place of
/// its content.
#[derive(Debug)]
pub struct NoteMetadata {
    pub id: String,
    pub date: String,
    pub word_count: i32,
    pub preview: String,
    pub updated_at: String,
}

/// What a `NoteMetadata` holds.
pub struct NoteMetadataView {
    pub id: Seq<char>,
    pub date: Seq<char>,
    pub word_count: i32,
    pub preview: Seq<char>,
    pub updated_at: Seq<char>,
}

impl View for NoteMetadata {
    type V = NoteMetadataView;

    open spec fn view(&self) -> NoteMetadataView {
        NoteMetadataView {
            id: self.id@,
            date: self.date@,
            word_count: self.word_count,
            preview: self.preview@,
            updated_at: self.updated_at@,
        }
    }
}

impl Clone for Note {
    fn clone(&self) -> (copy: Self)
        ensures
            copy@ == self@,
    {
        Note {
            id: self.id.clone(),
            date: self.date.clone(),
            content: self.content.clone(),
            word_count: self.word_count,
            created_at: self.created_at.clone(),
            updated_at: self.updated_at.clone(),
        }
    }
}

impl Clone for NoteMetadata {
    fn clone(&self) -> (copy: Self)
        ensures
            copy@ == self@,
    {
        NoteMetadata {
            id: self.id.clone(),
            date: self.date.clone(),
            word_count: self.word_count,
            preview: self.preview.clone(),
            updated_at: self.updated_at.clone(),
        }
    }
}

impl Note {
    /// The entry first written for `date` under the identifier `id` at the
    /// time `now`.
    pub fn with_stamp(id: String, now: String, date: String, content: String) -> (note: Note)
        ensures
            note@ == NoteView::created(id@, now@, date@, content@),
            note@.consistent(),
    {
        let word_count: i32 = count_words(&chars_of(content.as_str()));
        Note { id, date, content, word_count, created_at: now.clone(), updated_at: now }
    }

    /// A new entry for `date`, with a fresh identifier, created now.
    pub fn new(date: String, content: String) -> (note: Note)
        ensures
            note@ == NoteView::created(note@.id, note@.created_at, date@, content@),
            note@.consistent(),
            is_random_id(note@.id),
            is_utc_stamp(note@.created_at),
    {
        let now: String = current_time();
        Note::with_stamp(fresh_id(), now, date, content)
    }

    /// Replaces the content at the time `now`; the word count follows.
    pub fn update_content_at(&mut self, content: String, now: String)
        ensures
            final(self)@ == old(self)@.rewritten(content@, now@),
            final(self)@.consistent(),
    {
        self.word_count = count_words(&chars_of(content.as_str()));
        self.content = content;
        self.updated_at = now;
    }

    /// Replaces the content now; the word count follows.
    pub fn update_content(&mut self, content: String)
        ensures
            final(self)@ == old(self)@.rewritten(content@, final(self)@.updated_at),
            final(self)@.consistent(),
            is_utc_stamp(final(self)@.updated_at),
    {
        let now: String = current_time();
        self.update_content_at(content, now);
    }

    /// The first `length` characters of the cleaned content, followed by an
    /// ellipsis if more were left; the whole cleaned content otherwise.
    pub fn get_preview(&self, length: usize) -> (preview: String)
        ensures
            preview@ == preview_of(self@.content, length as nat),
    {
        string_from_chars(&make_preview(&chars_of(self.content.as_str()), length))
    }

    /// The list view of this entry.
    pub fn to_metadata(&self) -> (meta: NoteMetadata)
        ensures
            meta@ == self@.metadata(),
    {
        let preview: String = self.get_preview(PREVIEW_LENGTH);
        NoteMetadata {
            id: self.id.clone(),
            date: self.date.clone(),
            word_count: self.word_count,
            preview,
            updated_at: self.updated_at.clone(),
        }
    }
}

} // verus!
