//! What holds of the notes across calls.

use crate::db::{
    erased, has_date, lemma_dates_distinct, lemma_matching_members, lemma_matching_ordered,
    listing, matching, note_for, notes_ordered,
};
use crate::models::note::NoteView;
use crate::order::precedes;
use crate::pattern::{
    has_wildcard, lemma_search_is_containment, like_matches, occurs_in, search_pattern_of,
};
use crate::services::note_service::saved;
use crate::text::word_count_of;
use vstd::prelude::*;

verus! {

/// The row found for a date is the one row of the table with that date.
pub proof fn lemma_one_row_for_date(rows: Seq<NoteView>, date: Seq<char>, row: NoteView)
    requires
        notes_ordered(rows),
        note_for(rows, date) == Some(row),
    ensures
        exists|i: int|
            0 <= i < rows.len() && #[trigger] rows[i] == row && forall|j: int|
                0 <= j < rows.len() && (#[trigger] rows[j]).date == date ==> j == i,
{
    assert(has_date(rows, date));
    let i = choose|i: int| 0 <= i < rows.len() && (#[trigger] rows[i]).date == date;
    assert forall|j: int| 0 <= j < rows.len() && (#[trigger] rows[j]).date == date implies j
        == i by {
        if j != i {
            lemma_dates_distinct(rows, i, j);
        }
    }
}

/// Two saves for one date, of `c1` and then of `c2`, leave exactly one row
/// for that date: it has the identifier and the time of creation that the
/// first save returned, the content `c2` and the word count of `c2`.
pub proof fn lemma_save_twice(
    s0: Seq<NoteView>,
    s1: Seq<NoteView>,
    s2: Seq<NoteView>,
    date: Seq<char>,
    c1: Seq<char>,
    c2: Seq<char>,
    n1: NoteView,
    n2: NoteView,
)
    requires
        notes_ordered(s2),
        saved(s0, s1, date, c1, n1),
        saved(s1, s2, date, c2, n2),
    ensures
        n2.id == n1.id,
        n2.created_at == n1.created_at,
        n2.date == date,
        n2.content == c2,
        n2.word_count == word_count_of(c2),
        note_for(s2, date) == Some(n2),
        exists|i: int|
            0 <= i < s2.len() && #[trigger] s2[i] == n2 && forall|j: int|
                0 <= j < s2.len() && (#[trigger] s2[j]).date == date ==> j == i,
{
    assert(note_for(s1, date) == Some(n1));
    assert(note_for(s2, date) == Some(n2));
    lemma_one_row_for_date(s2, date, n2);
}

/// After the row of a date was deleted, a lookup of that date finds
/// nothing, and every other date is found as before.
pub proof fn lemma_absent_after_delete(
    before: Seq<NoteView>,
    after: Seq<NoteView>,
    date: Seq<char>,
    other: Seq<char>,
)
    requires
        erased(before, after, date),
    ensures
        note_for(after, date) is None,
        other != date ==> note_for(after, other) == note_for(before, other),
{
    assert(note_for(after, date) is None);
    assert(other != date ==> note_for(after, other) == note_for(before, other));
}

/// A search for `query` finds just the stored entries whose content matches
/// the query read as a pattern; where the query holds no wildcard
/// character, these are the entries in whose content the query stands.
pub proof fn lemma_search_finds(rows: Seq<NoteView>, query: Seq<char>, n: NoteView)
    ensures
        matching(rows, search_pattern_of(query)).contains(n) <==> rows.contains(n) && like_matches(
            search_pattern_of(query),
            n.content,
        ),
        !has_wildcard(query) ==> (matching(rows, search_pattern_of(query)).contains(n)
            <==> rows.contains(n) && occurs_in(query, n.content)),
{
    lemma_matching_members(rows, search_pattern_of(query), n);
    if !has_wildcard(query) {
        lemma_search_is_containment(query, n.content);
    }
}

/// The list of all entries, and the list that a search returns, stand in
/// strictly descending order of their dates.
pub proof fn lemma_lists_descend(rows: Seq<NoteView>, pattern: Seq<char>, i: int, j: int)
    requires
        notes_ordered(rows),
        0 <= i < j,
    ensures
        j < rows.len() ==> precedes(listing(rows)[j].date, listing(rows)[i].date) && listing(
            rows,
        )[j].date != listing(rows)[i].date,
        j < matching(rows, pattern).len() ==> precedes(
            listing(matching(rows, pattern))[j].date,
            listing(matching(rows, pattern))[i].date,
        ) && listing(matching(rows, pattern))[j].date != listing(matching(rows, pattern))[i].date,
{
    if j < rows.len() {
        assert(precedes(rows[j].date, rows[i].date));
        lemma_dates_distinct(rows, i, j);
    }
    let found = matching(rows, pattern);
    lemma_matching_ordered(rows, pattern);
    if j < found.len() {
        assert(precedes(found[j].date, found[i].date));
        lemma_dates_distinct(found, i, j);
    }
}

} // verus!
