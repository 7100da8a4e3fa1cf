//! The table of notes as a sequence of rows: what holds of it, how a row is
//! found in it, and what writing and erasing do to it.

use crate::models::note::{NoteMetadataView, NoteView};
use crate::order::{lemma_precedes_irreflexive, precedes};
use crate::pattern::like_matches;
use crate::stamp::is_random_id;
use vstd::prelude::*;

verus! {

/// The rows stand in descending order of their dates, so no date occurs
/// twice.
pub open spec fn notes_ordered(rows: Seq<NoteView>) -> bool {
    forall|i: int, j: int|
        #![trigger rows[i], rows[j]]
        0 <= i < j < rows.len() ==> precedes(rows[j].date, rows[i].date)
}

/// No identifier occurs twice among the rows.
pub open spec fn note_ids_distinct(rows: Seq<NoteView>) -> bool {
    forall|i: int, j: int|
        #![trigger rows[i], rows[j]]
        0 <= i < j < rows.len() ==> rows[i].id != rows[j].id
}

/// What always holds of the table of notes.
pub open spec fn notes_wf(rows: Seq<NoteView>) -> bool {
    notes_ordered(rows) && note_ids_distinct(rows)
}

/// Whether a row for `date` is stored.
pub open spec fn has_date(rows: Seq<NoteView>, date: Seq<char>) -> bool {
    exists|i: int| 0 <= i < rows.len() && (#[trigger] rows[i]).date == date
}

/// Whether a row with the identifier `id` is stored.
pub open spec fn has_note_id(rows: Seq<NoteView>, id: Seq<char>) -> bool {
    exists|i: int| 0 <= i < rows.len() && (#[trigger] rows[i]).id == id
}

/// Whether some stored identifier has the shape of a random one, so that a
/// fresh identifier can be one that is in use.
pub open spec fn has_random_note_id(rows: Seq<NoteView>) -> bool {
    exists|i: int| 0 <= i < rows.len() && is_random_id((#[trigger] rows[i]).id)
}

/// The row stored for `date`, where there is one.
pub open spec fn note_for(rows: Seq<NoteView>, date: Seq<char>) -> Option<NoteView> {
    if has_date(rows, date) {
        Some(rows[choose|i: int| 0 <= i < rows.len() && (#[trigger] rows[i]).date == date])
    } else {
        None
    }
}

/// What an upsert leaves in the place of a row: of the incoming row only
/// the content, the word count and the time of the change reach a row that
/// is already there.
pub open spec fn upsert_row(existing: Option<NoteView>, row: NoteView) -> NoteView {
    match existing {
        Some(e) => NoteView {
            content: row.content,
            word_count: row.word_count,
            updated_at: row.updated_at,
            ..e
        },
        None => row,
    }
}

/// `after` holds `row` for `date`, and for every other date what `before`
/// holds for it.
pub open spec fn written(
    before: Seq<NoteView>,
    after: Seq<NoteView>,
    date: Seq<char>,
    row: NoteView,
) -> bool {
    forall|d: Seq<char>| #[trigger]
        note_for(after, d) == if d == date {
            Some(row)
        } else {
            note_for(before, d)
        }
}

/// `after` holds nothing for `date`, and for every other date what `before`
/// holds for it.
pub open spec fn erased(before: Seq<NoteView>, after: Seq<NoteView>, date: Seq<char>) -> bool {
    forall|d: Seq<char>| #[trigger]
        note_for(after, d) == if d == date {
            None
        } else {
            note_for(before, d)
        }
}

/// In an ordered table the rows have different dates.
pub proof fn lemma_dates_distinct(rows: Seq<NoteView>, i: int, j: int)
    requires
        notes_ordered(rows),
        0 <= i < rows.len(),
        0 <= j < rows.len(),
        i != j,
    ensures
        rows[i].date != rows[j].date,
{
    if rows[i].date == rows[j].date {
        lemma_precedes_irreflexive(rows[i].date);
        if i < j {
            assert(precedes(rows[j].date, rows[i].date));
        } else {
            assert(precedes(rows[i].date, rows[j].date));
        }
    }
}

/// In an ordered table the row found for the date of a row is that row.
pub proof fn lemma_note_for_row(rows: Seq<NoteView>, i: int)
    requires
        notes_ordered(rows),
        0 <= i < rows.len(),
    ensures
        note_for(rows, rows[i].date) == Some(rows[i]),
{
    let d = rows[i].date;
    assert(has_date(rows, d));
    let k = choose|k: int| 0 <= k < rows.len() && (#[trigger] rows[k]).date == d;
    if k != i {
        lemma_dates_distinct(rows, i, k);
    }
}

/// Putting a row with a new date in its place writes it.
pub proof fn lemma_written_insert(before: Seq<NoteView>, p: int, row: NoteView)
    requires
        notes_ordered(before),
        0 <= p <= before.len(),
        notes_ordered(before.insert(p, row)),
    ensures
        written(before, before.insert(p, row), row.date, row),
{
    let after = before.insert(p, row);
    assert(after[p] == row);
    assert forall|d: Seq<char>| #[trigger]
        note_for(after, d) == if d == row.date {
            Some(row)
        } else {
            note_for(before, d)
        } by {
        if d == row.date {
            lemma_note_for_row(after, p);
        } else if has_date(before, d) {
            let k = choose|k: int| 0 <= k < before.len() && (#[trigger] before[k]).date == d;
            let i = if k < p {
                k
            } else {
                k + 1
            };
            assert(after[i] == before[k]);
            lemma_note_for_row(after, i);
            lemma_note_for_row(before, k);
        } else if has_date(after, d) {
            let i = choose|i: int| 0 <= i < after.len() && (#[trigger] after[i]).date == d;
            let k = if i < p {
                i
            } else {
                i - 1
            };
            assert(i != p);
            assert(after[i] == before[k]);
        }
    }
}

/// Replacing a row by one of the same date writes it.
pub proof fn lemma_written_update(before: Seq<NoteView>, p: int, row: NoteView)
    requires
        notes_ordered(before),
        0 <= p < before.len(),
        row.date == before[p].date,
    ensures
        notes_ordered(before.update(p, row)),
        written(before, before.update(p, row), row.date, row),
{
    let after = before.update(p, row);
    assert forall|i: int, j: int| 0 <= i < j < after.len() implies precedes(
        after[j].date,
        after[i].date,
    ) by {
        assert(after[i].date == before[i].date && after[j].date == before[j].date);
    }
    assert forall|d: Seq<char>| #[trigger]
        note_for(after, d) == if d == row.date {
            Some(row)
        } else {
            note_for(before, d)
        } by {
        if d == row.date {
            assert(after[p] == row);
            lemma_note_for_row(after, p);
        } else if has_date(before, d) {
            let k = choose|k: int| 0 <= k < before.len() && (#[trigger] before[k]).date == d;
            assert(after[k] == before[k]);
            lemma_note_for_row(after, k);
            lemma_note_for_row(before, k);
        } else if has_date(after, d) {
            let i = choose|i: int| 0 <= i < after.len() && (#[trigger] after[i]).date == d;
            assert(after[i].date == before[i].date);
        }
    }
}

/// Taking a row out erases its date.
pub proof fn lemma_erased_remove(before: Seq<NoteView>, p: int)
    requires
        notes_ordered(before),
        0 <= p < before.len(),
    ensures
        notes_ordered(before.remove(p)),
        erased(before, before.remove(p), before[p].date),
{
    let after = before.remove(p);
    assert forall|i: int, j: int| 0 <= i < j < after.len() implies precedes(
        after[j].date,
        after[i].date,
    ) by {
        let i0 = if i < p {
            i
        } else {
            i + 1
        };
        let j0 = if j < p {
            j
        } else {
            j + 1
        };
        assert(after[i] == before[i0] && after[j] == before[j0]);
    }
    assert forall|d: Seq<char>| #[trigger]
        note_for(after, d) == if d == before[p].date {
            None
        } else {
            note_for(before, d)
        } by {
        if has_date(after, d) {
            let i = choose|i: int| 0 <= i < after.len() && (#[trigger] after[i]).date == d;
            let k = if i < p {
                i
            } else {
                i + 1
            };
            assert(after[i] == before[k]);
            lemma_dates_distinct(before, k, p);
            lemma_note_for_row(after, i);
            lemma_note_for_row(before, k);
        } else if d != before[p].date && has_date(before, d) {
            let k = choose|k: int| 0 <= k < before.len() && (#[trigger] before[k]).date == d;
            let i = if k < p {
                k
            } else {
                k - 1
            };
            assert(after[i] == before[k]);
        }
    }
}

/// The list views of `rows`, in their order.
pub open spec fn listing(rows: Seq<NoteView>) -> Seq<NoteMetadataView> {
    rows.map_values(|n: NoteView| n.metadata())
}

/// The rows whose content matches `pattern`, in the order of `rows`.
pub open spec fn matching(rows: Seq<NoteView>, pattern: Seq<char>) -> Seq<NoteView>
    decreases rows.len(),
{
    if rows.len() == 0 {
        rows
    } else {
        let rest = matching(rows.drop_last(), pattern);
        if like_matches(pattern, rows.last().content) {
            rest.push(rows.last())
        } else {
            rest
        }
    }
}

/// The matching rows are just the rows that match.
pub proof fn lemma_matching_members(rows: Seq<NoteView>, pattern: Seq<char>, n: NoteView)
    ensures
        matching(rows, pattern).contains(n) <==> rows.contains(n) && like_matches(
            pattern,
            n.content,
        ),
    decreases rows.len(),
{
    if rows.len() > 0 {
        let front = rows.drop_last();
        let rest = matching(front, pattern);
        lemma_matching_members(front, pattern, n);
        if rows.contains(n) {
            let i = choose|i: int| 0 <= i < rows.len() && rows[i] == n;
            if i < front.len() {
                assert(front[i] == n);
            }
        }
        if front.contains(n) {
            let i = choose|i: int| 0 <= i < front.len() && front[i] == n;
            assert(rows[i] == n);
        }
        assert(rows[rows.len() - 1] == rows.last());
        if like_matches(pattern, rows.last().content) {
            let out = rest.push(rows.last());
            assert(out[rest.len() as int] == rows.last());
            if rest.contains(n) {
                let i = choose|i: int| 0 <= i < rest.len() && rest[i] == n;
                assert(out[i] == n);
            }
            if out.contains(n) {
                let i = choose|i: int| 0 <= i < out.len() && out[i] == n;
                if i < rest.len() {
                    assert(rest[i] == n);
                }
            }
        }
    }
}

/// The matching rows of an ordered table are ordered.
pub proof fn lemma_matching_ordered(rows: Seq<NoteView>, pattern: Seq<char>)
    requires
        notes_ordered(rows),
    ensures
        notes_ordered(matching(rows, pattern)),
    decreases rows.len(),
{
    if rows.len() > 0 {
        let front = rows.drop_last();
        let rest = matching(front, pattern);
        assert forall|i: int, j: int| 0 <= i < j < front.len() implies precedes(
            front[j].date,
            front[i].date,
        ) by {
            assert(front[i] == rows[i] && front[j] == rows[j]);
        }
        lemma_matching_ordered(front, pattern);
        if like_matches(pattern, rows.last().content) {
            let out = rest.push(rows.last());
            assert forall|i: int, j: int| 0 <= i < j < out.len() implies precedes(
                out[j].date,
                out[i].date,
            ) by {
                if j == rest.len() {
                    assert(rest.contains(rest[i]));
                    lemma_matching_members(front, pattern, rest[i]);
                    let k = choose|k: int| 0 <= k < front.len() && front[k] == rest[i];
                    assert(rows[k] == out[i]);
                    assert(rows[rows.len() - 1] == out[j]);
                } else {
                    assert(out[i] == rest[i] && out[j] == rest[j]);
                }
            }
        }
    }
}

} // verus!
