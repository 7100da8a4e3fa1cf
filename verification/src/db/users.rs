//! The table of users as a sequence of rows: what holds of it, how a row is
//! found in it, and what adding and replacing do to it.

use crate::models::user::UserView;
use crate::stamp::is_random_id;
use vstd::prelude::*;

verus! {

/// No identifier and no address occurs twice among the rows.
pub open spec fn users_wf(rows: Seq<UserView>) -> bool {
    forall|i: int, j: int|
        #![trigger rows[i], rows[j]]
        0 <= i < j < rows.len() ==> rows[i].id != rows[j].id && rows[i].email != rows[j].email
}

/// Whether a row with the identifier `id` is stored.
pub open spec fn has_user_id(rows: Seq<UserView>, id: Seq<char>) -> bool {
    exists|i: int| 0 <= i < rows.len() && (#[trigger] rows[i]).id == id
}

/// Whether a row with the address `email` is stored.
pub open spec fn has_email(rows: Seq<UserView>, email: Seq<char>) -> bool {
    exists|i: int| 0 <= i < rows.len() && (#[trigger] rows[i]).email == email
}

/// Whether some stored identifier has the shape of a random one, so that a
/// fresh identifier can be one that is in use.
pub open spec fn has_random_user_id(rows: Seq<UserView>) -> bool {
    exists|i: int| 0 <= i < rows.len() && is_random_id((#[trigger] rows[i]).id)
}

/// Whether a row other than the one of `id` has the address `email`.
pub open spec fn email_of_another(rows: Seq<UserView>, id: Seq<char>, email: Seq<char>) -> bool {
    exists|i: int| 0 <= i < rows.len() && (#[trigger] rows[i]).email == email && rows[i].id != id
}

/// The index of the row stored under `id`, where there is one.
pub open spec fn user_index(rows: Seq<UserView>, id: Seq<char>) -> int {
    choose|i: int| 0 <= i < rows.len() && (#[trigger] rows[i]).id == id
}

/// The row stored under `id`, where there is one.
pub open spec fn user_for(rows: Seq<UserView>, id: Seq<char>) -> Option<UserView> {
    if has_user_id(rows, id) {
        Some(rows[user_index(rows, id)])
    } else {
        None
    }
}

/// What an update leaves in the place of a row: the address, the name and
/// the time of the change come from the incoming row, the rest stays.
pub open spec fn update_row(existing: UserView, row: UserView) -> UserView {
    UserView { email: row.email, name: row.name, updated_at: row.updated_at, ..existing }
}

/// The row found under the identifier of a row is that row.
pub proof fn lemma_user_for_row(rows: Seq<UserView>, i: int)
    requires
        users_wf(rows),
        0 <= i < rows.len(),
    ensures
        user_index(rows, rows[i].id) == i,
        user_for(rows, rows[i].id) == Some(rows[i]),
{
    let id = rows[i].id;
    assert(has_user_id(rows, id));
    let k = user_index(rows, id);
    if k < i {
        assert(rows[k].id != rows[i].id);
    } else if i < k {
        assert(rows[i].id != rows[k].id);
    }
}

/// A table with a row added, whose identifier and address were free, is
/// well formed; the row is found under its identifier, its address is in
/// use, and whatever else was found or in use is so still.
pub proof fn lemma_user_pushed(before: Seq<UserView>, row: UserView)
    requires
        users_wf(before),
        !has_user_id(before, row.id),
        !has_email(before, row.email),
    ensures
        users_wf(before.push(row)),
        user_for(before.push(row), row.id) == Some(row),
        has_email(before.push(row), row.email),
        forall|id: Seq<char>|
            id != row.id ==> #[trigger] user_for(before.push(row), id) == user_for(before, id),
        forall|e: Seq<char>|
            e != row.email ==> #[trigger] has_email(before.push(row), e) == has_email(before, e),
{
    let after = before.push(row);
    let last = before.len() as int;
    assert(after[last] == row);
    assert forall|i: int, j: int| 0 <= i < j < after.len() implies after[i].id != after[j].id
        && after[i].email != after[j].email by {
        assert(after[i] == before[i]);
        if j < before.len() {
            assert(after[j] == before[j]);
        }
    }
    lemma_user_for_row(after, last);
    assert forall|id: Seq<char>| id != row.id implies #[trigger] user_for(after, id) == user_for(
        before,
        id,
    ) by {
        if has_user_id(before, id) {
            let k = user_index(before, id);
            assert(after[k] == before[k]);
            lemma_user_for_row(after, k);
            lemma_user_for_row(before, k);
        } else if has_user_id(after, id) {
            let i = user_index(after, id);
            assert(after[i] == before[i]);
        }
    }
    assert forall|e: Seq<char>| e != row.email implies #[trigger] has_email(after, e) == has_email(
        before,
        e,
    ) by {
        if has_email(before, e) {
            let k = choose|k: int| 0 <= k < before.len() && (#[trigger] before[k]).email == e;
            assert(after[k] == before[k]);
        } else if has_email(after, e) {
            let i = choose|i: int| 0 <= i < after.len() && (#[trigger] after[i]).email == e;
            assert(after[i] == before[i]);
        }
    }
}

/// A table with a row replaced by one of the same identifier, whose
/// address no other row has, is well formed; the new row is found under
/// that identifier, and every other row as before.
pub proof fn lemma_user_replaced(before: Seq<UserView>, p: int, row: UserView)
    requires
        users_wf(before),
        0 <= p < before.len(),
        row.id == before[p].id,
        !email_of_another(before, row.id, row.email),
    ensures
        users_wf(before.update(p, row)),
        user_for(before.update(p, row), row.id) == Some(row),
        forall|id: Seq<char>|
            id != row.id ==> #[trigger] user_for(before.update(p, row), id) == user_for(before, id),
{
    let after = before.update(p, row);
    assert(after[p] == row);
    assert forall|i: int, j: int| 0 <= i < j < after.len() implies after[i].id != after[j].id
        && after[i].email != after[j].email by {
        assert(before[i].id != before[j].id && before[i].email != before[j].email);
        if i != p {
            assert(after[i] == before[i]);
        }
        if j != p {
            assert(after[j] == before[j]);
        }
    }
    lemma_user_for_row(after, p);
    assert forall|id: Seq<char>| id != row.id implies #[trigger] user_for(after, id) == user_for(
        before,
        id,
    ) by {
        if has_user_id(before, id) {
            let k = user_index(before, id);
            assert(after[k] == before[k]);
            lemma_user_for_row(after, k);
            lemma_user_for_row(before, k);
        } else if has_user_id(after, id) {
            let i = user_index(after, id);
            assert(after[i].id == before[i].id);
        }
    }
}

} // verus!
