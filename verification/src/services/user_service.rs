//! User profiles: created, looked up by identifier, updated field by field.

use crate::db::{
    email_of_another, has_email, has_random_user_id, has_user_id, user_for, user_index, users_wf,
    Database,
};
use crate::error::{AppError, AppErrorView, AppResult, StorageErrorView};
use crate::models::user::{UpdateUserDto, UpdateUserDtoView, User, UserView};
use crate::stamp::{current_time, fresh_id, is_random_id, is_utc_stamp};
use vstd::prelude::*;
use vstd::string::StringExecFns;

verus! {

/// What is reported of a profile that is not there: the text names the
/// identifier that was asked for.
pub open spec fn missing_user(id: Seq<char>) -> Seq<char> {
    "User not found: "@ + id
}

/// What a creation that returned `user` has done to the table: `user` is a
/// new profile of `email` and `name`, neither its identifier nor its address
/// was in use, and it stands behind the rows that were there.
pub open spec fn created(
    before: Seq<UserView>,
    after: Seq<UserView>,
    email: Seq<char>,
    name: Seq<char>,
    user: UserView,
) -> bool {
    &&& user == UserView::created(user.id, user.created_at, email, name)
    &&& !has_user_id(before, user.id)
    &&& !has_email(before, email)
    &&& after == before.push(user)
    &&& user_for(after, user.id) == Some(user)
    &&& has_email(after, email)
}

/// What an update that returned `user` has done to the table: `user` is
/// the profile that was stored under `id` with the fields present in `dto`
/// taken over, and it stands in the place of that profile.
pub open spec fn updated(
    before: Seq<UserView>,
    after: Seq<UserView>,
    id: Seq<char>,
    dto: UpdateUserDtoView,
    user: UserView,
) -> bool {
    &&& has_user_id(before, id)
    &&& user == user_for(before, id)->0.merged(dto, user.updated_at)
    &&& after == before.update(user_index(before, id), user)
    &&& user_for(after, id) == Some(user)
}

/// Whether an update of the profile under `id` by `dto` can be written:
/// there is such a profile, and no other profile has the address that the
/// update leaves.
pub open spec fn can_update(rows: Seq<UserView>, id: Seq<char>, dto: UpdateUserDtoView) -> bool {
    has_user_id(rows, id) && !email_of_another(rows, id, user_for(rows, id)->0.email_after(dto))
}

/// What an update that cannot be written reports: that the profile is not
/// there, or, of a profile that is there, that the store refused an address
/// in use.
pub open spec fn update_failure(rows: Seq<UserView>, id: Seq<char>) -> AppErrorView {
    if has_user_id(rows, id) {
        AppErrorView::Database(StorageErrorView::unique_violation())
    } else {
        AppErrorView::NotFound(missing_user(id))
    }
}

/// What is reported of a profile that is not there.
pub fn missing_user_text(user_id: &str) -> (text: String)
    ensures
        text@ == missing_user(user_id@),
{
    "User not found: ".to_string().concat(user_id)
}

/// A partial update without an address leaves the address as it is, and
/// one without a name the name; the identifier and the time of creation
/// stay in any case.
pub proof fn lemma_absent_fields_stay(user: UserView, dto: UpdateUserDtoView, now: Seq<char>)
    ensures
        dto.email is None ==> user.merged(dto, now).email == user.email,
        dto.name is None ==> user.merged(dto, now).name == user.name,
        dto.email is Some ==> user.merged(dto, now).email == dto.email->0,
        dto.name is Some ==> user.merged(dto, now).name == dto.name->0,
        user.merged(dto, now).id == user.id,
        user.merged(dto, now).created_at == user.created_at,
        user.merged(dto, now).updated_at == now,
{
}

/// No other row has the address of a stored row, so an update that leaves
/// the address as it is can be written.
pub proof fn lemma_own_email_is_free(rows: Seq<UserView>, id: Seq<char>, dto: UpdateUserDtoView)
    requires
        users_wf(rows),
        has_user_id(rows, id),
    ensures
        !email_of_another(rows, id, user_for(rows, id)->0.email),
        dto.email is None ==> can_update(rows, id, dto),
{
    let p = user_index(rows, id);
    if email_of_another(rows, id, rows[p].email) {
        let k = choose|k: int|
            0 <= k < rows.len() && (#[trigger] rows[k]).email == rows[p].email && rows[k].id != id;
        if k < p {
            assert(rows[k].email != rows[p].email);
        } else if p < k {
            assert(rows[p].email != rows[k].email);
        }
    }
}

/// The service for user profiles, over its store.
pub struct UserService {
    db: Database,
}

impl UserService {
    /// The store behind the service.
    pub closed spec fn db(&self) -> Database {
        self.db
    }

    /// The stored profiles.
    pub open spec fn users(&self) -> Seq<UserView> {
        self.db().users()
    }

    /// What always holds of the service.
    pub open spec fn wf(&self) -> bool {
        self.db().wf()
    }

    /// A service over `db`.
    pub fn new(db: Database) -> (service: UserService)
        ensures
            service.db() == db,
    {
        UserService { db }
    }

    /// The profile stored under `user_id`; where there is none, that is
    /// reported as a missing record.
    pub fn get_user(&self, user_id: &str) -> (r: AppResult<User>)
        requires
            self.wf(),
        ensures
            match r {
                Ok(user) => user_for(self.users(), user_id@) == Some(user@),
                Err(e) => {
                    &&& user_for(self.users(), user_id@) is None
                    &&& e@ == AppErrorView::NotFound(missing_user(user_id@))
                },
            },
    {
        match self.db.find_user(user_id) {
            Some(user) => Ok(user),
            None => Err(AppError::NotFound(missing_user_text(user_id))),
        }
    }

    /// Adds a profile under the identifier `id` at the time `now`; fails
    /// where the identifier or the address is in use.
    pub fn create_user_at(&mut self, email: String, name: String, id: String, now: String) -> (r:
        AppResult<User>)
        requires
            old(self).wf(),
        ensures
            final(self).wf(),
            final(self).db().notes() == old(self).db().notes(),
            r is Err <==> has_user_id(old(self).users(), id@) || has_email(
                old(self).users(),
                email@,
            ),
            match r {
                Ok(user) => {
                    &&& created(old(self).users(), final(self).users(), email@, name@, user@)
                    &&& user@.id == id@
                    &&& user@.created_at == now@
                },
                Err(e) => {
                    &&& final(self).users() == old(self).users()
                    &&& e@ == AppErrorView::Database(StorageErrorView::unique_violation())
                },
            },
    {
        let user = User::with_stamp(id, now, email, name);
        match self.db.insert_user(user.clone()) {
            Ok(()) => Ok(user),
            Err(e) => Err(AppError::from(e)),
        }
    }

    /// Adds a profile with a fresh identifier, created now. It fails where
    /// the address is in use, and otherwise only where the fresh identifier
    /// is one that a stored profile has.
    pub fn create_user(&mut self, email: String, name: String) -> (r: AppResult<User>)
        requires
            old(self).wf(),
        ensures
            final(self).wf(),
            final(self).db().notes() == old(self).db().notes(),
            has_email(old(self).users(), email@) ==> r is Err,
            r is Err ==> has_email(old(self).users(), email@) || has_random_user_id(
                old(self).users(),
            ),
            match r {
                Ok(user) => {
                    &&& created(old(self).users(), final(self).users(), email@, name@, user@)
                    &&& is_random_id(user@.id)
                    &&& is_utc_stamp(user@.created_at)
                },
                Err(e) => {
                    &&& final(self).users() == old(self).users()
                    &&& e@ == AppErrorView::Database(StorageErrorView::unique_violation())
                },
            },
    {
        let now: String = current_time();
        self.create_user_at(email, name, fresh_id(), now)
    }

    /// Takes the fields present in `dto` over into the profile stored under
    /// `user_id` at the time `now`; a missing profile is reported as a
    /// missing record, an address that another profile has as a failure of
    /// the store.
    pub fn update_user_at(&mut self, user_id: &str, dto: UpdateUserDto, now: String) -> (r:
        AppResult<User>)
        requires
            old(self).wf(),
        ensures
            final(self).wf(),
            final(self).db().notes() == old(self).db().notes(),
            r is Ok <==> can_update(old(self).users(), user_id@, dto@),
            match r {
                Ok(user) => {
                    &&& updated(old(self).users(), final(self).users(), user_id@, dto@, user@)
                    &&& user@.updated_at == now@
                },
                Err(e) => {
                    &&& final(self).users() == old(self).users()
                    &&& e@ == update_failure(old(self).users(), user_id@)
                },
            },
    {
        match self.db.find_user(user_id) {
            None => Err(AppError::NotFound(missing_user_text(user_id))),
            Some(mut user) => {
                user.apply_at(dto, now);
                match self.db.update_user(&user) {
                    Ok(()) => Ok(user),
                    Err(e) => Err(AppError::from(e)),
                }
            },
        }
    }

    /// Takes the fields present in `dto` over into the profile stored under
    /// `user_id` now; a missing profile is reported as a missing record, an
    /// address that another profile has as a failure of the store.
    pub fn update_user(&mut self, user_id: &str, dto: UpdateUserDto) -> (r: AppResult<User>)
        requires
            old(self).wf(),
        ensures
            final(self).wf(),
            final(self).db().notes() == old(self).db().notes(),
            r is Ok <==> can_update(old(self).users(), user_id@, dto@),
            match r {
                Ok(user) => {
                    &&& updated(old(self).users(), final(self).users(), user_id@, dto@, user@)
                    &&& is_utc_stamp(user@.updated_at)
                },
                Err(e) => {
                    &&& final(self).users() == old(self).users()
                    &&& e@ == update_failure(old(self).users(), user_id@)
                },
            },
    {
        let now: String = current_time();
        self.update_user_at(user_id, dto, now)
    }
}

} // verus!
