//! The operations on user profiles at the boundary.

use crate::db::{has_email, has_random_user_id, user_for};
use crate::error::{AppErrorView, FrontendError, StorageErrorView};
use crate::models::user::{UpdateUserDto, User};
use crate::services::user_service::{
    can_update, created, missing_user, update_failure, updated, UserService,
};
use crate::stamp::{is_random_id, is_utc_stamp};
use vstd::prelude::*;

verus! {

/// The profile stored under `user_id`; a missing one is reported as such.
pub fn get_user_profile(user_id: String, user_service: &UserService) -> (r: Result<
    User,
    FrontendError,
>)
    requires
        user_service.wf(),
    ensures
        match r {
            Ok(user) => user_for(user_service.users(), user_id@) == Some(user@),
            Err(shown) => {
                &&& user_for(user_service.users(), user_id@) is None
                &&& shown@ == AppErrorView::NotFound(missing_user(user_id@)).shown()
            },
        },
{
    match user_service.get_user(user_id.as_str()) {
        Ok(user) => Ok(user),
        Err(e) => Err(FrontendError::from(e)),
    }
}

/// Applies the fields present in `data` to the profile stored under
/// `user_id`; a missing profile and an address in use are reported.
pub fn update_user_profile(user_id: String, data: UpdateUserDto, user_service: &mut UserService) -> (r:
    Result<User, FrontendError>)
    requires
        old(user_service).wf(),
    ensures
        final(user_service).wf(),
        final(user_service).db().notes() == old(user_service).db().notes(),
        r is Ok <==> can_update(old(user_service).users(), user_id@, data@),
        match r {
            Ok(user) => {
                &&& updated(
                    old(user_service).users(),
                    final(user_service).users(),
                    user_id@,
                    data@,
                    user@,
                )
                &&& is_utc_stamp(user@.updated_at)
            },
            Err(shown) => {
                &&& final(user_service).users() == old(user_service).users()
                &&& shown@ == update_failure(old(user_service).users(), user_id@).shown()
            },
        },
{
    match user_service.update_user(user_id.as_str(), data) {
        Ok(user) => Ok(user),
        Err(e) => Err(FrontendError::from(e)),
    }
}

/// Adds a profile for `email` and `name`. An address that is in use is
/// refused; otherwise the call fails only where the fresh identifier is one
/// that a stored profile has.
pub fn create_user(email: String, name: String, user_service: &mut UserService) -> (r: Result<
    User,
    FrontendError,
>)
    requires
        old(user_service).wf(),
    ensures
        final(user_service).wf(),
        final(user_service).db().notes() == old(user_service).db().notes(),
        has_email(old(user_service).users(), email@) ==> r is Err,
        r is Err ==> has_email(old(user_service).users(), email@) || has_random_user_id(
            old(user_service).users(),
        ),
        match r {
            Ok(user) => {
                &&& created(
                    old(user_service).users(),
                    final(user_service).users(),
                    email@,
                    name@,
                    user@,
                )
                &&& is_random_id(user@.id)
                &&& is_utc_stamp(user@.created_at)
            },
            Err(shown) => {
                &&& final(user_service).users() == old(user_service).users()
                &&& shown@ == AppErrorView::Database(StorageErrorView::unique_violation()).shown()
            },
        },
{
    match user_service.create_user(email, name) {
        Ok(user) => Ok(user),
        Err(e) => Err(FrontendError::from(e)),
    }
}

} // verus!
