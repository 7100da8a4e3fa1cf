//! A user profile, keyed by its identifier.

use crate::stamp::{current_time, fresh_id, is_random_id, is_utc_stamp};
use vstd::prelude::*;

verus! {

/// One user profile.
#[derive(Debug)]
pub struct User {
    pub id: String,
    pub email: String,
    pub name: String,
    pub created_at: String,
    pub updated_at: String,
}

/// What a `User` holds.
pub struct UserView {
    pub id: Seq<char>,
    pub email: Seq<char>,
    pub name: Seq<char>,
    pub created_at: Seq<char>,
    pub updated_at: Seq<char>,
}

impl View for User {
    type V = UserView;

    open spec fn view(&self) -> UserView {
        UserView {
            id: self.id@,
            email: self.email@,
            name: self.name@,
            created_at: self.created_at@,
            updated_at: self.updated_at@,
        }
    }
}

/// A partial update of a profile: a field that is absent stays as it is.
#[derive(Debug)]
pub struct UpdateUserDto {
    pub name: Option<String>,
    pub email: Option<String>,
}

/// What an `UpdateUserDto` holds.
pub struct UpdateUserDtoView {
    pub name: Option<Seq<char>>,
    pub email: Option<Seq<char>>,
}

impl View for UpdateUserDto {
    type V = UpdateUserDtoView;

    open spec fn view(&self) -> UpdateUserDtoView {
        UpdateUserDtoView {
            name: match self.name {
                Some(n) => Some(n@),
                None => None,
            },
            email: match self.email {
                Some(e) => Some(e@),
                None => None,
            },
        }
    }
}

impl UserView {
    /// The profile that is first written under `id` at the time `now`.
    pub open spec fn created(
        id: Seq<char>,
        now: Seq<char>,
        email: Seq<char>,
        name: Seq<char>,
    ) -> UserView {
        UserView { id, email, name, created_at: now, updated_at: now }
    }

    /// The address of this profile after `dto` was applied to it.
    pub open spec fn email_after(self, dto: UpdateUserDtoView) -> Seq<char> {
        match dto.email {
            Some(e) => e,
            None => self.email,
        }
    }

    /// The name of this profile after `dto` was applied to it.
    pub open spec fn name_after(self, dto: UpdateUserDtoView) -> Seq<char> {
        match dto.name {
            Some(n) => n,
            None => self.name,
        }
    }

    /// This profile after the fields present in `dto` replaced its own at
    /// the time `now`.
    pub open spec fn merged(self, dto: UpdateUserDtoView, now: Seq<char>) -> UserView {
        UserView {
            name: self.name_after(dto),
            email: self.email_after(dto),
            updated_at: now,
            ..self
        }
    }
}

impl Clone for User {
    fn clone(&self) -> (copy: Self)
        ensures
            copy@ == self@,
    {
        User {
            id: self.id.clone(),
            email: self.email.clone(),
            name: self.name.clone(),
            created_at: self.created_at.clone(),
            updated_at: self.updated_at.clone(),
        }
    }
}

impl User {
    /// The profile first written under the identifier `id` at the time `now`.
    pub fn with_stamp(id: String, now: String, email: String, name: String) -> (user: User)
        ensures
            user@ == UserView::created(id@, now@, email@, name@),
    {
        User { id, email, name, created_at: now.clone(), updated_at: now }
    }

    /// A new profile with a fresh identifier, created now.
    pub fn new(email: String, name: String) -> (user: User)
        ensures
            user@ == UserView::created(user@.id, user@.created_at, email@, name@),
            is_random_id(user@.id),
            is_utc_stamp(user@.created_at),
    {
        let now: String = current_time();
        User::with_stamp(fresh_id(), now, email, name)
    }

    /// Sets the time of the last change to now.
    pub fn update_timestamp(&mut self)
        ensures
            final(self)@ == (UserView { updated_at: final(self)@.updated_at, ..old(self)@ }),
            is_utc_stamp(final(self)@.updated_at),
    {
        self.updated_at = current_time();
    }

    /// Takes over the fields present in `dto` and sets the time of the last
    /// change to now.
    pub fn apply(&mut self, dto: UpdateUserDto)
        ensures
            final(self)@ == old(self)@.merged(dto@, final(self)@.updated_at),
            is_utc_stamp(final(self)@.updated_at),
    {
        let now: String = current_time();
        self.apply_at(dto, now);
    }

    /// Takes over the fields present in `dto` at the time `now`.
    pub fn apply_at(&mut self, dto: UpdateUserDto, now: String)
        ensures
            final(self)@ == old(self)@.merged(dto@, now@),
    {
        if let Some(name) = dto.name {
            self.name = name;
        }
        if let Some(email) = dto.email {
            self.email = email;
        }
        self.updated_at = now;
    }
}

} // verus!
