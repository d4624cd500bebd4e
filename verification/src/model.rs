//! Rows of the two relations the store keeps: users and identity links.

use vstd::prelude::*;

use crate::user_representation::UserRole;

verus! {

/// A user row as the store returns it. `id` is store-assigned and unique;
/// `start` is the one-time registration secret issued at creation.
#[derive(Debug, PartialEq)]
pub struct User {
    pub id: i64,
    pub name: String,
    pub start: String,
    pub role: UserRole,
}

/// The fields a caller supplies to insert a new user row.
#[derive(Debug)]
pub struct NewUser {
    pub name: String,
    pub start: String,
    pub role: UserRole,
}

/// An identity link row: `id` is the external (telegram) identity, the
/// table's primary key; `user_id` refers to the owning user row.
#[derive(Clone, Copy, Debug, PartialEq, Eq, Structural)]
pub struct TelegramAccount {
    pub id: i64,
    pub user_id: i64,
}

/// The fields a caller supplies to insert a new identity link row.
#[derive(Clone, Copy, Debug, PartialEq, Eq, Structural)]
pub struct NewTelegramAccount {
    pub id: i64,
    pub user_id: i64,
}

/// The mathematical value of a user row.
#[verifier::ext_equal]
pub struct UserModel {
    pub id: int,
    pub name: Seq<char>,
    pub start: Seq<char>,
    pub role: UserRole,
}

/// The mathematical value of an identity link row.
#[verifier::ext_equal]
pub struct LinkModel {
    pub id: int,
    pub user_id: int,
}

impl View for User {
    type V = UserModel;

    open spec fn view(&self) -> UserModel {
        UserModel { id: self.id as int, name: self.name@, start: self.start@, role: self.role }
    }
}

impl View for TelegramAccount {
    type V = LinkModel;

    open spec fn view(&self) -> LinkModel {
        LinkModel { id: self.id as int, user_id: self.user_id as int }
    }
}

impl Clone for User {
    fn clone(&self) -> (res: Self)
        ensures
            res == *self,
    {
        User {
            id: self.id,
            name: self.name.clone(),
            start: self.start.clone(),
            role: self.role,
        }
    }
}

} // verus!
