//! The error taxonomy of the directory layer.

use vstd::prelude::*;
use vstd::string::*;

verus! {

/// A failure of a store or directory operation.
///
/// The kinds map onto the layer's taxonomy: `UnknownUser` is a not-found
/// failure (token or name has no matching user), `Conflict` a token already
/// bound to a different identity, `CreateError` and `DeleteError` rejected
/// writes, `Connection` an unavailable or timed-out backing store (only ever
/// produced by an embedding application; the verified core has no connection
/// to lose), and `Other` everything else — here, rows that no longer satisfy
/// the schema's invariants.
#[derive(Debug, PartialEq)]
pub enum DatabaseError {
    UnknownUser(String),
    CreateError(String),
    DeleteError(String),
    Conflict(String),
    Other(String),
    Connection(String),
}

/// The mathematical value of a `DatabaseError`.
#[verifier::ext_equal]
pub enum ErrorModel {
    UnknownUser(Seq<char>),
    CreateError(Seq<char>),
    DeleteError(Seq<char>),
    Conflict(Seq<char>),
    Other(Seq<char>),
    Connection(Seq<char>),
}

impl View for DatabaseError {
    type V = ErrorModel;

    open spec fn view(&self) -> ErrorModel {
        match self {
            DatabaseError::UnknownUser(m) => ErrorModel::UnknownUser(m@),
            DatabaseError::CreateError(m) => ErrorModel::CreateError(m@),
            DatabaseError::DeleteError(m) => ErrorModel::DeleteError(m@),
            DatabaseError::Conflict(m) => ErrorModel::Conflict(m@),
            DatabaseError::Other(m) => ErrorModel::Other(m@),
            DatabaseError::Connection(m) => ErrorModel::Connection(m@),
        }
    }
}

/// The message of a not-found failure for a start token.
pub open spec fn msg_unknown_token(token: Seq<char>) -> Seq<char> {
    "no user with start token '"@ + token + "'"@
}

/// The message of a not-found failure for a user name.
pub open spec fn msg_unknown_name(name: Seq<char>) -> Seq<char> {
    "no user with name '"@ + name + "'"@
}

/// The message of a registration conflict.
pub open spec fn msg_conflict() -> Seq<char> {
    "start token already linked to a different telegram id"@
}

/// The message of a start-token collision at user creation.
pub open spec fn msg_token_taken() -> Seq<char> {
    "start token already in use"@
}

/// The message reported when no fresh user id is left.
pub open spec fn msg_ids_exhausted() -> Seq<char> {
    "user id space exhausted"@
}

/// The message of a duplicate-primary-key rejection of a link insert.
pub open spec fn msg_link_taken() -> Seq<char> {
    "telegram id already linked"@
}

/// The message of a foreign-key rejection of a link insert.
pub open spec fn msg_no_such_user_id() -> Seq<char> {
    "no user with the given user id"@
}

/// The message of a foreign-key rejection of a user delete.
pub open spec fn msg_user_still_linked() -> Seq<char> {
    "user still has an identity link"@
}

/// The message reported when a link delete finds no row.
pub open spec fn msg_no_link() -> Seq<char> {
    "no identity link with the given telegram id"@
}

/// The message of a rejected store snapshot.
pub open spec fn msg_invalid_snapshot() -> Seq<char> {
    "store rows violate the schema's invariants"@
}

/// Builds the not-found error for a start token.
pub fn unknown_token_error(token: &str) -> (r: DatabaseError)
    ensures
        r@ == ErrorModel::UnknownUser(msg_unknown_token(token@)),
{
    DatabaseError::UnknownUser(
        String::from_str("no user with start token '").concat(token).concat("'"),
    )
}

/// Builds the not-found error for a user name.
pub fn unknown_name_error(name: &str) -> (r: DatabaseError)
    ensures
        r@ == ErrorModel::UnknownUser(msg_unknown_name(name@)),
{
    DatabaseError::UnknownUser(
        String::from_str("no user with name '").concat(name).concat("'"),
    )
}

impl Clone for DatabaseError {
    fn clone(&self) -> (res: Self)
        ensures
            res == *self,
    {
        match self {
            DatabaseError::UnknownUser(m) => DatabaseError::UnknownUser(m.clone()),
            DatabaseError::CreateError(m) => DatabaseError::CreateError(m.clone()),
            DatabaseError::DeleteError(m) => DatabaseError::DeleteError(m.clone()),
            DatabaseError::Conflict(m) => DatabaseError::Conflict(m.clone()),
            DatabaseError::Other(m) => DatabaseError::Other(m.clone()),
            DatabaseError::Connection(m) => DatabaseError::Connection(m.clone()),
        }
    }
}

impl DatabaseError {
    /// The human-readable message carried by the error.
    pub fn message(&self) -> (r: &String)
        ensures
            match self@ {
                ErrorModel::UnknownUser(m) => r@ == m,
                ErrorModel::CreateError(m) => r@ == m,
                ErrorModel::DeleteError(m) => r@ == m,
                ErrorModel::Conflict(m) => r@ == m,
                ErrorModel::Other(m) => r@ == m,
                ErrorModel::Connection(m) => r@ == m,
            },
    {
        match self {
            DatabaseError::UnknownUser(m) => m,
            DatabaseError::CreateError(m) => m,
            DatabaseError::DeleteError(m) => m,
            DatabaseError::Conflict(m) => m,
            DatabaseError::Other(m) => m,
            DatabaseError::Connection(m) => m,
        }
    }
}

} // verus!
