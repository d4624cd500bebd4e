//! The user-facing reply a registration attempt earns. The embedding
//! application sends the text; which text is sent is decided here.

use vstd::prelude::*;
use vstd::string::*;

use crate::errors::{DatabaseError, ErrorModel};
use crate::user_representation::{EntryModel, UserRepresentation};

verus! {

/// The mathematical value of a registration attempt's outcome.
pub open spec fn outcome_model(result: Result<UserRepresentation, DatabaseError>) -> Result<
    EntryModel,
    ErrorModel,
> {
    match result {
        Ok(rep) => Ok(rep@),
        Err(e) => Err(e@),
    }
}

/// The reply each registration outcome earns: success, an unknown user, a
/// failed insert, and everything else a generic failure.
pub open spec fn registration_reply_text(outcome: Result<EntryModel, ErrorModel>) -> Seq<char> {
    match outcome {
        Ok(_) => "You were successfully registered."@,
        Err(ErrorModel::UnknownUser(_)) => "Could not find the user."@,
        Err(ErrorModel::CreateError(_)) => "Could not create the user."@,
        Err(_) => "An error occurred."@,
    }
}

/// Picks the reply a registration attempt earns.
pub fn registration_reply(result: &Result<UserRepresentation, DatabaseError>) -> (r: String)
    ensures
        r@ == registration_reply_text(outcome_model(*result)),
{
    match result {
        Ok(_) => String::from_str("You were successfully registered."),
        Err(DatabaseError::UnknownUser(_)) => String::from_str("Could not find the user."),
        Err(DatabaseError::CreateError(_)) => String::from_str("Could not create the user."),
        Err(_) => String::from_str("An error occurred."),
    }
}

/// The reply a start command without a token earns; registration is not
/// attempted for it.
pub fn empty_token_reply() -> (r: String)
    ensures
        r@ == "Did not receive any data from you."@,
{
    String::from_str("Did not receive any data from you.")
}

} // verus!
