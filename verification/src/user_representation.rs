//! Roles and the merged directory view of a user.

use vstd::prelude::*;
use vstd::string::*;

use crate::model::{TelegramAccount, User};

verus! {

/// The closed set of roles a user can hold.
#[derive(Clone, Copy, Debug, PartialEq, Eq, Structural)]
pub enum UserRole {
    User,
    Admin,
}

/// The canonical text form of a role, as it is stored in the `users` table.
pub open spec fn role_text(r: UserRole) -> Seq<char> {
    match r {
        UserRole::User => "user"@,
        UserRole::Admin => "admin"@,
    }
}

/// The role that a stored text denotes. Unrecognized text falls back to the
/// least-privileged role; the fallback is a deliberate fail-safe default.
pub open spec fn role_from_text(s: Seq<char>) -> UserRole {
    if s == "user"@ {
        UserRole::User
    } else if s == "admin"@ {
        UserRole::Admin
    } else {
        UserRole::User
    }
}

/// Compares two string slices by contents.
pub(crate) fn str_eq(a: &str, b: &str) -> (r: bool)
    ensures
        r == (a@ == b@),
{
    let sa: String = String::from_str(a);
    let sb: String = String::from_str(b);
    sa == sb
}

impl UserRole {
    /// Parses the stored text form of a role; anything unrecognized is
    /// coerced to `UserRole::User`, the least-privileged role.
    pub fn from_text(user_role: &str) -> (r: Self)
        ensures
            r == role_from_text(user_role@),
    {
        if str_eq(user_role, "user") {
            UserRole::User
        } else if str_eq(user_role, "admin") {
            UserRole::Admin
        } else {
            UserRole::User
        }
    }

    /// The canonical text form of the role.
    pub fn as_text(&self) -> (r: String)
        ensures
            r@ == role_text(*self),
    {
        match self {
            UserRole::User => String::from_str("user"),
            UserRole::Admin => String::from_str("admin"),
        }
    }
}

/// The merged, cache-resident view of a user and its optional identity link.
/// Rebuilt from store rows, never independently mutated.
#[derive(Debug, PartialEq)]
pub struct UserRepresentation {
    pub id: i64,
    pub name: String,
    pub start_token: String,
    pub bot_start_url: String,
    pub role: UserRole,
    pub telegram_id: Option<i64>,
}

/// The mathematical value of a directory entry.
#[verifier::ext_equal]
pub struct EntryModel {
    pub id: int,
    pub name: Seq<char>,
    pub start_token: Seq<char>,
    pub bot_start_url: Seq<char>,
    pub role: UserRole,
    pub telegram_id: Option<int>,
}

impl View for UserRepresentation {
    type V = EntryModel;

    open spec fn view(&self) -> EntryModel {
        EntryModel {
            id: self.id as int,
            name: self.name@,
            start_token: self.start_token@,
            bot_start_url: self.bot_start_url@,
            role: self.role,
            telegram_id: match self.telegram_id {
                Some(t) => Some(t as int),
                None => None,
            },
        }
    }
}

impl Clone for UserRepresentation {
    fn clone(&self) -> (res: Self)
        ensures
            res == *self,
    {
        UserRepresentation {
            id: self.id,
            name: self.name.clone(),
            start_token: self.start_token.clone(),
            bot_start_url: self.bot_start_url.clone(),
            role: self.role,
            telegram_id: self.telegram_id,
        }
    }
}

/// The deep-link a user follows to start talking to the bot with a token.
pub open spec fn bot_url(bot_name: Seq<char>, start_token: Seq<char>) -> Seq<char> {
    "https://t.me/"@ + bot_name + "?start="@ + start_token
}

/// The mathematical value of an optional identity link row.
pub open spec fn link_opt_model(account: Option<TelegramAccount>) -> Option<crate::model::LinkModel> {
    match account {
        Some(a) => Some(a@),
        None => None,
    }
}

/// The directory entry that merges a user row with its optional link row.
pub open spec fn entry_of(
    user: crate::model::UserModel,
    link: Option<crate::model::LinkModel>,
    bot_name: Seq<char>,
) -> EntryModel {
    EntryModel {
        id: user.id,
        name: user.name,
        start_token: user.start,
        bot_start_url: bot_url(bot_name, user.start),
        role: user.role,
        telegram_id: match link {
            Some(l) => Some(l.id),
            None => None,
        },
    }
}

impl UserRepresentation {
    /// Whether the entry belongs to an administrator.
    pub fn is_admin(&self) -> (r: bool)
        ensures
            r == (self.role == UserRole::Admin),
    {
        self.role == UserRole::Admin
    }

    /// Merges a user row and its optional identity link into a directory
    /// entry. The bot name only feeds the deep-link URL; the core treats the
    /// URL as an opaque formatted string.
    pub fn from_user(user: &User, account: &Option<TelegramAccount>, bot_name: &str) -> (r: Self)
        ensures
            r@ == entry_of(user@, link_opt_model(*account), bot_name@),
    {
        let bot_start_url = String::from_str("https://t.me/")
            .concat(bot_name)
            .concat("?start=")
            .concat(user.start.as_str());
        let telegram_id = match account {
            Some(a) => Some(a.id),
            None => None,
        };
        UserRepresentation {
            id: user.id,
            name: user.name.clone(),
            start_token: user.start.clone(),
            bot_start_url,
            role: user.role,
            telegram_id,
        }
    }
}

} // verus!
