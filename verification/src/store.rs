//! The persistent store: the two relations that hold users and identity
//! links, with the write rules the layer relies on.
//!
//! The store is the single source of truth; the directory cache is a derived
//! projection of it. User ids are store-assigned and unique, start tokens are
//! unique (a colliding token is rejected at insert), link rows are keyed by
//! the external identity (their primary key) and refer to an existing user
//! (the foreign key the backing schema enforces). One link per user is
//! deliberately *not* enforced here: that is the registration protocol's
//! duty, and the protocol layer carries the invariant.

use vstd::prelude::*;
use vstd::string::*;

use crate::errors::{
    msg_ids_exhausted, msg_invalid_snapshot, msg_link_taken, msg_no_link, msg_no_such_user_id,
    msg_token_taken, msg_unknown_name, msg_unknown_token, msg_user_still_linked,
    unknown_name_error, unknown_token_error, DatabaseError, ErrorModel,
};
use crate::lookup::{
    first_where, is_first_where, lemma_first_where_is, lemma_first_where_none,
};
use crate::model::{LinkModel, NewTelegramAccount, NewUser, TelegramAccount, User, UserModel};
use crate::user_representation::str_eq;

verus! {

/// The mathematical value of the store: both relations in insertion order,
/// and the next id the store will assign.
#[verifier::ext_equal]
pub struct StoreModel {
    pub users: Seq<UserModel>,
    pub links: Seq<LinkModel>,
    pub next_user_id: int,
}

/// Matches the user holding a given start token.
pub open spec fn token_pred(token: Seq<char>) -> spec_fn(UserModel) -> bool {
    |u: UserModel| u.start == token
}

/// Matches the users carrying a given name.
pub open spec fn name_pred(name: Seq<char>) -> spec_fn(UserModel) -> bool {
    |u: UserModel| u.name == name
}

/// Matches the user row with a given id.
pub open spec fn user_id_pred(uid: int) -> spec_fn(UserModel) -> bool {
    |u: UserModel| u.id == uid
}

/// Matches the link rows owned by a given user.
pub open spec fn link_user_pred(uid: int) -> spec_fn(LinkModel) -> bool {
    |l: LinkModel| l.user_id == uid
}

/// Matches the link row keyed by a given external identity.
pub open spec fn link_id_pred(tid: int) -> spec_fn(LinkModel) -> bool {
    |l: LinkModel| l.id == tid
}

/// Whether no two links share an owning user: at most one identity link per
/// user. The store does not enforce this; the registration protocol does,
/// by never inserting a link for a user that already has one.
pub open spec fn one_link_per_user(links: Seq<LinkModel>) -> bool {
    forall|i: int, j: int|
        #![trigger links[i], links[j]]
        0 <= i < j < links.len() ==> links[i].user_id != links[j].user_id
}

/// Whether some user row carries the id.
pub open spec fn user_exists(users: Seq<UserModel>, uid: int) -> bool {
    exists|k: int| 0 <= k < users.len() && (#[trigger] users[k]).id == uid
}

/// Whether every link row refers to an existing user row: the foreign key
/// the backing schema enforces.
pub open spec fn fk_holds(users: Seq<UserModel>, links: Seq<LinkModel>) -> bool {
    forall|i: int| 0 <= i < links.len() ==> user_exists(users, (#[trigger] links[i]).user_id)
}

impl StoreModel {
    /// The store's well-formedness: unique user ids below the id counter,
    /// unique start tokens, unique link primary keys, and links referring
    /// only to existing users.
    pub open spec fn wf(self) -> bool {
        &&& 1 <= self.next_user_id <= i64::MAX as int
        &&& forall|i: int, j: int|
            #![trigger self.users[i], self.users[j]]
            0 <= i < j < self.users.len() ==> self.users[i].id != self.users[j].id
        &&& forall|i: int|
            0 <= i < self.users.len() ==> 1 <= (#[trigger] self.users[i]).id
                < self.next_user_id
        &&& forall|i: int, j: int|
            #![trigger self.users[i], self.users[j]]
            0 <= i < j < self.users.len() ==> self.users[i].start != self.users[j].start
        &&& forall|i: int, j: int|
            #![trigger self.links[i], self.links[j]]
            0 <= i < j < self.links.len() ==> self.links[i].id != self.links[j].id
        &&& fk_holds(self.users, self.links)
    }

    /// The user holding a start token, if any.
    pub open spec fn find_by_token(self, token: Seq<char>) -> Option<UserModel> {
        first_where(self.users, token_pred(token))
    }

    /// The first user carrying a name, if any.
    pub open spec fn find_by_name(self, name: Seq<char>) -> Option<UserModel> {
        first_where(self.users, name_pred(name))
    }

    /// The user row with a given id, if any.
    pub open spec fn user_by_id(self, uid: int) -> Option<UserModel> {
        first_where(self.users, user_id_pred(uid))
    }

    /// The first link owned by a user, if any.
    pub open spec fn link_for_user(self, uid: int) -> Option<LinkModel> {
        first_where(self.links, link_user_pred(uid))
    }

    /// The link keyed by an external identity, if any.
    pub open spec fn link_by_id(self, tid: int) -> Option<LinkModel> {
        first_where(self.links, link_id_pred(tid))
    }

    /// Whether at most one user row carries the name. Deleting by a name
    /// carried by several rows would remove more than one row, which the
    /// layer treats as a fatal invariant violation rather than an error.
    pub open spec fn at_most_one_named(self, name: Seq<char>) -> bool {
        forall|i: int, j: int|
            #![trigger self.users[i], self.users[j]]
            0 <= i < j < self.users.len() ==> !(self.users[i].name == name && self.users[j].name
                == name)
    }
}

/// The relational store of users and identity links.
#[derive(Debug)]
pub struct Store {
    users: Vec<User>,
    links: Vec<TelegramAccount>,
    next_user_id: i64,
}

impl View for Store {
    type V = StoreModel;

    closed spec fn view(&self) -> StoreModel {
        StoreModel {
            users: self.users@.map_values(|u: User| u@),
            links: self.links@.map_values(|l: TelegramAccount| l@),
            next_user_id: self.next_user_id as int,
        }
    }
}

impl Store {
    /// An empty store whose id counter starts at one.
    pub fn new() -> (s: Store)
        ensures
            s@.users == Seq::<UserModel>::empty(),
            s@.links == Seq::<LinkModel>::empty(),
            s@.next_user_id == 1,
            s@.wf(),
    {
        let s = Store { users: Vec::new(), links: Vec::new(), next_user_id: 1 };
        proof {
            assert(s@.users =~= Seq::<UserModel>::empty());
            assert(s@.links =~= Seq::<LinkModel>::empty());
        }
        s
    }

    /// The index of the user holding the token, if any.
    fn user_index_by_token(&self, token: &str) -> (r: Option<usize>)
        ensures
            match r {
                Some(i) => is_first_where(self@.users, token_pred(token@), i as int),
                None => forall|j: int|
                    0 <= j < self@.users.len() ==> !token_pred(token@)(#[trigger] self@.users[j]),
            },
    {
        let mut i: usize = 0;
        while i < self.users.len()
            invariant
                i <= self.users.len(),
                self.users.len() == self@.users.len(),
                forall|j: int| 0 <= j < i ==> !token_pred(token@)(#[trigger] self@.users[j]),
            decreases self.users.len() - i,
        {
            if str_eq(self.users[i].start.as_str(), token) {
                return Some(i);
            }
            i = i + 1;
        }
        None
    }

    /// The index of the first user carrying the name, if any.
    fn user_index_by_name(&self, name: &str) -> (r: Option<usize>)
        ensures
            match r {
                Some(i) => is_first_where(self@.users, name_pred(name@), i as int),
                None => forall|j: int|
                    0 <= j < self@.users.len() ==> !name_pred(name@)(#[trigger] self@.users[j]),
            },
    {
        let mut i: usize = 0;
        while i < self.users.len()
            invariant
                i <= self.users.len(),
                self.users.len() == self@.users.len(),
                forall|j: int| 0 <= j < i ==> !name_pred(name@)(#[trigger] self@.users[j]),
            decreases self.users.len() - i,
        {
            if str_eq(self.users[i].name.as_str(), name) {
                return Some(i);
            }
            i = i + 1;
        }
        None
    }

    /// The index of the user row with the id, if any.
    fn user_index_by_id(&self, uid: i64) -> (r: Option<usize>)
        ensures
            match r {
                Some(i) => is_first_where(self@.users, user_id_pred(uid as int), i as int),
                None => forall|j: int|
                    0 <= j < self@.users.len() ==> !user_id_pred(uid as int)(
                        #[trigger] self@.users[j],
                    ),
            },
    {
        let mut i: usize = 0;
        while i < self.users.len()
            invariant
                i <= self.users.len(),
                self.users.len() == self@.users.len(),
                forall|j: int|
                    0 <= j < i ==> !user_id_pred(uid as int)(#[trigger] self@.users[j]),
            decreases self.users.len() - i,
        {
            if self.users[i].id == uid {
                return Some(i);
            }
            i = i + 1;
        }
        None
    }

    /// The index of the first link owned by the user, if any.
    fn link_index_for_user(&self, uid: i64) -> (r: Option<usize>)
        ensures
            match r {
                Some(i) => is_first_where(self@.links, link_user_pred(uid as int), i as int),
                None => forall|j: int|
                    0 <= j < self@.links.len() ==> !link_user_pred(uid as int)(
                        #[trigger] self@.links[j],
                    ),
            },
    {
        let mut i: usize = 0;
        while i < self.links.len()
            invariant
                i <= self.links.len(),
                self.links.len() == self@.links.len(),
                forall|j: int|
                    0 <= j < i ==> !link_user_pred(uid as int)(#[trigger] self@.links[j]),
            decreases self.links.len() - i,
        {
            if self.links[i].user_id == uid {
                return Some(i);
            }
            i = i + 1;
        }
        None
    }

    /// The index of the link keyed by the external identity, if any.
    fn link_index_by_id(&self, tid: i64) -> (r: Option<usize>)
        ensures
            match r {
                Some(i) => is_first_where(self@.links, link_id_pred(tid as int), i as int),
                None => forall|j: int|
                    0 <= j < self@.links.len() ==> !link_id_pred(tid as int)(
                        #[trigger] self@.links[j],
                    ),
            },
    {
        let mut i: usize = 0;
        while i < self.links.len()
            invariant
                i <= self.links.len(),
                self.links.len() == self@.links.len(),
                forall|j: int|
                    0 <= j < i ==> !link_id_pred(tid as int)(#[trigger] self@.links[j]),
            decreases self.links.len() - i,
        {
            if self.links[i].id == tid {
                return Some(i);
            }
            i = i + 1;
        }
        None
    }

    /// How many user rows the store holds.
    pub fn user_count(&self) -> (n: usize)
        ensures
            n == self@.users.len(),
    {
        self.users.len()
    }

    /// The user row at an index, in insertion order.
    pub fn user_at(&self, i: usize) -> (u: &User)
        requires
            i < self@.users.len(),
        ensures
            u@ == self@.users[i as int],
    {
        &self.users[i]
    }

    /// How many link rows the store holds.
    pub fn link_count(&self) -> (n: usize)
        ensures
            n == self@.links.len(),
    {
        self.links.len()
    }

    /// The link row at an index, in insertion order.
    pub fn link_at(&self, i: usize) -> (l: TelegramAccount)
        requires
            i < self@.links.len(),
        ensures
            l@ == self@.links[i as int],
    {
        self.links[i]
    }

    /// The user row with a given id, if any.
    pub fn find_user_by_id(&self, uid: i64) -> (r: Option<&User>)
        ensures
            match r {
                Some(u) => self@.user_by_id(uid as int) == Some(u@),
                None => self@.user_by_id(uid as int) is None,
            },
    {
        match self.user_index_by_id(uid) {
            Some(i) => {
                proof {
                    lemma_first_where_is(self@.users, user_id_pred(uid as int), i as int);
                }
                Some(&self.users[i])
            },
            None => {
                proof {
                    lemma_first_where_none(self@.users, user_id_pred(uid as int));
                }
                None
            },
        }
    }

    /// The first link owned by a user, if any.
    pub fn find_link_for_user(&self, uid: i64) -> (r: Option<TelegramAccount>)
        ensures
            crate::user_representation::link_opt_model(r) == self@.link_for_user(uid as int),
    {
        match self.link_index_for_user(uid) {
            Some(i) => {
                proof {
                    lemma_first_where_is(self@.links, link_user_pred(uid as int), i as int);
                }
                Some(self.links[i])
            },
            None => {
                proof {
                    lemma_first_where_none(self@.links, link_user_pred(uid as int));
                }
                None
            },
        }
    }

    /// The link keyed by an external identity, if any.
    pub fn find_link_by_id(&self, tid: i64) -> (r: Option<TelegramAccount>)
        ensures
            crate::user_representation::link_opt_model(r) == self@.link_by_id(tid as int),
    {
        match self.link_index_by_id(tid) {
            Some(i) => {
                proof {
                    lemma_first_where_is(self@.links, link_id_pred(tid as int), i as int);
                }
                Some(self.links[i])
            },
            None => {
                proof {
                    lemma_first_where_none(self@.links, link_id_pred(tid as int));
                }
                None
            },
        }
    }

    /// A left-outer-join lookup by start token: the user holding the token,
    /// with its first link, if any.
    pub fn find_user_by_start_token(&self, token: &str) -> (r: Result<
        (User, Option<TelegramAccount>),
        DatabaseError,
    >)
        ensures
            match r {
                Ok(pair) => {
                    &&& self@.find_by_token(token@) == Some(pair.0@)
                    &&& crate::user_representation::link_opt_model(pair.1) == self@.link_for_user(
                        pair.0@.id,
                    )
                },
                Err(e) => {
                    &&& self@.find_by_token(token@) is None
                    &&& e@ == ErrorModel::UnknownUser(msg_unknown_token(token@))
                },
            },
    {
        match self.user_index_by_token(token) {
            Some(i) => {
                proof {
                    lemma_first_where_is(self@.users, token_pred(token@), i as int);
                }
                let user = self.users[i].clone();
                let link = self.find_link_for_user(user.id);
                Ok((user, link))
            },
            None => {
                proof {
                    lemma_first_where_none(self@.users, token_pred(token@));
                }
                Err(unknown_token_error(token))
            },
        }
    }

    /// A left-outer-join lookup by name: the first user carrying the name,
    /// with its first link, if any.
    pub fn find_user_by_name(&self, name: &str) -> (r: Result<
        (User, Option<TelegramAccount>),
        DatabaseError,
    >)
        ensures
            match r {
                Ok(pair) => {
                    &&& self@.find_by_name(name@) == Some(pair.0@)
                    &&& crate::user_representation::link_opt_model(pair.1) == self@.link_for_user(
                        pair.0@.id,
                    )
                },
                Err(e) => {
                    &&& self@.find_by_name(name@) is None
                    &&& e@ == ErrorModel::UnknownUser(msg_unknown_name(name@))
                },
            },
    {
        match self.user_index_by_name(name) {
            Some(i) => {
                proof {
                    lemma_first_where_is(self@.users, name_pred(name@), i as int);
                }
                let user = self.users[i].clone();
                let link = self.find_link_for_user(user.id);
                Ok((user, link))
            },
            None => {
                proof {
                    lemma_first_where_none(self@.users, name_pred(name@));
                }
                Err(unknown_name_error(name))
            },
        }
    }

    /// All link rows, in insertion order.
    pub fn list_identity_links(&self) -> (r: Vec<TelegramAccount>)
        ensures
            r@.map_values(|l: TelegramAccount| l@) == self@.links,
    {
        let mut out: Vec<TelegramAccount> = Vec::new();
        let mut i: usize = 0;
        while i < self.links.len()
            invariant
                i <= self.links.len(),
                out@ =~= self.links@.take(i as int),
            decreases self.links.len() - i,
        {
            out.push(self.links[i]);
            proof {
                assert(out@ =~= self.links@.take(i + 1));
            }
            i = i + 1;
        }
        proof {
            assert(out@ =~= self.links@);
            assert(out@.map_values(|l: TelegramAccount| l@) =~= self@.links);
        }
        out
    }

    /// Inserts a new user row, assigning it the next fresh id.
    ///
    /// Rejects a start token already held by another user: the token is the
    /// secret that identifies the user at registration, so a collision must
    /// surface as a failed write rather than create an ambiguous row.
    pub fn create_user(&mut self, new_user: NewUser) -> (result: Result<User, DatabaseError>)
        requires
            old(self)@.wf(),
        ensures
            final(self)@.wf(),
            match result {
                Ok(u) => {
                    &&& old(self)@.find_by_token(new_user.start@) is None
                    &&& old(self)@.next_user_id < i64::MAX as int
                    &&& u@ == (UserModel {
                        id: old(self)@.next_user_id,
                        name: new_user.name@,
                        start: new_user.start@,
                        role: new_user.role,
                    })
                    &&& final(self)@.users == old(self)@.users.push(u@)
                    &&& final(self)@.links == old(self)@.links
                    &&& final(self)@.next_user_id == old(self)@.next_user_id + 1
                },
                Err(e) => {
                    &&& *final(self) == *old(self)
                    &&& if old(self)@.find_by_token(new_user.start@) is Some {
                        e@ == ErrorModel::CreateError(msg_token_taken())
                    } else {
                        &&& old(self)@.next_user_id == i64::MAX as int
                        &&& e@ == ErrorModel::CreateError(msg_ids_exhausted())
                    }
                },
            },
    {
        match self.user_index_by_token(new_user.start.as_str()) {
            Some(i) => {
                proof {
                    lemma_first_where_is(self@.users, token_pred(new_user.start@), i as int);
                }
                Err(DatabaseError::CreateError(String::from_str("start token already in use")))
            },
            None => {
                proof {
                    lemma_first_where_none(self@.users, token_pred(new_user.start@));
                }
                if self.next_user_id == i64::MAX {
                    Err(DatabaseError::CreateError(String::from_str("user id space exhausted")))
                } else {
                    let user = User {
                        id: self.next_user_id,
                        name: new_user.name,
                        start: new_user.start,
                        role: new_user.role,
                    };
                    let created = user.clone();
                    let ghost pre = self@;
                    self.users.push(user);
                    self.next_user_id = self.next_user_id + 1;
                    proof {
                        assert(self@.users =~= pre.users.push(created@));
                        assert(self@.links =~= pre.links);
                        assert forall|i: int, j: int|
                            #![trigger self@.users[i], self@.users[j]]
                            0 <= i < j < self@.users.len() implies self@.users[i].id
                            != self@.users[j].id by {
                            if j == self@.users.len() - 1 {
                                assert(pre.users[i].id < pre.next_user_id);
                            }
                        }
                        assert forall|i: int, j: int|
                            #![trigger self@.users[i], self@.users[j]]
                            0 <= i < j < self@.users.len() implies self@.users[i].start
                            != self@.users[j].start by {
                            if j == self@.users.len() - 1 {
                                assert(!token_pred(created@.start)(pre.users[i]));
                            }
                        }
                        assert forall|i: int|
                            0 <= i < self@.users.len() implies 1 <= (
                        #[trigger] self@.users[i]).id < self@.next_user_id by {
                            if i < pre.users.len() {
                                assert(1 <= pre.users[i].id < pre.next_user_id);
                            }
                        }
                        assert forall|i: int|
                            0 <= i < self@.links.len() implies user_exists(
                            self@.users,
                            (#[trigger] self@.links[i]).user_id,
                        ) by {
                            assert(self@.links[i] == pre.links[i]);
                            assert(user_exists(pre.users, pre.links[i].user_id));
                            let k = choose|k: int|
                                0 <= k < pre.users.len() && (#[trigger] pre.users[k]).id
                                    == pre.links[i].user_id;
                            assert(self@.users[k] == pre.users[k]);
                            assert(self@.users[k].id == self@.links[i].user_id);
                        }
                    }
                    Ok(created)
                }
            },
        }
    }

    /// Inserts a new identity link row.
    ///
    /// Rejects a duplicate primary key (the external identity) and a
    /// foreign-key violation (a user id no user row carries), as the backing
    /// schema does.
    pub fn insert_identity_link(&mut self, new_account: NewTelegramAccount) -> (result: Result<
        TelegramAccount,
        DatabaseError,
    >)
        requires
            old(self)@.wf(),
        ensures
            final(self)@.wf(),
            match result {
                Ok(a) => {
                    &&& old(self)@.link_by_id(new_account.id as int) is None
                    &&& old(self)@.user_by_id(new_account.user_id as int) is Some
                    &&& a@ == (LinkModel {
                        id: new_account.id as int,
                        user_id: new_account.user_id as int,
                    })
                    &&& final(self)@.links == old(self)@.links.push(a@)
                    &&& final(self)@.users == old(self)@.users
                    &&& final(self)@.next_user_id == old(self)@.next_user_id
                },
                Err(e) => {
                    &&& *final(self) == *old(self)
                    &&& if old(self)@.link_by_id(new_account.id as int) is Some {
                        e@ == ErrorModel::CreateError(msg_link_taken())
                    } else {
                        &&& old(self)@.user_by_id(new_account.user_id as int) is None
                        &&& e@ == ErrorModel::CreateError(msg_no_such_user_id())
                    }
                },
            },
    {
        match self.link_index_by_id(new_account.id) {
            Some(i) => {
                proof {
                    lemma_first_where_is(self@.links, link_id_pred(new_account.id as int), i as int);
                }
                Err(DatabaseError::CreateError(String::from_str("telegram id already linked")))
            },
            None => {
                proof {
                    lemma_first_where_none(self@.links, link_id_pred(new_account.id as int));
                }
                match self.user_index_by_id(new_account.user_id) {
                    None => {
                        proof {
                            lemma_first_where_none(
                                self@.users,
                                user_id_pred(new_account.user_id as int),
                            );
                        }
                        Err(DatabaseError::CreateError(
                            String::from_str("no user with the given user id"),
                        ))
                    },
                    Some(k) => {
                        proof {
                            lemma_first_where_is(
                                self@.users,
                                user_id_pred(new_account.user_id as int),
                                k as int,
                            );
                        }
                        let account = TelegramAccount {
                            id: new_account.id,
                            user_id: new_account.user_id,
                        };
                        let ghost pre = self@;
                        self.links.push(account);
                        proof {
                            assert(self@.links =~= pre.links.push(account@));
                            assert(self@.users =~= pre.users);
                            assert forall|i: int, j: int|
                                #![trigger self@.links[i], self@.links[j]]
                                0 <= i < j < self@.links.len() implies self@.links[i].id
                                != self@.links[j].id by {
                                if j == self@.links.len() - 1 {
                                    assert(!link_id_pred(account@.id)(pre.links[i]));
                                }
                            }
                            assert forall|i: int|
                                0 <= i < self@.links.len() implies user_exists(
                                self@.users,
                                (#[trigger] self@.links[i]).user_id,
                            ) by {
                                if i == self@.links.len() - 1 {
                                    assert(self@.users[k as int].id == self@.links[i].user_id);
                                } else {
                                    assert(self@.links[i] == pre.links[i]);
                                    assert(user_exists(pre.users, pre.links[i].user_id));
                                }
                            }
                        }
                        Ok(account)
                    },
                }
            },
        }
    }

    /// Removes the link keyed by an external identity.
    pub fn delete_identity_link(&mut self, telegram_id: i64) -> (result: Result<
        TelegramAccount,
        DatabaseError,
    >)
        requires
            old(self)@.wf(),
        ensures
            final(self)@.wf(),
            match result {
                Ok(a) => {
                    &&& old(self)@.link_by_id(telegram_id as int) == Some(a@)
                    &&& exists|i: int|
                        is_first_where(old(self)@.links, link_id_pred(telegram_id as int), i)
                            && final(self)@.links == old(self)@.links.remove(i)
                    &&& final(self)@.links.len() == old(self)@.links.len() - 1
                    &&& final(self)@.users == old(self)@.users
                    &&& final(self)@.next_user_id == old(self)@.next_user_id
                },
                Err(e) => {
                    &&& *final(self) == *old(self)
                    &&& old(self)@.link_by_id(telegram_id as int) is None
                    &&& e@ == ErrorModel::DeleteError(msg_no_link())
                },
            },
    {
        match self.link_index_by_id(telegram_id) {
            Some(i) => {
                proof {
                    lemma_first_where_is(self@.links, link_id_pred(telegram_id as int), i as int);
                }
                let removed = self.links[i];
                let ghost pre = self@;
                self.links.remove(i);
                proof {
                    assert(self@.links =~= pre.links.remove(i as int));
                    assert(self@.users =~= pre.users);
                    assert forall|a: int, b: int|
                        #![trigger self@.links[a], self@.links[b]]
                        0 <= a < b < self@.links.len() implies self@.links[a].id
                        != self@.links[b].id by {
                        let a0 = if a < i { a } else { a + 1 };
                        let b0 = if b < i { b } else { b + 1 };
                        assert(pre.links[a0].id != pre.links[b0].id);
                    }
                    assert forall|a: int|
                        0 <= a < self@.links.len() implies user_exists(
                        self@.users,
                        (#[trigger] self@.links[a]).user_id,
                    ) by {
                        let a0 = if a < i { a } else { a + 1 };
                        assert(self@.links[a] == pre.links[a0]);
                        assert(user_exists(pre.users, pre.links[a0].user_id));
                    }
                }
                Ok(removed)
            },
            None => {
                proof {
                    lemma_first_where_none(self@.links, link_id_pred(telegram_id as int));
                }
                Err(DatabaseError::DeleteError(
                    String::from_str("no identity link with the given telegram id"),
                ))
            },
        }
    }

    /// Removes the single user row carrying a name.
    ///
    /// The caller must have ruled out duplicate names (deleting more than one
    /// row is a fatal invariant violation, not an error), and the row must no
    /// longer be referenced by a link: the backing schema's foreign key
    /// rejects the delete otherwise.
    pub fn delete_user_row(&mut self, name: &str) -> (result: Result<User, DatabaseError>)
        requires
            old(self)@.wf(),
            old(self)@.at_most_one_named(name@),
        ensures
            final(self)@.wf(),
            match result {
                Ok(u) => {
                    &&& old(self)@.find_by_name(name@) == Some(u@)
                    &&& old(self)@.link_for_user(u@.id) is None
                    &&& exists|i: int|
                        is_first_where(old(self)@.users, name_pred(name@), i)
                            && final(self)@.users == old(self)@.users.remove(i)
                    &&& final(self)@.users.len() == old(self)@.users.len() - 1
                    &&& final(self)@.links == old(self)@.links
                    &&& final(self)@.next_user_id == old(self)@.next_user_id
                },
                Err(e) => {
                    &&& *final(self) == *old(self)
                    &&& match e@ {
                        ErrorModel::UnknownUser(m) => old(self)@.find_by_name(name@) is None && m
                            == msg_unknown_name(name@),
                        ErrorModel::DeleteError(m) => {
                            &&& old(self)@.find_by_name(name@) is Some
                            &&& old(self)@.link_for_user(
                                old(self)@.find_by_name(name@).unwrap().id,
                            ) is Some
                            &&& m == msg_user_still_linked()
                        },
                        _ => false,
                    }
                },
            },
    {
        match self.user_index_by_name(name) {
            None => {
                proof {
                    lemma_first_where_none(self@.users, name_pred(name@));
                }
                Err(unknown_name_error(name))
            },
            Some(i) => {
                proof {
                    lemma_first_where_is(self@.users, name_pred(name@), i as int);
                }
                let uid = self.users[i].id;
                match self.link_index_for_user(uid) {
                    Some(k) => {
                        proof {
                            lemma_first_where_is(self@.links, link_user_pred(uid as int), k as int);
                        }
                        Err(DatabaseError::DeleteError(
                            String::from_str("user still has an identity link"),
                        ))
                    },
                    None => {
                        proof {
                            lemma_first_where_none(self@.links, link_user_pred(uid as int));
                        }
                        let removed = self.users.remove(i);
                        let ghost pre = old(self)@;
                        proof {
                            assert(self@.users =~= pre.users.remove(i as int));
                            assert(self@.links =~= pre.links);
                            assert forall|a: int, b: int|
                                #![trigger self@.users[a], self@.users[b]]
                                0 <= a < b < self@.users.len() implies self@.users[a].id
                                != self@.users[b].id && self@.users[a].start
                                != self@.users[b].start by {
                                let a0 = if a < i { a } else { a + 1 };
                                let b0 = if b < i { b } else { b + 1 };
                                assert(pre.users[a0].id != pre.users[b0].id);
                                assert(pre.users[a0].start != pre.users[b0].start);
                            }
                            assert forall|a: int|
                                0 <= a < self@.users.len() implies 1 <= (
                            #[trigger] self@.users[a]).id < self@.next_user_id by {
                                let a0 = if a < i { a } else { a + 1 };
                                assert(1 <= pre.users[a0].id < pre.next_user_id);
                            }
                            assert forall|a: int|
                                0 <= a < self@.links.len() implies user_exists(
                                self@.users,
                                (#[trigger] self@.links[a]).user_id,
                            ) by {
                                assert(self@.links[a] == pre.links[a]);
                                assert(user_exists(pre.users, pre.links[a].user_id));
                                let k0 = choose|k2: int|
                                    0 <= k2 < pre.users.len() && (#[trigger] pre.users[k2]).id
                                        == pre.links[a].user_id;
                                assert(!link_user_pred(pre.users[i as int].id)(pre.links[a]));
                                assert(pre.users[k0].id != pre.users[i as int].id);
                                let k2 = if k0 < i { k0 } else { k0 - 1 };
                                assert(self@.users[k2] == pre.users[k0]);
                                assert(self@.users[k2].id == self@.links[a].user_id);
                            }
                        }
                        Ok(removed)
                    },
                }
            },
        }
    }

    /// Whether the user rows alone satisfy the store's well-formedness:
    /// ids unique and within the counter's range, start tokens unique.
    fn user_rows_valid(users: &Vec<User>, next_user_id: i64) -> (r: bool)
        ensures
            r == ({
                let us = users@.map_values(|u: User| u@);
                &&& forall|i: int|
                    0 <= i < us.len() ==> 1 <= (#[trigger] us[i]).id < next_user_id as int
                &&& forall|i: int, j: int|
                    #![trigger us[i], us[j]]
                    0 <= i < j < us.len() ==> us[i].id != us[j].id
                &&& forall|i: int, j: int|
                    #![trigger us[i], us[j]]
                    0 <= i < j < us.len() ==> us[i].start != us[j].start
            }),
    {
        let ghost us = users@.map_values(|u: User| u@);
        let mut i: usize = 0;
        while i < users.len()
            invariant
                i <= users.len(),
                us == users@.map_values(|u: User| u@),
                forall|a: int| 0 <= a < i ==> 1 <= (#[trigger] us[a]).id < next_user_id as int,
                forall|a: int, b: int|
                    #![trigger us[a], us[b]]
                    0 <= a < b < i ==> us[a].id != us[b].id,
                forall|a: int, b: int|
                    #![trigger us[a], us[b]]
                    0 <= a < b < i ==> us[a].start != us[b].start,
            decreases users.len() - i,
        {
            if users[i].id < 1 || users[i].id >= next_user_id {
                proof {
                    assert(!(1 <= us[i as int].id < next_user_id as int));
                }
                return false;
            }
            let mut j: usize = 0;
            while j < i
                invariant
                    j <= i < users.len(),
                    us == users@.map_values(|u: User| u@),
                    forall|b: int| 0 <= b < j ==> (#[trigger] us[b]).id != us[i as int].id,
                    forall|b: int| 0 <= b < j ==> (#[trigger] us[b]).start != us[i as int].start,
                decreases i - j,
            {
                if users[j].id == users[i].id {
                    proof {
                        assert(us[j as int].id == us[i as int].id);
                    }
                    return false;
                }
                if str_eq(users[j].start.as_str(), users[i].start.as_str()) {
                    proof {
                        assert(us[j as int].start == us[i as int].start);
                    }
                    return false;
                }
                j = j + 1;
            }
            i = i + 1;
        }
        true
    }

    /// Whether the link rows satisfy the store's well-formedness against the
    /// user rows: external identities unique, every link's user existing.
    fn link_rows_valid(users: &Vec<User>, links: &Vec<TelegramAccount>) -> (r: bool)
        ensures
            r == ({
                let us = users@.map_values(|u: User| u@);
                let ls = links@.map_values(|l: TelegramAccount| l@);
                &&& forall|i: int, j: int|
                    #![trigger ls[i], ls[j]]
                    0 <= i < j < ls.len() ==> ls[i].id != ls[j].id
                &&& fk_holds(us, ls)
            }),
    {
        let ghost us = users@.map_values(|u: User| u@);
        let ghost ls = links@.map_values(|l: TelegramAccount| l@);
        let mut i: usize = 0;
        while i < links.len()
            invariant
                i <= links.len(),
                us == users@.map_values(|u: User| u@),
                ls == links@.map_values(|l: TelegramAccount| l@),
                forall|a: int, b: int|
                    #![trigger ls[a], ls[b]]
                    0 <= a < b < i ==> ls[a].id != ls[b].id,
                forall|a: int| 0 <= a < i ==> user_exists(us, (#[trigger] ls[a]).user_id),
            decreases links.len() - i,
        {
            let mut j: usize = 0;
            while j < i
                invariant
                    j <= i < links.len(),
                    ls == links@.map_values(|l: TelegramAccount| l@),
                    forall|b: int| 0 <= b < j ==> (#[trigger] ls[b]).id != ls[i as int].id,
                decreases i - j,
            {
                if links[j].id == links[i].id {
                    proof {
                        assert(ls[j as int].id == ls[i as int].id);
                    }
                    return false;
                }
                j = j + 1;
            }
            let mut k: usize = 0;
            let mut owner_found = false;
            while k < users.len()
                invariant
                    k <= users.len(),
                    us == users@.map_values(|u: User| u@),
                    ls == links@.map_values(|l: TelegramAccount| l@),
                    i < links.len(),
                    owner_found ==> user_exists(us, ls[i as int].user_id),
                    !owner_found ==> forall|b: int|
                        0 <= b < k ==> (#[trigger] us[b]).id != ls[i as int].user_id,
                decreases users.len() - k,
            {
                if users[k].id == links[i].user_id {
                    proof {
                        assert(us[k as int].id == ls[i as int].user_id);
                    }
                    owner_found = true;
                }
                k = k + 1;
            }
            if !owner_found {
                proof {
                    assert(!user_exists(us, ls[i as int].user_id));
                }
                return false;
            }
            i = i + 1;
        }
        true
    }

    /// Rebuilds a store from durable rows — what an embedding application
    /// loads back from disk — after validating that the rows still satisfy
    /// the schema's invariants. Rows that do not are rejected wholesale.
    pub fn from_rows(
        users: Vec<User>,
        links: Vec<TelegramAccount>,
        next_user_id: i64,
    ) -> (result: Result<Store, DatabaseError>)
        ensures
            match result {
                Ok(s) => {
                    &&& s@.users == users@.map_values(|u: User| u@)
                    &&& s@.links == links@.map_values(|l: TelegramAccount| l@)
                    &&& s@.next_user_id == next_user_id as int
                    &&& s@.wf()
                },
                Err(e) => {
                    &&& !(StoreModel {
                        users: users@.map_values(|u: User| u@),
                        links: links@.map_values(|l: TelegramAccount| l@),
                        next_user_id: next_user_id as int,
                    }).wf()
                    &&& e@ == ErrorModel::Other(msg_invalid_snapshot())
                },
            },
    {
        if next_user_id < 1 {
            return Err(DatabaseError::Other(
                String::from_str("store rows violate the schema's invariants"),
            ));
        }
        if !Self::user_rows_valid(&users, next_user_id) {
            return Err(DatabaseError::Other(
                String::from_str("store rows violate the schema's invariants"),
            ));
        }
        if !Self::link_rows_valid(&users, &links) {
            return Err(DatabaseError::Other(
                String::from_str("store rows violate the schema's invariants"),
            ));
        }
        Ok(Store { users, links, next_user_id })
    }

    /// Whether at most one link exists per user: the invariant the
    /// registration protocol maintains. An embedding application checks a
    /// loaded snapshot with this before serving it.
    pub fn protocol_link_invariant_holds(&self) -> (r: bool)
        ensures
            r == one_link_per_user(self@.links),
    {
        let mut i: usize = 0;
        while i < self.links.len()
            invariant
                i <= self.links.len(),
                self.links.len() == self@.links.len(),
                forall|a: int, b: int|
                    #![trigger self@.links[a], self@.links[b]]
                    0 <= a < b < i ==> self@.links[a].user_id != self@.links[b].user_id,
            decreases self.links.len() - i,
        {
            let mut j: usize = 0;
            while j < i
                invariant
                    j <= i < self.links.len(),
                    self.links.len() == self@.links.len(),
                    forall|b: int|
                        0 <= b < j ==> (#[trigger] self@.links[b]).user_id
                            != self@.links[i as int].user_id,
                decreases i - j,
            {
                if self.links[j].user_id == self.links[i].user_id {
                    proof {
                        assert(self@.links[j as int].user_id == self@.links[i as int].user_id);
                    }
                    return false;
                }
                j = j + 1;
            }
            i = i + 1;
        }
        true
    }

    /// Whether at most one user row carries the name, as deleting by that
    /// name demands. An embedding application checks this before a delete.
    pub fn name_occurs_at_most_once(&self, name: &str) -> (r: bool)
        ensures
            r == self@.at_most_one_named(name@),
    {
        let mut seen = false;
        let mut i: usize = 0;
        while i < self.users.len()
            invariant
                i <= self.users.len(),
                self.users.len() == self@.users.len(),
                seen == (exists|a: int|
                    0 <= a < i && (#[trigger] self@.users[a]).name == name@),
                forall|a: int, b: int|
                    #![trigger self@.users[a], self@.users[b]]
                    0 <= a < b < i ==> !(self@.users[a].name == name@ && self@.users[b].name
                        == name@),
            decreases self.users.len() - i,
        {
            if str_eq(self.users[i].name.as_str(), name) {
                proof {
                    assert(self@.users[i as int].name == name@);
                }
                if seen {
                    proof {
                        let a0 = choose|a: int|
                            0 <= a < i && (#[trigger] self@.users[a]).name == name@;
                        assert(self@.users[a0].name == name@);
                    }
                    return false;
                }
                seen = true;
            }
            i = i + 1;
        }
        true
    }
}

} // verus!
