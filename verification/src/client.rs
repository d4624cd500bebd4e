//! The directory service: the persistent store, the directory cache that
//! mirrors it, the registration protocol and the administrative mutations.
//!
//! All durable state changes go through the store; every successful link
//! insert refreshes the cache, so a registration observes its own write.
//! Deleting a user deliberately does *not* refresh the cache: the deleted
//! user's identity stays resolvable until the next full rebuild. That gap is
//! known and deliberate, and the contracts state it rather than hide it.

use vstd::prelude::*;
use vstd::string::*;

use crate::cache::{
    cache_lookup, cache_wf, entry_tid_pred, DirectoryCache,
};
use crate::errors::{
    msg_conflict, msg_ids_exhausted, msg_token_taken, msg_unknown_name, msg_unknown_token,
    DatabaseError, ErrorModel,
};
use crate::lookup::{
    is_first_where, lemma_first_where_exists, lemma_first_where_is, lemma_first_where_none,
    lemma_first_where_none_inv, lemma_first_where_some,
};
use crate::model::{LinkModel, NewTelegramAccount, NewUser, TelegramAccount, User, UserModel};
use crate::store::{
    link_id_pred, link_user_pred, one_link_per_user, user_id_pred, Store, StoreModel,
};
use crate::token::{is_alphanumeric_seq, random_start_token, start_token_len};
use crate::user_representation::{
    entry_of, EntryModel, UserRepresentation, UserRole,
};

verus! {

/// The mathematical value of the directory service: the store, the cache's
/// entries in insertion order, and the bot name that feeds deep-link URLs.
#[verifier::ext_equal]
pub struct ClientModel {
    pub store: StoreModel,
    pub cache: Seq<EntryModel>,
    pub bot_name: Seq<char>,
}

/// Whether some cache entry is keyed by the external identity.
pub open spec fn entry_exists_for(entries: Seq<EntryModel>, tid: int) -> bool {
    exists|k: int|
        0 <= k < entries.len() && (#[trigger] entries[k]).telegram_id == Some(tid)
}

/// Whether every link in the store is visible through the cache. Links are
/// only inserted by the protocol, which refreshes the cache before returning,
/// and deleting never shrinks the cache; so the cache may run stale-wide
/// after a delete, but never misses a live link.
pub open spec fn cache_covers_links(entries: Seq<EntryModel>, links: Seq<LinkModel>) -> bool {
    forall|i: int| 0 <= i < links.len() ==> entry_exists_for(entries, (#[trigger] links[i]).id)
}

/// Whether every cache entry's user id lies below the store's id counter:
/// cached rows only ever describe ids the store has already assigned.
pub open spec fn cache_ids_below(entries: Seq<EntryModel>, bound: int) -> bool {
    forall|i: int| 0 <= i < entries.len() ==> (#[trigger] entries[i]).id < bound
}

/// Every user row merged with its optional first link, in user insertion
/// order: the left-outer-join listing.
pub open spec fn all_user_rows(s: StoreModel, bot_name: Seq<char>) -> Seq<EntryModel> {
    Seq::new(
        s.users.len(),
        |i: int| entry_of(s.users[i], s.link_for_user(s.users[i].id), bot_name),
    )
}

/// The directory rows derived from the store: one row per identity link, in
/// link insertion order, each merging the link with its owning user.
pub open spec fn directory_rows(s: StoreModel, bot_name: Seq<char>) -> Seq<EntryModel> {
    Seq::new(
        s.links.len(),
        |i: int| entry_of(s.user_by_id(s.links[i].user_id)->0, Some(s.links[i]), bot_name),
    )
}

impl ClientModel {
    /// The service's invariant: a well-formed store, at most one link per
    /// user, a well-formed cache that covers every live link, and cached ids
    /// below the store's id counter.
    pub open spec fn wf(self) -> bool {
        &&& self.store.wf()
        &&& one_link_per_user(self.store.links)
        &&& cache_wf(self.cache)
        &&& cache_covers_links(self.cache, self.store.links)
        &&& cache_ids_below(self.cache, self.store.next_user_id)
    }

    /// The store after the registration protocol ran on `(token, tid)`:
    /// unchanged unless the protocol inserted a fresh link, in which case the
    /// cache is rebuilt from the updated store.
    pub open spec fn register_post(self, token: Seq<char>, tid: int) -> ClientModel {
        match cache_lookup(self.cache, tid) {
            Some(_) => self,
            None => match self.store.find_by_token(token) {
                None => self,
                Some(u) => match self.store.link_for_user(u.id) {
                    Some(_) => self,
                    None => {
                        let s2 = StoreModel {
                            users: self.store.users,
                            links: self.store.links.push(LinkModel { id: tid, user_id: u.id }),
                            next_user_id: self.store.next_user_id,
                        };
                        ClientModel {
                            store: s2,
                            cache: directory_rows(s2, self.bot_name),
                            bot_name: self.bot_name,
                        }
                    },
                },
            },
        }
    }

    /// What the registration protocol returns on `(token, tid)`: the cached
    /// entry when the identity is already known (idempotence); otherwise, by
    /// token: not found, the entry again if the token's link carries the same
    /// identity, a conflict if it carries a different one, and the freshly
    /// linked entry when the token was still unused.
    pub open spec fn register_outcome(self, token: Seq<char>, tid: int) -> Result<
        EntryModel,
        ErrorModel,
    > {
        match cache_lookup(self.cache, tid) {
            Some(e) => Ok(e),
            None => match self.store.find_by_token(token) {
                None => Err(ErrorModel::UnknownUser(msg_unknown_token(token))),
                Some(u) => match self.store.link_for_user(u.id) {
                    Some(l) => if l.id == tid {
                        Ok(entry_of(u, Some(l), self.bot_name))
                    } else {
                        Err(ErrorModel::Conflict(msg_conflict()))
                    },
                    None => Ok(
                        entry_of(u, Some(LinkModel { id: tid, user_id: u.id }), self.bot_name),
                    ),
                },
            },
        }
    }

    /// The user row a successful creation with this token inserts.
    pub open spec fn created_user(self, name: Seq<char>, token: Seq<char>) -> UserModel {
        UserModel { id: self.store.next_user_id, name, start: token, role: UserRole::User }
    }
}

/// Every derived directory row is keyed by its link's external identity, so
/// the rows form a well-formed cache that covers every link, with ids the
/// store has assigned.
pub proof fn lemma_directory_rows_wf(s: StoreModel, bot_name: Seq<char>)
    requires
        s.wf(),
    ensures
        directory_rows(s, bot_name).len() == s.links.len(),
        forall|i: int|
            0 <= i < s.links.len() ==> (#[trigger] directory_rows(s, bot_name)[i]).telegram_id
                == Some(s.links[i].id),
        cache_wf(directory_rows(s, bot_name)),
        cache_covers_links(directory_rows(s, bot_name), s.links),
        cache_ids_below(directory_rows(s, bot_name), s.next_user_id),
{
    let rows = directory_rows(s, bot_name);
    assert forall|i: int| 0 <= i < rows.len() implies (#[trigger] rows[i]).telegram_id == Some(
        s.links[i].id,
    ) && rows[i].id < s.next_user_id by {
        assert(crate::store::user_exists(s.users, s.links[i].user_id));
        let k = choose|k: int|
            0 <= k < s.users.len() && (#[trigger] s.users[k]).id == s.links[i].user_id;
        lemma_user_row_by_id(s, k);
        assert(s.user_by_id(s.links[i].user_id) == Some(s.users[k]));
        assert(1 <= s.users[k].id < s.next_user_id);
    }
    assert forall|i: int, j: int|
        #![trigger rows[i], rows[j]]
        0 <= i < j < rows.len() implies rows[i].telegram_id != rows[j].telegram_id by {
        assert(s.links[i].id != s.links[j].id);
    }
    assert forall|i: int| 0 <= i < s.links.len() implies entry_exists_for(
        rows,
        (#[trigger] s.links[i]).id,
    ) by {
        assert(rows[i].telegram_id == Some(s.links[i].id));
    }
}

/// Within a well-formed store, looking a user row up by its own id finds it.
pub proof fn lemma_user_row_by_id(s: StoreModel, i: int)
    requires
        s.wf(),
        0 <= i < s.users.len(),
    ensures
        s.user_by_id(s.users[i].id) == Some(s.users[i]),
{
    assert forall|j: int| 0 <= j < i implies !user_id_pred(s.users[i].id)(
        #[trigger] s.users[j],
    ) by {
        assert(s.users[j].id != s.users[i].id);
    }
    assert(is_first_where(s.users, user_id_pred(s.users[i].id), i));
    lemma_first_where_is(s.users, user_id_pred(s.users[i].id), i);
}

/// A derived directory lookup by a link's external identity answers that
/// link's row.
pub proof fn lemma_directory_lookup(s: StoreModel, bot_name: Seq<char>, i: int)
    requires
        s.wf(),
        0 <= i < s.links.len(),
    ensures
        cache_lookup(directory_rows(s, bot_name), s.links[i].id) == Some(
            directory_rows(s, bot_name)[i],
        ),
{
    let rows = directory_rows(s, bot_name);
    lemma_directory_rows_wf(s, bot_name);
    assert forall|j: int| 0 <= j < i implies !entry_tid_pred(s.links[i].id)(
        #[trigger] rows[j],
    ) by {
        assert(s.links[j].id != s.links[i].id);
        assert(rows[j].telegram_id == Some(s.links[j].id));
    }
    assert(entry_tid_pred(s.links[i].id)(rows[i]));
    assert(is_first_where(rows, entry_tid_pred(s.links[i].id), i));
    lemma_first_where_is(rows, entry_tid_pred(s.links[i].id), i);
}

/// The directory service. It owns the store and the cache; an embedding
/// application shares it behind its own synchronization.
#[derive(Debug)]
pub struct DatabaseClient {
    store: Store,
    cache: DirectoryCache,
    bot_name: String,
}

impl View for DatabaseClient {
    type V = ClientModel;

    closed spec fn view(&self) -> ClientModel {
        ClientModel { store: self.store@, cache: self.cache@, bot_name: self.bot_name@ }
    }
}

/// Builds the directory rows of a store: one merged entry per identity link.
fn build_directory_rows(store: &Store, bot_name: &str) -> (r: Vec<UserRepresentation>)
    requires
        store@.wf(),
    ensures
        r@.map_values(|e: UserRepresentation| e@) == directory_rows(store@, bot_name@),
{
    let ghost rows = directory_rows(store@, bot_name@);
    let mut out: Vec<UserRepresentation> = Vec::new();
    let n = store.link_count();
    let mut i: usize = 0;
    while i < n
        invariant
            i <= n,
            n == store@.links.len(),
            store@.wf(),
            rows == directory_rows(store@, bot_name@),
            out@.len() == i,
            forall|k: int| 0 <= k < i ==> (#[trigger] out@[k])@ == rows[k],
        decreases n - i,
    {
        let link = store.link_at(i);
        proof {
            assert(crate::store::user_exists(store@.users, store@.links[i as int].user_id));
            let k = choose|k: int|
                0 <= k < store@.users.len() && (#[trigger] store@.users[k]).id
                    == store@.links[i as int].user_id;
            lemma_first_where_exists(store@.users, user_id_pred(link@.user_id), k);
        }
        // The store's foreign key guarantees every link an owner; the miss
        // arm is proven unreachable.
        let user = match store.find_user_by_id(link.user_id) {
            Some(u) => u,
            None => {
                proof {
                    assert(false);
                }
                return out;
            },
        };
        let rep = UserRepresentation::from_user(user, &Some(link), bot_name);
        proof {
            assert(rows[i as int] == entry_of(
                store@.user_by_id(store@.links[i as int].user_id)->0,
                Some(store@.links[i as int]),
                bot_name@,
            ));
            assert(rep@ == rows[i as int]);
        }
        out.push(rep);
        i = i + 1;
    }
    proof {
        assert(out@.map_values(|e: UserRepresentation| e@) =~= rows);
    }
    out
}

impl DatabaseClient {
    /// Builds the service over a store: the cache is populated from a full
    /// scan before the client is handed out, so reads never see a cold cache.
    pub fn load(store: Store, bot_name: String) -> (c: DatabaseClient)
        requires
            store@.wf(),
            one_link_per_user(store@.links),
        ensures
            c@.store == store@,
            c@.bot_name == bot_name@,
            c@.cache == directory_rows(store@, bot_name@),
            c@.wf(),
    {
        let mut client = DatabaseClient { store, cache: DirectoryCache::new(), bot_name };
        client.update_user_hash_map();
        proof {
            lemma_directory_rows_wf(client@.store, client@.bot_name);
        }
        client
    }

    /// Rebuilds the cache from a full store scan, replacing its contents.
    fn update_user_hash_map(&mut self)
        requires
            old(self)@.store.wf(),
        ensures
            final(self)@.store == old(self)@.store,
            final(self)@.bot_name == old(self)@.bot_name,
            final(self)@.cache == directory_rows(old(self)@.store, old(self)@.bot_name),
    {
        let rows = build_directory_rows(&self.store, self.bot_name.as_str());
        self.cache.replace(rows);
    }

    /// The cached directory entry of an external identity, if any.
    pub fn known_user(&self, telegram_user_id: i64) -> (r: Option<UserRepresentation>)
        ensures
            match r {
                Some(e) => cache_lookup(self@.cache, telegram_user_id as int) == Some(e@),
                None => cache_lookup(self@.cache, telegram_user_id as int) is None,
            },
    {
        self.cache.lookup(telegram_user_id)
    }

    /// Whether an external identity is known to the directory.
    pub fn known_user_exists(&self, telegram_user_id: i64) -> (r: bool)
        ensures
            r == (cache_lookup(self@.cache, telegram_user_id as int) is Some),
    {
        self.cache.contains(telegram_user_id)
    }

    /// Whether an external identity is known and maps to an administrator.
    /// An unknown identity is never an administrator.
    pub fn known_admin_user_exists(&self, telegram_user_id: i64) -> (r: bool)
        ensures
            r == match cache_lookup(self@.cache, telegram_user_id as int) {
                Some(e) => e.role == UserRole::Admin,
                None => false,
            },
    {
        self.cache.is_admin(telegram_user_id)
    }

    /// All users that hold an identity link, as merged directory rows, in
    /// link insertion order: the full scan the cache is rebuilt from.
    pub fn list_users_with_telegram_account(&self) -> (r: Vec<UserRepresentation>)
        requires
            self@.store.wf(),
        ensures
            r@.map_values(|e: UserRepresentation| e@) == directory_rows(
                self@.store,
                self@.bot_name,
            ),
    {
        build_directory_rows(&self.store, self.bot_name.as_str())
    }

    /// All users that hold an identity link; a fresh scan of the store, not
    /// a cache read.
    pub fn list_registered_users(&self) -> (r: Vec<UserRepresentation>)
        requires
            self@.store.wf(),
        ensures
            r@.map_values(|e: UserRepresentation| e@) == directory_rows(
                self@.store,
                self@.bot_name,
            ),
    {
        self.list_users_with_telegram_account()
    }

    /// Every user row, linked or not, merged with its optional link, in user
    /// insertion order.
    pub fn list_users(&self) -> (r: Vec<UserRepresentation>)
        ensures
            r@.map_values(|e: UserRepresentation| e@) == all_user_rows(
                self@.store,
                self@.bot_name,
            ),
    {
        let ghost rows = all_user_rows(self@.store, self@.bot_name);
        let mut out: Vec<UserRepresentation> = Vec::new();
        let n = self.store.user_count();
        let mut i: usize = 0;
        while i < n
            invariant
                i <= n,
                n == self@.store.users.len(),
                rows == all_user_rows(self@.store, self@.bot_name),
                out@.len() == i,
                forall|k: int| 0 <= k < i ==> (#[trigger] out@[k])@ == rows[k],
            decreases n - i,
        {
            let user = self.store.user_at(i);
            let uid = user.id;
            let link = self.store.find_link_for_user(uid);
            let rep = UserRepresentation::from_user(user, &link, self.bot_name.as_str());
            proof {
                assert(rep@ == rows[i as int]);
            }
            out.push(rep);
            i = i + 1;
        }
        proof {
            assert(out@.map_values(|e: UserRepresentation| e@) =~= rows);
        }
        out
    }

    /// Every identity link row, in insertion order.
    pub fn list_telegram_accounts(&self) -> (r: Vec<TelegramAccount>)
        ensures
            r@.map_values(|l: TelegramAccount| l@) == self@.store.links,
    {
        self.store.list_identity_links()
    }

    /// The first user carrying a name, merged with its optional link.
    pub fn get_user_by_name(&self, user_name: &str) -> (r: Result<
        UserRepresentation,
        DatabaseError,
    >)
        ensures
            match r {
                Ok(rep) => {
                    &&& self@.store.find_by_name(user_name@) is Some
                    &&& rep@ == entry_of(
                        self@.store.find_by_name(user_name@)->0,
                        self@.store.link_for_user(self@.store.find_by_name(user_name@)->0.id),
                        self@.bot_name,
                    )
                },
                Err(e) => {
                    &&& self@.store.find_by_name(user_name@) is None
                    &&& e@ == ErrorModel::UnknownUser(msg_unknown_name(user_name@))
                },
            },
    {
        match self.store.find_user_by_name(user_name) {
            Ok((user, account)) => Ok(
                UserRepresentation::from_user(&user, &account, self.bot_name.as_str()),
            ),
            Err(e) => Err(e),
        }
    }

    /// The user holding a start token, merged with its optional link.
    pub fn get_user_with_start_token(&self, start_token: &str) -> (r: Result<
        UserRepresentation,
        DatabaseError,
    >)
        ensures
            match r {
                Ok(rep) => {
                    &&& self@.store.find_by_token(start_token@) is Some
                    &&& rep@ == entry_of(
                        self@.store.find_by_token(start_token@)->0,
                        self@.store.link_for_user(self@.store.find_by_token(start_token@)->0.id),
                        self@.bot_name,
                    )
                },
                Err(e) => {
                    &&& self@.store.find_by_token(start_token@) is None
                    &&& e@ == ErrorModel::UnknownUser(msg_unknown_token(start_token@))
                },
            },
    {
        match self.store.find_user_by_start_token(start_token) {
            Ok((user, account)) => Ok(
                UserRepresentation::from_user(&user, &account, self.bot_name.as_str()),
            ),
            Err(e) => Err(e),
        }
    }

    /// Creates a user under a caller-supplied start token; the random-token
    /// entry point draws the token and delegates here. The cache is not
    /// touched: a user with no link cannot appear in the directory.
    pub fn create_user_with_token(&mut self, user_name: &str, start_token: String) -> (result:
        Result<UserRepresentation, DatabaseError>)
        requires
            old(self)@.wf(),
        ensures
            final(self)@.wf(),
            final(self)@.cache == old(self)@.cache,
            final(self)@.bot_name == old(self)@.bot_name,
            match result {
                Ok(rep) => {
                    &&& old(self)@.store.find_by_token(start_token@) is None
                    &&& old(self)@.store.next_user_id < i64::MAX as int
                    &&& rep@ == entry_of(
                        old(self)@.created_user(user_name@, start_token@),
                        None,
                        old(self)@.bot_name,
                    )
                    &&& final(self)@.store.users == old(self)@.store.users.push(
                        old(self)@.created_user(user_name@, start_token@),
                    )
                    &&& final(self)@.store.links == old(self)@.store.links
                    &&& final(self)@.store.next_user_id == old(self)@.store.next_user_id + 1
                },
                Err(e) => {
                    &&& final(self)@ == old(self)@
                    &&& if old(self)@.store.find_by_token(start_token@) is Some {
                        e@ == ErrorModel::CreateError(msg_token_taken())
                    } else {
                        &&& old(self)@.store.next_user_id == i64::MAX as int
                        &&& e@ == ErrorModel::CreateError(msg_ids_exhausted())
                    }
                },
            },
    {
        let new_user = NewUser {
            name: String::from_str(user_name),
            start: start_token,
            role: UserRole::User,
        };
        match self.store.create_user(new_user) {
            Ok(user) => {
                let rep = UserRepresentation::from_user(&user, &None, self.bot_name.as_str());
                proof {
                    assert(self@ =~= (ClientModel {
                        store: self@.store,
                        cache: old(self)@.cache,
                        bot_name: old(self)@.bot_name,
                    }));
                    assert forall|i: int|
                        0 <= i < self@.store.links.len() implies entry_exists_for(
                        self@.cache,
                        (#[trigger] self@.store.links[i]).id,
                    ) by {
                        assert(self@.store.links[i] == old(self)@.store.links[i]);
                        assert(entry_exists_for(old(self)@.cache, old(self)@.store.links[i].id));
                    }
                }
                Ok(rep)
            },
            Err(e) => {
                proof {
                    assert(self@ =~= old(self)@);
                }
                Err(e)
            },
        }
    }

    /// Creates a user under a freshly drawn random start token. The token's
    /// shape (32 alphanumeric characters) is all that is promised of it; a
    /// colliding token is rejected by the store and surfaces as a failed
    /// create rather than an ambiguous row. On a store that holds no user —
    /// where no drawn token can collide — success is owed outright, as long
    /// as a fresh id is left.
    pub fn create_user(&mut self, user_name: &str) -> (result: Result<
        UserRepresentation,
        DatabaseError,
    >)
        requires
            old(self)@.wf(),
        ensures
            final(self)@.wf(),
            final(self)@.cache == old(self)@.cache,
            final(self)@.bot_name == old(self)@.bot_name,
            old(self)@.store.users.len() == 0 && old(self)@.store.next_user_id < i64::MAX as int
                ==> result is Ok,
            match result {
                Ok(rep) => {
                    &&& rep@.start_token.len() == start_token_len()
                    &&& is_alphanumeric_seq(rep@.start_token)
                    &&& old(self)@.store.find_by_token(rep@.start_token) is None
                    &&& old(self)@.store.next_user_id < i64::MAX as int
                    &&& rep@ == entry_of(
                        old(self)@.created_user(user_name@, rep@.start_token),
                        None,
                        old(self)@.bot_name,
                    )
                    &&& final(self)@.store.users == old(self)@.store.users.push(
                        old(self)@.created_user(user_name@, rep@.start_token),
                    )
                    &&& final(self)@.store.links == old(self)@.store.links
                    &&& final(self)@.store.next_user_id == old(self)@.store.next_user_id + 1
                },
                Err(e) => {
                    &&& final(self)@ == old(self)@
                    &&& ((e@ == ErrorModel::CreateError(msg_token_taken()) && old(
                        self,
                    )@.store.users.len() > 0) || (old(self)@.store.next_user_id == i64::MAX as int
                        && e@ == ErrorModel::CreateError(msg_ids_exhausted())))
                },
            },
    {
        let start_token = random_start_token();
        let ghost drawn = start_token@;
        let result = self.create_user_with_token(user_name, start_token);
        proof {
            // A duplicate-token rejection names a user row that already held
            // the drawn token, so the store was not empty.
            if result is Err && old(self)@.store.find_by_token(drawn) is Some {
                lemma_first_where_some(old(self)@.store.users, token_pred_of(drawn));
            }
        }
        result
    }

    /// Inserts a fresh identity link and refreshes the cache, so the write
    /// is observable through the directory before this returns.
    fn add_new_telegram_account(&mut self, user_id: i64, telegram_id: i64) -> (account:
        TelegramAccount)
        requires
            old(self)@.wf(),
            old(self)@.store.link_by_id(telegram_id as int) is None,
            old(self)@.store.user_by_id(user_id as int) is Some,
            old(self)@.store.link_for_user(user_id as int) is None,
        ensures
            account@ == (LinkModel { id: telegram_id as int, user_id: user_id as int }),
            final(self)@.store.users == old(self)@.store.users,
            final(self)@.store.links == old(self)@.store.links.push(account@),
            final(self)@.store.next_user_id == old(self)@.store.next_user_id,
            final(self)@.bot_name == old(self)@.bot_name,
            final(self)@.cache == directory_rows(final(self)@.store, old(self)@.bot_name),
            final(self)@.wf(),
    {
        let new_account = NewTelegramAccount { id: telegram_id, user_id };
        // The preconditions rule both rejections out; the error arm is
        // proven unreachable.
        let account = match self.store.insert_identity_link(new_account) {
            Ok(a) => a,
            Err(e) => {
                proof {
                    assert(false);
                }
                TelegramAccount { id: telegram_id, user_id }
            },
        };
        self.update_user_hash_map();
        proof {
            lemma_directory_rows_wf(self@.store, self@.bot_name);
            lemma_first_where_none_inv(old(self)@.store.links, link_user_pred(user_id as int));
            assert forall|i: int, j: int|
                #![trigger self@.store.links[i], self@.store.links[j]]
                0 <= i < j < self@.store.links.len() implies self@.store.links[i].user_id
                != self@.store.links[j].user_id by {
                if j == self@.store.links.len() - 1 {
                    assert(!link_user_pred(user_id as int)(old(self)@.store.links[i]));
                }
            }
        }
        account
    }

    /// The registration protocol over `(start_token, telegram_id)`.
    ///
    /// An already-known identity answers its cached entry unchanged; an
    /// unknown token fails as not found; a token whose user is linked to the
    /// same identity answers that entry, and to a different identity fails
    /// as a conflict with no mutation; a token whose user is unlinked gets a
    /// fresh link, the cache is refreshed, and the now-visible entry is
    /// returned. A token is single-use in effect: once linked, it can never
    /// be re-bound.
    pub fn register_telegram_account_of_user(&mut self, start_token: &str, telegram_id: i64) -> (
        result: Result<UserRepresentation, DatabaseError>)
        requires
            old(self)@.wf(),
        ensures
            final(self)@.wf(),
            final(self)@ == old(self)@.register_post(start_token@, telegram_id as int),
            match result {
                Ok(rep) => old(self)@.register_outcome(start_token@, telegram_id as int) == Ok::<
                    EntryModel,
                    ErrorModel,
                >(rep@),
                Err(e) => old(self)@.register_outcome(start_token@, telegram_id as int) == Err::<
                    EntryModel,
                    ErrorModel,
                >(e@),
            },
    {
        let ghost pre = self@;
        let ghost tid = telegram_id as int;
        match self.known_user(telegram_id) {
            Some(user) => Ok(user),
            None => {
                match self.store.find_user_by_start_token(start_token) {
                    Err(e) => Err(e),
                    Ok((user, account)) => {
                        let ghost uv = user@;
                        match account {
                            Some(present_account) => {
                                if present_account.id == telegram_id {
                                    // The token's user is already linked to this same
                                    // identity: answer it again, defensively idempotent.
                                    Ok(UserRepresentation::from_user(
                                        &user,
                                        &Some(present_account),
                                        self.bot_name.as_str(),
                                    ))
                                } else {
                                    // The token is bound to a different identity: refuse
                                    // to update, and leave the store untouched.
                                    Err(DatabaseError::Conflict(String::from_str(
                                        "start token already linked to a different telegram id",
                                    )))
                                }
                            },
                            None => {
                                // A valid, still-unused start token: link it, refresh,
                                // and answer the entry the refreshed directory now holds.
                                proof {
                                    assert forall|j: int|
                                        0 <= j < pre.store.links.len() implies !link_id_pred(tid)(
                                        #[trigger] pre.store.links[j],
                                    ) by {
                                        if pre.store.links[j].id == tid {
                                            assert(entry_exists_for(pre.cache, tid));
                                            let k = choose|k: int|
                                                0 <= k < pre.cache.len() && (
                                                #[trigger] pre.cache[k]).telegram_id == Some(tid);
                                            lemma_first_where_exists(
                                                pre.cache,
                                                entry_tid_pred(tid),
                                                k,
                                            );
                                            assert(false);
                                        }
                                    }
                                    lemma_first_where_none(pre.store.links, link_id_pred(tid));
                                    lemma_first_where_some(pre.store.users, token_pred_of(
                                        start_token@,
                                    ));
                                    let i0 = choose|i: int|
                                        is_first_where(
                                            pre.store.users,
                                            token_pred_of(start_token@),
                                            i,
                                        );
                                    lemma_user_row_by_id(pre.store, i0);
                                }
                                let account = self.add_new_telegram_account(user.id, telegram_id);
                                let ghost s2 = self@.store;
                                match self.known_user(telegram_id) {
                                    Some(rep) => {
                                        proof {
                                            lemma_directory_lookup(
                                                s2,
                                                pre.bot_name,
                                                s2.links.len() - 1,
                                            );
                                            assert(s2.user_by_id(uv.id) == pre.store.user_by_id(
                                                uv.id,
                                            ));
                                            assert(rep@ == entry_of(
                                                uv,
                                                Some(account@),
                                                pre.bot_name,
                                            ));
                                            assert(self@ =~= pre.register_post(start_token@, tid));
                                        }
                                        Ok(rep)
                                    },
                                    None => {
                                        // The entry that was just written must be
                                        // observable: this read cannot miss.
                                        proof {
                                            lemma_directory_lookup(
                                                s2,
                                                pre.bot_name,
                                                s2.links.len() - 1,
                                            );
                                            assert(false);
                                        }
                                        Err(DatabaseError::Other(String::from_str(
                                            "freshly linked entry missing from the directory",
                                        )))
                                    },
                                }
                            },
                        }
                    },
                }
            },
        }
    }

    /// Whether at most one user row carries the name, as deleting by that
    /// name demands. An embedding application checks this before a delete.
    pub fn name_occurs_at_most_once(&self, user_name: &str) -> (r: bool)
        ensures
            r == self@.store.at_most_one_named(user_name@),
    {
        self.store.name_occurs_at_most_once(user_name)
    }

    /// Deletes a user by name: its identity link first, if it has one, then
    /// the single user row carrying the name.
    ///
    /// The caller must have ruled out duplicate names: removing any other
    /// count than one user row is a fatal invariant violation, not an error.
    /// Deletion deliberately does not refresh the cache, so a deleted user's
    /// identity may stay resolvable until the next full rebuild; the `ensures`
    /// states the gap openly rather than hide it.
    pub fn delete_user(&mut self, user_name: &str) -> (result: Result<
        UserRepresentation,
        DatabaseError,
    >)
        requires
            old(self)@.wf(),
            old(self)@.store.at_most_one_named(user_name@),
        ensures
            final(self)@.wf(),
            final(self)@.cache == old(self)@.cache,
            final(self)@.bot_name == old(self)@.bot_name,
            final(self)@.store.next_user_id == old(self)@.store.next_user_id,
            match result {
                Ok(rep) => {
                    &&& old(self)@.store.find_by_name(user_name@) is Some
                    &&& rep@ == entry_of(
                        old(self)@.store.find_by_name(user_name@)->0,
                        old(self)@.store.link_for_user(
                            old(self)@.store.find_by_name(user_name@)->0.id,
                        ),
                        old(self)@.bot_name,
                    )
                    &&& exists|i: int|
                        is_first_where(
                            old(self)@.store.users,
                            crate::store::name_pred(user_name@),
                            i,
                        ) && final(self)@.store.users == old(self)@.store.users.remove(i)
                    &&& final(self)@.store.users.len() == old(self)@.store.users.len() - 1
                    &&& match old(self)@.store.link_for_user(
                        old(self)@.store.find_by_name(user_name@)->0.id,
                    ) {
                        Some(l) => {
                            &&& exists|k: int|
                                is_first_where(old(self)@.store.links, link_id_pred(l.id), k)
                                    && final(self)@.store.links == old(self)@.store.links.remove(k)
                            &&& final(self)@.store.links.len() == old(self)@.store.links.len() - 1
                        },
                        None => final(self)@.store.links == old(self)@.store.links,
                    }
                },
                Err(e) => {
                    &&& final(self)@ == old(self)@
                    &&& old(self)@.store.find_by_name(user_name@) is None
                    &&& e@ == ErrorModel::UnknownUser(msg_unknown_name(user_name@))
                },
            },
    {
        let ghost pre = self@;
        let looked_up = self.get_user_by_name(user_name);
        let user = match looked_up {
            Ok(user) => user,
            Err(error) => {
                proof {
                    assert(self@ =~= pre);
                }
                return Err(error);
            },
        };
        let ghost uv = pre.store.find_by_name(user_name@)->0;
        if let Some(present_telegram_id) = user.telegram_id {
            proof {
                lemma_first_where_some(pre.store.links, link_user_pred(uv.id));
                let k0 = choose|k: int| is_first_where(pre.store.links, link_user_pred(uv.id), k);
                lemma_first_where_exists(pre.store.links, link_id_pred(present_telegram_id as int), k0);
            }
            // The entry's identity came from the store's own join, so the
            // link is there; the error arm is proven unreachable.
            let removed = match self.store.delete_identity_link(present_telegram_id) {
                Ok(a) => a,
                Err(e) => {
                    proof {
                        assert(false);
                    }
                    return Err(e);
                },
            };
            proof {
                lemma_delete_link_keeps_client_wf(pre, self@);
            }
        }
        let ghost mid = self@;
        proof {
            assert(mid.store.find_by_name(user_name@) == pre.store.find_by_name(user_name@));
            if pre.store.link_for_user(uv.id) is Some {
                lemma_no_link_left_for_deleted(pre, mid, uv, user_name@);
            } else {
                lemma_first_where_none_inv(pre.store.links, link_user_pred(uv.id));
            }
            lemma_first_where_none(mid.store.links, link_user_pred(uv.id));
        }
        // The user was found and its one link is gone, so the row delete
        // cannot be refused; the error arm is proven unreachable.
        let removed_user = match self.store.delete_user_row(user_name) {
            Ok(u) => u,
            Err(e) => {
                proof {
                    assert(false);
                }
                return Err(e);
            },
        };
        proof {
            lemma_delete_user_keeps_client_wf(mid, self@);
        }
        Ok(user)
    }
}

/// The user-lookup predicate by token, re-exported for proofs about the
/// registration protocol.
pub open spec fn token_pred_of(token: Seq<char>) -> spec_fn(UserModel) -> bool {
    crate::store::token_pred(token)
}

/// Removing a link keeps the service invariant: the remaining links are a
/// sub-sequence, and the untouched cache still covers them.
proof fn lemma_delete_link_keeps_client_wf(pre: ClientModel, post: ClientModel)
    requires
        pre.wf(),
        post.store.wf(),
        post.cache == pre.cache,
        post.bot_name == pre.bot_name,
        post.store.users == pre.store.users,
        post.store.next_user_id == pre.store.next_user_id,
        exists|k: int|
            0 <= k < pre.store.links.len() && post.store.links == pre.store.links.remove(k),
    ensures
        post.wf(),
{
    let k = choose|k: int|
        0 <= k < pre.store.links.len() && post.store.links == pre.store.links.remove(k);
    assert forall|i: int, j: int|
        #![trigger post.store.links[i], post.store.links[j]]
        0 <= i < j < post.store.links.len() implies post.store.links[i].user_id
        != post.store.links[j].user_id by {
        let i0 = if i < k { i } else { i + 1 };
        let j0 = if j < k { j } else { j + 1 };
        assert(pre.store.links[i0].user_id != pre.store.links[j0].user_id);
    }
    assert forall|i: int| 0 <= i < post.store.links.len() implies entry_exists_for(
        post.cache,
        (#[trigger] post.store.links[i]).id,
    ) by {
        let i0 = if i < k { i } else { i + 1 };
        assert(post.store.links[i] == pre.store.links[i0]);
        assert(entry_exists_for(pre.cache, pre.store.links[i0].id));
    }
}

/// After the one link of a user is removed, no link of that user remains.
proof fn lemma_no_link_left_for_deleted(
    pre: ClientModel,
    mid: ClientModel,
    uv: UserModel,
    name: Seq<char>,
)
    requires
        pre.wf(),
        mid.store.users == pre.store.users,
        match pre.store.link_for_user(uv.id) {
            Some(l) => exists|k: int|
                is_first_where(pre.store.links, link_id_pred(l.id), k) && mid.store.links
                    == pre.store.links.remove(k),
            None => mid.store.links == pre.store.links,
        },
        pre.store.link_for_user(uv.id) is Some,
    ensures
        forall|j: int|
            0 <= j < mid.store.links.len() ==> !link_user_pred(uv.id)(
                #[trigger] mid.store.links[j],
            ),
{
    let l = pre.store.link_for_user(uv.id)->0;
    lemma_first_where_some(pre.store.links, link_user_pred(uv.id));
    let i_l = choose|i: int| is_first_where(pre.store.links, link_user_pred(uv.id), i);
    let k = choose|k: int|
        is_first_where(pre.store.links, link_id_pred(l.id), k) && mid.store.links
            == pre.store.links.remove(k);
    // The removed row and the user's first link carry the same primary key,
    // so by key uniqueness they are the same index.
    assert(pre.store.links[k].id == l.id);
    assert(pre.store.links[i_l] == l);
    assert(k == i_l);
    assert forall|j: int| 0 <= j < mid.store.links.len() implies !link_user_pred(uv.id)(
        #[trigger] mid.store.links[j],
    ) by {
        let j0 = if j < k { j } else { j + 1 };
        assert(mid.store.links[j] == pre.store.links[j0]);
        if pre.store.links[j0].user_id == uv.id {
            // Two links of one user would break the one-link-per-user rule.
            assert(link_user_pred(uv.id)(pre.store.links[j0]));
            if j0 < i_l {
                assert(false);
            } else {
                assert(pre.store.links[i_l].user_id != pre.store.links[j0].user_id);
                assert(false);
            }
        }
    }
}

/// Removing a user row keeps the service invariant: links and cache are
/// untouched, and the remaining users are a sub-sequence.
proof fn lemma_delete_user_keeps_client_wf(mid: ClientModel, post: ClientModel)
    requires
        mid.store.wf(),
        one_link_per_user(mid.store.links),
        cache_wf(mid.cache),
        cache_covers_links(mid.cache, mid.store.links),
        cache_ids_below(mid.cache, mid.store.next_user_id),
        post.store.wf(),
        post.cache == mid.cache,
        post.bot_name == mid.bot_name,
        post.store.links == mid.store.links,
        post.store.next_user_id == mid.store.next_user_id,
    ensures
        post.wf(),
{
}

} // verus!
