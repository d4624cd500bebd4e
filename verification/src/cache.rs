//! The directory cache: the in-memory projection of all currently linked
//! users, keyed by external identity.
//!
//! The cache answers "is this external identity known, and as which user"
//! without touching the store on the read path. It is a derived, replaceable
//! projection: a refresh replaces its contents wholesale with rows rebuilt
//! from the store. Every read is fail-closed at the boundary: when an
//! embedding application cannot acquire its lock around the cache, the
//! tagged `CacheRead::LockUnavailable` outcome converts to "not found" or
//! `false`, never to an ambiguous success.

use vstd::prelude::*;

use crate::lookup::{first_where, is_first_where, lemma_first_where_is, lemma_first_where_none};
use crate::user_representation::{EntryModel, UserRepresentation, UserRole};

verus! {

/// Matches the directory entry of a given external identity.
pub open spec fn entry_tid_pred(tid: int) -> spec_fn(EntryModel) -> bool {
    |e: EntryModel| e.telegram_id == Some(tid)
}

/// The first entry mapped to an external identity, if any.
pub open spec fn cache_lookup(entries: Seq<EntryModel>, tid: int) -> Option<EntryModel> {
    first_where(entries, entry_tid_pred(tid))
}

/// The cache's well-formedness: every entry carries an external identity
/// (only linked users are cached), and no two entries share one.
pub open spec fn cache_wf(entries: Seq<EntryModel>) -> bool {
    &&& forall|i: int| 0 <= i < entries.len() ==> (#[trigger] entries[i]).telegram_id is Some
    &&& forall|i: int, j: int|
        #![trigger entries[i], entries[j]]
        0 <= i < j < entries.len() ==> entries[i].telegram_id != entries[j].telegram_id
}

/// The in-memory mapping from external identity to directory entry.
#[derive(Debug)]
pub struct DirectoryCache {
    entries: Vec<UserRepresentation>,
}

impl View for DirectoryCache {
    type V = Seq<EntryModel>;

    closed spec fn view(&self) -> Seq<EntryModel> {
        self.entries@.map_values(|e: UserRepresentation| e@)
    }
}

impl DirectoryCache {
    /// An empty cache.
    pub fn new() -> (c: DirectoryCache)
        ensures
            c@ == Seq::<EntryModel>::empty(),
    {
        let c = DirectoryCache { entries: Vec::new() };
        proof {
            assert(c@ =~= Seq::<EntryModel>::empty());
        }
        c
    }

    /// Replaces the mapping's contents wholesale with freshly rebuilt rows.
    pub fn replace(&mut self, entries: Vec<UserRepresentation>)
        ensures
            final(self)@ == entries@.map_values(|e: UserRepresentation| e@),
    {
        self.entries = entries;
    }

    /// The index of the entry mapped to the identity, if any.
    fn entry_index(&self, telegram_id: i64) -> (r: Option<usize>)
        ensures
            match r {
                Some(i) => is_first_where(self@, entry_tid_pred(telegram_id as int), i as int),
                None => forall|j: int|
                    0 <= j < self@.len() ==> !entry_tid_pred(telegram_id as int)(
                        #[trigger] self@[j],
                    ),
            },
    {
        let mut i: usize = 0;
        while i < self.entries.len()
            invariant
                i <= self.entries.len(),
                self.entries.len() == self@.len(),
                forall|j: int|
                    0 <= j < i ==> !entry_tid_pred(telegram_id as int)(#[trigger] self@[j]),
            decreases self.entries.len() - i,
        {
            let hit = match self.entries[i].telegram_id {
                Some(t) => t == telegram_id,
                None => false,
            };
            if hit {
                return Some(i);
            }
            i = i + 1;
        }
        None
    }

    /// The entry an external identity maps to, cloned out, if any.
    pub fn lookup(&self, telegram_id: i64) -> (r: Option<UserRepresentation>)
        ensures
            match r {
                Some(e) => cache_lookup(self@, telegram_id as int) == Some(e@),
                None => cache_lookup(self@, telegram_id as int) is None,
            },
    {
        match self.entry_index(telegram_id) {
            Some(i) => {
                proof {
                    lemma_first_where_is(self@, entry_tid_pred(telegram_id as int), i as int);
                }
                Some(self.entries[i].clone())
            },
            None => {
                proof {
                    lemma_first_where_none(self@, entry_tid_pred(telegram_id as int));
                }
                None
            },
        }
    }

    /// Whether an external identity is known.
    pub fn contains(&self, telegram_id: i64) -> (r: bool)
        ensures
            r == (cache_lookup(self@, telegram_id as int) is Some),
    {
        match self.entry_index(telegram_id) {
            Some(i) => {
                proof {
                    lemma_first_where_is(self@, entry_tid_pred(telegram_id as int), i as int);
                }
                true
            },
            None => {
                proof {
                    lemma_first_where_none(self@, entry_tid_pred(telegram_id as int));
                }
                false
            },
        }
    }

    /// Whether an external identity is known and maps to an administrator;
    /// an unknown identity is never an administrator.
    pub fn is_admin(&self, telegram_id: i64) -> (r: bool)
        ensures
            r == match cache_lookup(self@, telegram_id as int) {
                Some(e) => e.role == UserRole::Admin,
                None => false,
            },
    {
        match self.entry_index(telegram_id) {
            Some(i) => {
                proof {
                    lemma_first_where_is(self@, entry_tid_pred(telegram_id as int), i as int);
                }
                self.entries[i].is_admin()
            },
            None => {
                proof {
                    lemma_first_where_none(self@, entry_tid_pred(telegram_id as int));
                }
                false
            },
        }
    }

    /// How many entries the cache holds.
    pub fn len(&self) -> (n: usize)
        ensures
            n == self@.len(),
    {
        self.entries.len()
    }
}

/// The outcome of a cache read as an embedding application sees it: either
/// the value read under the lock, or the lock could not be acquired.
#[derive(Debug)]
pub enum CacheRead<T> {
    Available(T),
    LockUnavailable,
}

/// Converts a lookup outcome at the public boundary: a read that could not
/// take the lock answers "not found" rather than an error. A locked-out
/// security check must default to "treat as unauthenticated".
pub fn fail_closed_lookup(outcome: CacheRead<Option<UserRepresentation>>) -> (r: Option<
    UserRepresentation,
>)
    ensures
        match outcome {
            CacheRead::Available(v) => r == v,
            CacheRead::LockUnavailable => r is None,
        },
{
    match outcome {
        CacheRead::Available(v) => v,
        CacheRead::LockUnavailable => None,
    }
}

/// Converts a boolean check at the public boundary: a read that could not
/// take the lock answers `false` rather than an error.
pub fn fail_closed_check(outcome: CacheRead<bool>) -> (r: bool)
    ensures
        match outcome {
            CacheRead::Available(b) => r == b,
            CacheRead::LockUnavailable => !r,
        },
{
    match outcome {
        CacheRead::Available(b) => b,
        CacheRead::LockUnavailable => false,
    }
}

} // verus!
