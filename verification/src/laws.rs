//! The laws the directory layer obeys, stated over the service's
//! mathematical model and proved once and for all.

use vstd::prelude::*;

use crate::cache::{cache_lookup, entry_tid_pred};
use crate::client::{
    entry_exists_for, lemma_directory_lookup, lemma_user_row_by_id, token_pred_of, ClientModel,
};
use crate::errors::ErrorModel;
use crate::lookup::{
    is_first_where, lemma_first_where_exists, lemma_first_where_none, lemma_first_where_some,
};
use crate::model::LinkModel;
use crate::store::{link_id_pred, link_user_pred, one_link_per_user, StoreModel};
use crate::user_representation::entry_of;

verus! {

/// Registering is idempotent: when a registration succeeds, running the very
/// same registration again returns the identical directory entry and leaves
/// the whole service state — store included — untouched.
pub proof fn lemma_register_idempotent(m: ClientModel, token: Seq<char>, tid: int)
    requires
        m.wf(),
        m.register_outcome(token, tid) is Ok,
    ensures
        m.register_post(token, tid).register_post(token, tid) == m.register_post(token, tid),
        m.register_post(token, tid).register_outcome(token, tid) == m.register_outcome(
            token,
            tid,
        ),
{
    let m1 = m.register_post(token, tid);
    match cache_lookup(m.cache, tid) {
        Some(_) => {
        },
        None => {
            let u = m.store.find_by_token(token)->0;
            match m.store.link_for_user(u.id) {
                Some(_) => {
                },
                None => {
                    let newl = LinkModel { id: tid, user_id: u.id };
                    let s2 = StoreModel {
                        users: m.store.users,
                        links: m.store.links.push(newl),
                        next_user_id: m.store.next_user_id,
                    };
                    lemma_insert_state_wf(m, token, tid);
                    lemma_directory_lookup(s2, m.bot_name, s2.links.len() - 1);
                    lemma_first_where_some(m.store.users, token_pred_of(token));
                    let i0 = choose|i: int|
                        is_first_where(m.store.users, token_pred_of(token), i);
                    lemma_user_row_by_id(m1.store, i0);
                    assert(s2.user_by_id(u.id) == Some(u));
                    assert(cache_lookup(m1.cache, tid) == Some(
                        entry_of(u, Some(newl), m.bot_name),
                    ));
                },
            }
        },
    }
}

/// Read-after-write: a registration that succeeds observes its own write —
/// looking the identity up in the directory it leaves behind answers exactly
/// the entry the registration returned.
pub proof fn lemma_register_read_after_write(m: ClientModel, token: Seq<char>, tid: int)
    requires
        m.wf(),
        m.register_outcome(token, tid) is Ok,
    ensures
        cache_lookup(m.register_post(token, tid).cache, tid) == Some(
            m.register_outcome(token, tid)->Ok_0,
        ),
{
    match cache_lookup(m.cache, tid) {
        Some(_) => {
        },
        None => {
            let u = m.store.find_by_token(token)->0;
            match m.store.link_for_user(u.id) {
                Some(l) => {
                    // The token's user is linked to this same identity, yet
                    // the identity missed the cache: the cache covers every
                    // live link, so this cannot happen in a well-formed
                    // service.
                    lemma_first_where_some(m.store.links, link_user_pred(u.id));
                    let k = choose|k: int|
                        is_first_where(m.store.links, link_user_pred(u.id), k);
                    assert(entry_exists_for(m.cache, m.store.links[k].id));
                    let c = choose|c: int|
                        0 <= c < m.cache.len() && (#[trigger] m.cache[c]).telegram_id == Some(tid);
                    lemma_first_where_exists(m.cache, entry_tid_pred(tid), c);
                    assert(false);
                },
                None => {
                    let newl = LinkModel { id: tid, user_id: u.id };
                    let s2 = StoreModel {
                        users: m.store.users,
                        links: m.store.links.push(newl),
                        next_user_id: m.store.next_user_id,
                    };
                    lemma_insert_state_wf(m, token, tid);
                    lemma_directory_lookup(s2, m.bot_name, s2.links.len() - 1);
                    lemma_first_where_some(m.store.users, token_pred_of(token));
                    let i0 = choose|i: int|
                        is_first_where(m.store.users, token_pred_of(token), i);
                    lemma_user_row_by_id(s2, i0);
                    assert(s2.user_by_id(u.id) == Some(u));
                },
            }
        },
    }
}

/// The protocol never overwrites an existing link: whatever a registration
/// does, every link the store already held — and every user row, and the id
/// counter — is exactly as it was.
pub proof fn lemma_register_never_rebinds(m: ClientModel, token: Seq<char>, tid: int)
    ensures
        m.register_post(token, tid).store.users == m.store.users,
        m.register_post(token, tid).store.next_user_id == m.store.next_user_id,
        m.register_post(token, tid).store.links.len() >= m.store.links.len(),
        forall|i: int|
            0 <= i < m.store.links.len() ==> m.register_post(token, tid).store.links[i]
                == m.store.links[i],
{
}

/// Conflict rejection: when the token's user is already linked to a
/// different external identity, registration fails as a conflict and
/// mutates nothing — the existing link stays exactly as it was.
pub proof fn lemma_register_conflict(m: ClientModel, token: Seq<char>, tid: int)
    requires
        m.wf(),
        cache_lookup(m.cache, tid) is None,
        m.store.find_by_token(token) is Some,
        m.store.link_for_user(m.store.find_by_token(token)->0.id) is Some,
        m.store.link_for_user(m.store.find_by_token(token)->0.id)->0.id != tid,
    ensures
        m.register_outcome(token, tid) == Err::<
            crate::user_representation::EntryModel,
            ErrorModel,
        >(ErrorModel::Conflict(crate::errors::msg_conflict())),
        m.register_post(token, tid) == m,
{
}

/// Unknown token: when no user holds the token and the identity is not yet
/// known, registration fails as not found and mutates nothing.
pub proof fn lemma_register_unknown_token(m: ClientModel, token: Seq<char>, tid: int)
    requires
        m.wf(),
        cache_lookup(m.cache, tid) is None,
        m.store.find_by_token(token) is None,
    ensures
        m.register_outcome(token, tid) == Err::<
            crate::user_representation::EntryModel,
            ErrorModel,
        >(ErrorModel::UnknownUser(crate::errors::msg_unknown_token(token))),
        m.register_post(token, tid) == m,
{
}

/// Uniqueness: in a well-formed service no two cache entries share an
/// external identity, and no two identity links in the store share a user.
pub proof fn lemma_directory_uniqueness(m: ClientModel)
    requires
        m.wf(),
    ensures
        forall|i: int, j: int|
            #![trigger m.cache[i], m.cache[j]]
            0 <= i < j < m.cache.len() ==> m.cache[i].telegram_id != m.cache[j].telegram_id,
        forall|i: int, j: int|
            #![trigger m.store.links[i], m.store.links[j]]
            0 <= i < j < m.store.links.len() ==> m.store.links[i].user_id
                != m.store.links[j].user_id,
{
}

/// Creation visibility: a user whose id the store has not assigned yet — in
/// particular one created by the very next insert — is invisible to every
/// directory read: no external identity resolves to such an id.
pub proof fn lemma_creation_visibility(m: ClientModel, created_id: int, tid: int)
    requires
        m.wf(),
        created_id >= m.store.next_user_id,
    ensures
        match cache_lookup(m.cache, tid) {
            Some(e) => e.id != created_id,
            None => true,
        },
{
    if cache_lookup(m.cache, tid) is Some {
        lemma_first_where_some(m.cache, entry_tid_pred(tid));
    }
}

/// In a well-formed service, a registration that misses the cache and finds
/// an unlinked user owes success: the insert cannot be rejected. The fresh
/// state is well-formed again.
pub proof fn lemma_insert_state_wf(m: ClientModel, token: Seq<char>, tid: int)
    requires
        m.wf(),
        cache_lookup(m.cache, tid) is None,
        m.store.find_by_token(token) is Some,
        m.store.link_for_user(m.store.find_by_token(token)->0.id) is None,
    ensures
        ({
            let u = m.store.find_by_token(token)->0;
            let s2 = StoreModel {
                users: m.store.users,
                links: m.store.links.push(LinkModel { id: tid, user_id: u.id }),
                next_user_id: m.store.next_user_id,
            };
            &&& m.store.link_by_id(tid) is None
            &&& s2.wf()
            &&& one_link_per_user(s2.links)
        }),
{
    let u = m.store.find_by_token(token)->0;
    let s2 = StoreModel {
        users: m.store.users,
        links: m.store.links.push(LinkModel { id: tid, user_id: u.id }),
        next_user_id: m.store.next_user_id,
    };
    assert forall|j: int| 0 <= j < m.store.links.len() implies !link_id_pred(tid)(
        #[trigger] m.store.links[j],
    ) by {
        if m.store.links[j].id == tid {
            assert(entry_exists_for(m.cache, tid));
            let k = choose|k: int|
                0 <= k < m.cache.len() && (#[trigger] m.cache[k]).telegram_id == Some(tid);
            lemma_first_where_exists(m.cache, entry_tid_pred(tid), k);
            assert(false);
        }
    }
    lemma_first_where_none(m.store.links, link_id_pred(tid));
    lemma_first_where_some(m.store.users, token_pred_of(token));
    let i0 = choose|i: int| is_first_where(m.store.users, token_pred_of(token), i);
    crate::lookup::lemma_first_where_none_inv(m.store.links, link_user_pred(u.id));
    assert forall|i: int, j: int|
        #![trigger s2.links[i], s2.links[j]]
        0 <= i < j < s2.links.len() implies s2.links[i].id != s2.links[j].id by {
        if j == s2.links.len() - 1 {
            assert(!link_id_pred(tid)(m.store.links[i]));
        }
    }
    assert forall|i: int, j: int|
        #![trigger s2.links[i], s2.links[j]]
        0 <= i < j < s2.links.len() implies s2.links[i].user_id != s2.links[j].user_id by {
        if j == s2.links.len() - 1 {
            assert(!link_user_pred(u.id)(m.store.links[i]));
        }
    }
    assert forall|i: int| 0 <= i < s2.links.len() implies crate::store::user_exists(
        s2.users,
        (#[trigger] s2.links[i]).user_id,
    ) by {
        if i == s2.links.len() - 1 {
            assert(m.store.users[i0].id == u.id);
            assert(crate::store::user_exists(m.store.users, u.id));
        } else {
            assert(s2.links[i] == m.store.links[i]);
            assert(crate::store::user_exists(m.store.users, m.store.links[i].user_id));
        }
    }
}

} // verus!
