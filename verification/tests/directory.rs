use telegrambot::client::DatabaseClient;
use telegrambot::errors::DatabaseError;
use telegrambot::model::{NewTelegramAccount, NewUser, TelegramAccount};
use telegrambot::store::Store;
use telegrambot::user_representation::UserRole;

fn fresh_client() -> DatabaseClient {
    DatabaseClient::load(Store::new(), String::from("examplebot"))
}

const TOKEN_ALICE: &str = "T1aaaaaaaaaaaaaaaaaaaaaaaaaaaaaa";

#[test]
fn create_user_returns_the_new_row() {
    let mut client = fresh_client();
    let rep = client
        .create_user_with_token("alice", String::from(TOKEN_ALICE))
        .expect("creating alice");
    assert_eq!(rep.id, 1);
    assert_eq!(rep.name, "alice");
    assert_eq!(rep.start_token, TOKEN_ALICE);
    assert_eq!(rep.role, UserRole::User);
    assert_eq!(rep.telegram_id, None);
    assert_eq!(
        rep.bot_start_url,
        format!("https://t.me/examplebot?start={}", TOKEN_ALICE)
    );
}

#[test]
fn created_users_get_consecutive_ids() {
    let mut client = fresh_client();
    let a = client
        .create_user_with_token("alice", String::from(TOKEN_ALICE))
        .unwrap();
    let b = client
        .create_user_with_token("bob", String::from("T2bbbbbbbbbbbbbbbbbbbbbbbbbbbbbb"))
        .unwrap();
    assert_eq!(a.id, 1);
    assert_eq!(b.id, 2);
}

#[test]
fn random_token_creation_draws_a_32_char_alphanumeric_token() {
    // On a fresh store success is owed: no drawn token can collide.
    let mut client = fresh_client();
    let rep = client.create_user("alice").expect("creating alice");
    assert_eq!(rep.id, 1);
    assert_eq!(rep.name, "alice");
    assert_eq!(rep.role, UserRole::User);
    assert_eq!(rep.telegram_id, None);
    assert_eq!(rep.start_token.chars().count(), 32);
    assert!(rep.start_token.chars().all(|c| c.is_ascii_alphanumeric()));
}

#[test]
fn duplicate_start_token_is_rejected() {
    let mut client = fresh_client();
    client
        .create_user_with_token("alice", String::from(TOKEN_ALICE))
        .unwrap();
    let err = client
        .create_user_with_token("bob", String::from(TOKEN_ALICE))
        .unwrap_err();
    assert!(matches!(err, DatabaseError::CreateError(_)));
    // The failed create inserted nothing.
    assert_eq!(client.list_users().len(), 1);
}

#[test]
fn creation_does_not_touch_the_directory() {
    let mut client = fresh_client();
    client
        .create_user_with_token("alice", String::from(TOKEN_ALICE))
        .unwrap();
    assert!(!client.known_user_exists(555));
    assert!(client.known_user(555).is_none());
    assert_eq!(client.list_registered_users().len(), 0);
}

#[test]
fn register_links_a_fresh_token() {
    let mut client = fresh_client();
    client
        .create_user_with_token("alice", String::from(TOKEN_ALICE))
        .unwrap();
    let entry = client
        .register_telegram_account_of_user(TOKEN_ALICE, 555)
        .expect("registering alice");
    assert_eq!(entry.id, 1);
    assert_eq!(entry.name, "alice");
    assert_eq!(entry.telegram_id, Some(555));
    assert!(client.known_user_exists(555));
    assert_eq!(client.list_telegram_accounts().len(), 1);
    let link = &client.list_telegram_accounts()[0];
    assert_eq!(link.id, 555);
    assert_eq!(link.user_id, 1);
}

#[test]
fn register_twice_returns_the_identical_entry_without_a_new_write() {
    let mut client = fresh_client();
    client
        .create_user_with_token("alice", String::from(TOKEN_ALICE))
        .unwrap();
    let first = client
        .register_telegram_account_of_user(TOKEN_ALICE, 555)
        .unwrap();
    let again = client
        .register_telegram_account_of_user(TOKEN_ALICE, 555)
        .unwrap();
    assert_eq!(first, again);
    assert_eq!(client.list_telegram_accounts().len(), 1);
    assert_eq!(client.list_users().len(), 1);
}

#[test]
fn register_with_a_different_identity_is_a_conflict() {
    let mut client = fresh_client();
    client
        .create_user_with_token("alice", String::from(TOKEN_ALICE))
        .unwrap();
    let entry = client
        .register_telegram_account_of_user(TOKEN_ALICE, 555)
        .unwrap();
    let err = client
        .register_telegram_account_of_user(TOKEN_ALICE, 777)
        .unwrap_err();
    assert!(matches!(err, DatabaseError::Conflict(_)));
    // The existing link is untouched.
    assert_eq!(client.known_user(555), Some(entry));
    assert!(!client.known_user_exists(777));
    assert_eq!(client.list_telegram_accounts().len(), 1);
    assert_eq!(client.list_telegram_accounts()[0].id, 555);
}

#[test]
fn register_with_an_unknown_token_is_not_found() {
    let mut client = fresh_client();
    client
        .create_user_with_token("alice", String::from(TOKEN_ALICE))
        .unwrap();
    let err = client
        .register_telegram_account_of_user("unknown", 999)
        .unwrap_err();
    assert!(matches!(err, DatabaseError::UnknownUser(_)));
    // No rows were created.
    assert_eq!(client.list_users().len(), 1);
    assert_eq!(client.list_telegram_accounts().len(), 0);
    assert!(!client.known_user_exists(999));
}

#[test]
fn delete_removes_exactly_one_user_row_and_its_link() {
    let mut client = fresh_client();
    client
        .create_user_with_token("alice", String::from(TOKEN_ALICE))
        .unwrap();
    client
        .create_user_with_token("bob", String::from("T2bbbbbbbbbbbbbbbbbbbbbbbbbbbbbb"))
        .unwrap();
    client
        .register_telegram_account_of_user(TOKEN_ALICE, 555)
        .unwrap();
    let deleted = client.delete_user("alice").expect("deleting alice");
    assert_eq!(deleted.name, "alice");
    assert_eq!(deleted.telegram_id, Some(555));
    assert_eq!(client.list_users().len(), 1);
    assert_eq!(client.list_users()[0].name, "bob");
    assert_eq!(client.list_telegram_accounts().len(), 0);
}

#[test]
fn delete_of_an_unlinked_user_leaves_links_alone() {
    let mut client = fresh_client();
    client
        .create_user_with_token("alice", String::from(TOKEN_ALICE))
        .unwrap();
    let deleted = client.delete_user("alice").unwrap();
    assert_eq!(deleted.telegram_id, None);
    assert_eq!(client.list_users().len(), 0);
}

#[test]
fn delete_of_an_unknown_name_is_not_found_with_no_side_effects() {
    let mut client = fresh_client();
    client
        .create_user_with_token("alice", String::from(TOKEN_ALICE))
        .unwrap();
    let err = client.delete_user("carol").unwrap_err();
    assert!(matches!(err, DatabaseError::UnknownUser(_)));
    assert_eq!(client.list_users().len(), 1);
}

#[test]
fn deletion_leaves_the_directory_stale_until_the_next_rebuild() {
    // Deleting a linked user does not refresh the cache: the identity stays
    // resolvable until the next full rebuild. The gap is deliberate.
    let mut client = fresh_client();
    client
        .create_user_with_token("alice", String::from(TOKEN_ALICE))
        .unwrap();
    client
        .register_telegram_account_of_user(TOKEN_ALICE, 555)
        .unwrap();
    client.delete_user("alice").unwrap();
    assert!(client.known_user_exists(555));
    // The store itself no longer has the link.
    assert_eq!(client.list_telegram_accounts().len(), 0);
    assert_eq!(client.list_registered_users().len(), 0);
}

#[test]
fn admin_checks_go_by_the_cached_role() {
    let mut store = Store::new();
    store
        .create_user(NewUser {
            name: String::from("root"),
            start: String::from(TOKEN_ALICE),
            role: UserRole::Admin,
        })
        .unwrap();
    store
        .insert_identity_link(NewTelegramAccount { id: 42, user_id: 1 })
        .unwrap();
    let client = DatabaseClient::load(store, String::from("examplebot"));
    assert!(client.known_admin_user_exists(42));
    assert!(!client.known_admin_user_exists(43));
    let entry = client.known_user(42).unwrap();
    assert!(entry.is_admin());
    assert_eq!(entry.role, UserRole::Admin);
}

#[test]
fn load_populates_the_directory_from_linked_users_only() {
    let mut store = Store::new();
    store
        .create_user(NewUser {
            name: String::from("alice"),
            start: String::from(TOKEN_ALICE),
            role: UserRole::User,
        })
        .unwrap();
    store
        .create_user(NewUser {
            name: String::from("bob"),
            start: String::from("T2bbbbbbbbbbbbbbbbbbbbbbbbbbbbbb"),
            role: UserRole::User,
        })
        .unwrap();
    store
        .insert_identity_link(NewTelegramAccount { id: 555, user_id: 1 })
        .unwrap();
    let client = DatabaseClient::load(store, String::from("examplebot"));
    assert!(client.known_user_exists(555));
    let listed = client.list_users();
    assert_eq!(listed.len(), 2);
    assert_eq!(listed[0].telegram_id, Some(555));
    assert_eq!(listed[1].telegram_id, None);
    assert_eq!(client.list_registered_users().len(), 1);
}

#[test]
fn lookups_by_name_and_token_report_the_merged_entry() {
    let mut client = fresh_client();
    client
        .create_user_with_token("alice", String::from(TOKEN_ALICE))
        .unwrap();
    client
        .register_telegram_account_of_user(TOKEN_ALICE, 555)
        .unwrap();
    let by_name = client.get_user_by_name("alice").unwrap();
    assert_eq!(by_name.telegram_id, Some(555));
    let by_token = client.get_user_with_start_token(TOKEN_ALICE).unwrap();
    assert_eq!(by_token, by_name);
    assert!(matches!(
        client.get_user_by_name("carol"),
        Err(DatabaseError::UnknownUser(_))
    ));
    assert!(matches!(
        client.get_user_with_start_token("nope"),
        Err(DatabaseError::UnknownUser(_))
    ));
}

#[test]
fn store_rejects_duplicate_and_dangling_links() {
    let mut store = Store::new();
    store
        .create_user(NewUser {
            name: String::from("alice"),
            start: String::from(TOKEN_ALICE),
            role: UserRole::User,
        })
        .unwrap();
    store
        .insert_identity_link(NewTelegramAccount { id: 555, user_id: 1 })
        .unwrap();
    // Duplicate primary key (the external identity).
    let dup = store
        .insert_identity_link(NewTelegramAccount { id: 555, user_id: 1 })
        .unwrap_err();
    assert!(matches!(dup, DatabaseError::CreateError(_)));
    // Foreign-key violation: no user row carries id 9.
    let dangling = store
        .insert_identity_link(NewTelegramAccount { id: 777, user_id: 9 })
        .unwrap_err();
    assert!(matches!(dangling, DatabaseError::CreateError(_)));
}

#[test]
fn store_refuses_to_delete_a_still_linked_user_row() {
    let mut store = Store::new();
    store
        .create_user(NewUser {
            name: String::from("alice"),
            start: String::from(TOKEN_ALICE),
            role: UserRole::User,
        })
        .unwrap();
    store
        .insert_identity_link(NewTelegramAccount { id: 555, user_id: 1 })
        .unwrap();
    let err = store.delete_user_row("alice").unwrap_err();
    assert!(matches!(err, DatabaseError::DeleteError(_)));
    // After the link goes, the row can.
    store.delete_identity_link(555).unwrap();
    let removed = store.delete_user_row("alice").unwrap();
    assert_eq!(removed.name, "alice");
    let missing = store.delete_identity_link(555).unwrap_err();
    assert!(matches!(missing, DatabaseError::DeleteError(_)));
}

#[test]
fn error_messages_name_the_offending_input() {
    let mut client = fresh_client();
    let err = client
        .register_telegram_account_of_user("sesame", 1)
        .unwrap_err();
    match err {
        DatabaseError::UnknownUser(message) => {
            assert_eq!(message, "no user with start token 'sesame'");
        }
        other => panic!("expected an unknown-user error, got {:?}", other),
    }
    let err = client.delete_user("carol").unwrap_err();
    match err {
        DatabaseError::UnknownUser(message) => {
            assert_eq!(message, "no user with name 'carol'");
        }
        other => panic!("expected an unknown-user error, got {:?}", other),
    }
}

#[test]
fn snapshots_are_validated_before_they_become_a_store() {
    let alice = || telegrambot::model::User {
        id: 1,
        name: String::from("alice"),
        start: String::from(TOKEN_ALICE),
        role: UserRole::User,
    };
    let ok = Store::from_rows(vec![alice()], vec![TelegramAccount { id: 555, user_id: 1 }], 2);
    assert!(ok.is_ok());

    // A user id at or above the counter is refused.
    assert!(Store::from_rows(vec![alice()], Vec::new(), 1).is_err());
    // Duplicate user ids are refused.
    let mut twin = alice();
    twin.start = String::from("Tother");
    assert!(Store::from_rows(vec![alice(), twin], Vec::new(), 2).is_err());
    // Duplicate start tokens are refused.
    let mut other = alice();
    other.id = 2;
    assert!(Store::from_rows(vec![alice(), other], Vec::new(), 3).is_err());
    // A link without its user is refused.
    assert!(Store::from_rows(
        vec![alice()],
        vec![TelegramAccount { id: 555, user_id: 9 }],
        2
    )
    .is_err());
    // Duplicate link keys are refused.
    assert!(Store::from_rows(
        vec![alice()],
        vec![
            TelegramAccount { id: 555, user_id: 1 },
            TelegramAccount { id: 555, user_id: 1 }
        ],
        2
    )
    .is_err());
}

#[test]
fn invariant_checkers_report_what_loaded_rows_hold() {
    let alice = telegrambot::model::User {
        id: 1,
        name: String::from("alice"),
        start: String::from(TOKEN_ALICE),
        role: UserRole::User,
    };
    let alias = telegrambot::model::User {
        id: 2,
        name: String::from("alice"),
        start: String::from("Tother"),
        role: UserRole::User,
    };
    // The store's own invariants admit two links on one user and duplicate
    // names; the checkers the protocol and deletion rely on report them.
    let store = Store::from_rows(
        vec![alice, alias],
        vec![
            TelegramAccount { id: 555, user_id: 1 },
            TelegramAccount { id: 777, user_id: 1 },
        ],
        3,
    )
    .unwrap();
    assert!(!store.protocol_link_invariant_holds());
    assert!(!store.name_occurs_at_most_once("alice"));
    assert!(store.name_occurs_at_most_once("bob"));

    let clean = Store::new();
    assert!(clean.protocol_link_invariant_holds());
}

#[test]
fn stale_directory_entries_still_answer_the_fast_path() {
    // After a delete the cache keeps the entry, so re-registering the same
    // identity short-circuits to the stale entry while an unknown identity
    // sees the store's truth.
    let mut client = fresh_client();
    client
        .create_user_with_token("alice", String::from(TOKEN_ALICE))
        .unwrap();
    let entry = client
        .register_telegram_account_of_user(TOKEN_ALICE, 555)
        .unwrap();
    client.delete_user("alice").unwrap();
    let replay = client
        .register_telegram_account_of_user(TOKEN_ALICE, 555)
        .unwrap();
    assert_eq!(replay, entry);
    let err = client
        .register_telegram_account_of_user(TOKEN_ALICE, 999)
        .unwrap_err();
    assert!(matches!(err, DatabaseError::UnknownUser(_)));
}

#[test]
fn links_and_directory_entries_stay_unique_across_operations() {
    let mut client = fresh_client();
    client
        .create_user_with_token("alice", String::from(TOKEN_ALICE))
        .unwrap();
    client
        .create_user_with_token("bob", String::from("T2bbbbbbbbbbbbbbbbbbbbbbbbbbbbbb"))
        .unwrap();
    client
        .register_telegram_account_of_user(TOKEN_ALICE, 555)
        .unwrap();
    client
        .register_telegram_account_of_user("T2bbbbbbbbbbbbbbbbbbbbbbbbbbbbbb", 777)
        .unwrap();
    // Replays and conflicting attempts must not mint extra rows.
    let _ = client.register_telegram_account_of_user(TOKEN_ALICE, 555);
    let _ = client.register_telegram_account_of_user(TOKEN_ALICE, 999);

    let links = client.list_telegram_accounts();
    for i in 0..links.len() {
        for j in 0..links.len() {
            if i != j {
                assert_ne!(links[i].id, links[j].id);
                assert_ne!(links[i].user_id, links[j].user_id);
            }
        }
    }
    let entries = client.list_registered_users();
    for i in 0..entries.len() {
        for j in 0..entries.len() {
            if i != j {
                assert_ne!(entries[i].telegram_id, entries[j].telegram_id);
            }
        }
    }
}
