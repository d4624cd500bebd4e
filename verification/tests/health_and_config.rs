use telegrambot::cache::{fail_closed_check, fail_closed_lookup, CacheRead, DirectoryCache};
use telegrambot::connection::ConnectionOptions;
use telegrambot::errors::DatabaseError;
use telegrambot::handlers::{empty_token_reply, registration_reply};
use telegrambot::healthcheck::{
    collect_healthcheck, HealthcheckResult, HealthcheckTaskResult, TaskResult,
    TelegramUpdateMode, TelegramWebhookInfoResponse, TelegramWebhookInfoResult, WebhookCheckTask,
};
use telegrambot::storage_config::BotStorageConfig;
use telegrambot::token::random_start_token;
use telegrambot::user_representation::{UserRepresentation, UserRole};

fn sample_info(url: &str) -> TelegramWebhookInfoResult {
    TelegramWebhookInfoResult {
        url: String::from(url),
        has_custom_certificate: false,
        pending_update_count: 0,
        ip_address: None,
        last_error_message: None,
        last_error_date: None,
        max_connections: Some(40),
    }
}

fn ok_response(url: &str) -> TelegramWebhookInfoResponse {
    TelegramWebhookInfoResponse { ok: Some(true), error_code: None, result: sample_info(url) }
}

#[test]
fn healthy_reply_passes() {
    let verdict = ok_response("https://bot.example/bot").check_get_updates_mode();
    assert!(verdict.healthy);
    assert!(matches!(verdict.mode, TelegramUpdateMode::GetUpdates));
    assert_eq!(verdict.message, None);
    assert!(verdict.result.is_some());
}

#[test]
fn missing_ok_field_fails_with_unknown_error() {
    let response = TelegramWebhookInfoResponse {
        ok: None,
        error_code: None,
        result: sample_info(""),
    };
    let verdict = response.check_get_updates_mode();
    assert!(!verdict.healthy);
    assert_eq!(verdict.message.as_deref(), Some("Unknown error"));
}

#[test]
fn error_404_names_bad_authentication() {
    let response = TelegramWebhookInfoResponse {
        ok: Some(false),
        error_code: Some(404),
        result: sample_info(""),
    };
    let verdict = response.check_get_updates_mode();
    assert!(!verdict.healthy);
    assert_eq!(verdict.message.as_deref(), Some("Invalid/missing authentication."));
}

#[test]
fn webhook_url_mismatch_fails_even_when_the_reply_is_healthy() {
    let verdict = ok_response("https://other.example/bot")
        .check_webhook_mode("https://bot.example/bot");
    assert!(!verdict.healthy);
    assert!(matches!(verdict.mode, TelegramUpdateMode::Webhook));
    let message = verdict.message.unwrap();
    assert!(message.contains("https://other.example/bot"));
    assert!(message.contains("https://bot.example/bot"));
}

#[test]
fn matching_webhook_url_passes() {
    let verdict = ok_response("https://bot.example/bot")
        .check_webhook_mode("https://bot.example/bot");
    assert!(verdict.healthy);
    assert_eq!(verdict.message, None);
}

#[test]
fn assess_prefers_webhook_mode_when_a_url_is_configured() {
    let with_url = WebhookCheckTask::assess(
        Ok(ok_response("https://bot.example/bot")),
        Some(String::from("https://bot.example/bot")),
    );
    assert!(with_url.healthy);
    assert!(matches!(with_url.mode, TelegramUpdateMode::Webhook));

    let without_url = WebhookCheckTask::assess(Ok(ok_response("")), None);
    assert!(without_url.healthy);
    assert!(matches!(without_url.mode, TelegramUpdateMode::GetUpdates));

    let failed = WebhookCheckTask::assess(Err(String::from("timed out")), None);
    assert!(!failed.healthy);
    assert!(matches!(failed.mode, TelegramUpdateMode::Error));
    assert_eq!(failed.message.as_deref(), Some("WebhookInfoError: timed out"));
    assert!(failed.result.is_none());
}

#[test]
fn webhook_task_reports_its_recorded_verdict() {
    let mut task = WebhookCheckTask::new();
    assert!(matches!(task.check_result(), HealthcheckTaskResult::Unchecked));
    let unrun = task.get_result();
    assert_eq!(unrun.name, "WebhookInfo");
    assert!(matches!(unrun.result, HealthcheckResult::NoResult(_)));

    task.record(ok_response("").check_get_updates_mode());
    assert!(matches!(task.check_result(), HealthcheckTaskResult::Success));
    let reported = task.get_result();
    assert!(matches!(reported.result, HealthcheckResult::WebhookInfo(v) if v.healthy));

    task.record(WebhookCheckTask::assess(Err(String::from("down")), None));
    assert!(matches!(task.check_result(), HealthcheckTaskResult::Failed));
}

#[test]
fn collected_health_is_the_conjunction_over_checked_tasks() {
    let tasks = vec![TaskResult {
        name: String::from("WebhookInfo"),
        result: HealthcheckResult::NoResult(String::from("No result")),
    }];
    let all_good = collect_healthcheck(
        &vec![HealthcheckTaskResult::Success, HealthcheckTaskResult::Unchecked],
        tasks,
    );
    assert!(all_good.healthy);
    assert_eq!(all_good.tasks.len(), 1);

    let one_failed = collect_healthcheck(
        &vec![HealthcheckTaskResult::Success, HealthcheckTaskResult::Failed],
        Vec::new(),
    );
    assert!(!one_failed.healthy);

    let none = collect_healthcheck(&Vec::new(), Vec::new());
    assert!(none.healthy);
}

#[test]
fn roles_parse_from_stored_text_with_a_fail_safe_default() {
    assert_eq!(UserRole::from_text("user"), UserRole::User);
    assert_eq!(UserRole::from_text("admin"), UserRole::Admin);
    assert_eq!(UserRole::from_text("sudo"), UserRole::User);
    assert_eq!(UserRole::from_text(""), UserRole::User);
    assert_eq!(UserRole::User.as_text(), "user");
    assert_eq!(UserRole::Admin.as_text(), "admin");
}

#[test]
fn registration_replies_follow_the_outcome() {
    let entry = UserRepresentation {
        id: 1,
        name: String::from("alice"),
        start_token: String::from("t"),
        bot_start_url: String::from("https://t.me/examplebot?start=t"),
        role: UserRole::User,
        telegram_id: Some(5),
    };
    assert_eq!(
        registration_reply(&Ok(entry)),
        "You were successfully registered."
    );
    assert_eq!(
        registration_reply(&Err(DatabaseError::UnknownUser(String::from("x")))),
        "Could not find the user."
    );
    assert_eq!(
        registration_reply(&Err(DatabaseError::CreateError(String::from("x")))),
        "Could not create the user."
    );
    assert_eq!(
        registration_reply(&Err(DatabaseError::Conflict(String::from("x")))),
        "An error occurred."
    );
    assert_eq!(
        registration_reply(&Err(DatabaseError::Other(String::from("x")))),
        "An error occurred."
    );
    assert_eq!(
        registration_reply(&Err(DatabaseError::Connection(String::from("x")))),
        "An error occurred."
    );
    assert_eq!(empty_token_reply(), "Did not receive any data from you.");
}

#[test]
fn cache_reads_fail_closed_when_the_lock_is_unavailable() {
    let entry = UserRepresentation {
        id: 1,
        name: String::from("alice"),
        start_token: String::from("t"),
        bot_start_url: String::from("u"),
        role: UserRole::Admin,
        telegram_id: Some(5),
    };
    assert_eq!(
        fail_closed_lookup(CacheRead::Available(Some(entry.clone()))),
        Some(entry)
    );
    assert_eq!(fail_closed_lookup(CacheRead::Available(None)), None);
    assert_eq!(fail_closed_lookup(CacheRead::LockUnavailable), None);
    assert!(fail_closed_check(CacheRead::Available(true)));
    assert!(!fail_closed_check(CacheRead::Available(false)));
    assert!(!fail_closed_check(CacheRead::LockUnavailable));
}

#[test]
fn cache_contents_are_replaced_wholesale() {
    let mut cache = DirectoryCache::new();
    assert_eq!(cache.len(), 0);
    assert!(!cache.contains(5));
    let entry = UserRepresentation {
        id: 1,
        name: String::from("alice"),
        start_token: String::from("t"),
        bot_start_url: String::from("u"),
        role: UserRole::Admin,
        telegram_id: Some(5),
    };
    cache.replace(vec![entry.clone()]);
    assert_eq!(cache.len(), 1);
    assert!(cache.contains(5));
    assert!(cache.is_admin(5));
    assert!(!cache.is_admin(6));
    assert_eq!(cache.lookup(5), Some(entry));
    cache.replace(Vec::new());
    assert!(!cache.contains(5));
}

#[test]
fn database_locations_derive_from_the_data_directory() {
    let config = BotStorageConfig::from_directories(
        String::from("/var/log/telegrambot/"),
        String::from("/var/lib/telegrambot"),
    );
    assert_eq!(config.database_path(), "/var/lib/telegrambot/db.sqlite");
    assert_eq!(config.database_url(), "sqlite:///var/lib/telegrambot/db.sqlite");

    let trailing = BotStorageConfig::from_directories(
        String::from("/var/log/telegrambot/"),
        String::from("/var/lib/telegrambot/"),
    );
    assert_eq!(trailing.database_path(), "/var/lib/telegrambot/db.sqlite");

    let empty = BotStorageConfig::from_directories(String::new(), String::new());
    assert_eq!(empty.database_path(), "db.sqlite");
    assert_eq!(empty.database_url(), "sqlite://db.sqlite");
}

#[test]
fn start_tokens_are_32_alphanumeric_characters() {
    let token = random_start_token();
    assert_eq!(token.chars().count(), 32);
    assert!(token.chars().all(|c| c.is_ascii_alphanumeric()));
}

#[test]
fn standard_connection_options_serialize_store_access() {
    let options = ConnectionOptions::standard();
    assert!(options.enable_wal);
    assert!(options.enable_foreign_keys);
    assert_eq!(options.busy_timeout, Some(30000));
}

#[test]
fn error_message_accessor_hands_the_payload_back() {
    let err = DatabaseError::Connection(String::from("pool timed out"));
    assert_eq!(err.message(), "pool timed out");
    let err = DatabaseError::DeleteError(String::from("rejected"));
    assert_eq!(err.message(), "rejected");
}
