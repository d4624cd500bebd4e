//! Assessment of the bot's health from the messaging platform's webhook
//! report. Fetching the report is I/O an embedding application performs;
//! judging it happens here.

use vstd::prelude::*;
use vstd::string::*;

verus! {

/// How the bot receives updates, as the health check classifies it.
#[derive(Clone, Copy, Debug, PartialEq, Eq, Structural)]
pub enum TelegramUpdateMode {
    GetUpdates,
    Webhook,
    Error,
}

/// The webhook state the platform reports for the bot.
#[derive(Debug, PartialEq)]
pub struct TelegramWebhookInfoResult {
    /// Webhook URL; empty when no webhook is set up.
    pub url: String,
    /// Whether a custom certificate was provided for webhook checks.
    pub has_custom_certificate: bool,
    /// Number of updates awaiting delivery.
    pub pending_update_count: u64,
    /// The webhook IP address currently used, when reported.
    pub ip_address: Option<String>,
    /// The most recent delivery error, in human-readable form, when any.
    pub last_error_message: Option<String>,
    /// Unix time of the most recent delivery error, when any.
    pub last_error_date: Option<String>,
    /// The maximum number of simultaneous connections for update delivery.
    pub max_connections: Option<u64>,
}

fn clone_opt_string(o: &Option<String>) -> (r: Option<String>)
    ensures
        r == *o,
{
    match o {
        Some(s) => Some(s.clone()),
        None => None,
    }
}

impl Clone for TelegramWebhookInfoResult {
    fn clone(&self) -> (res: Self)
        ensures
            res == *self,
    {
        TelegramWebhookInfoResult {
            url: self.url.clone(),
            has_custom_certificate: self.has_custom_certificate,
            pending_update_count: self.pending_update_count,
            ip_address: clone_opt_string(&self.ip_address),
            last_error_message: clone_opt_string(&self.last_error_message),
            last_error_date: clone_opt_string(&self.last_error_date),
            max_connections: self.max_connections,
        }
    }
}

/// The platform's reply to a webhook-info request. A 404 error code
/// indicates unknown or invalid bot authentication credentials.
#[derive(Debug, PartialEq)]
pub struct TelegramWebhookInfoResponse {
    pub ok: Option<bool>,
    pub error_code: Option<u64>,
    pub result: TelegramWebhookInfoResult,
}

impl Clone for TelegramWebhookInfoResponse {
    fn clone(&self) -> (res: Self)
        ensures
            res == *self,
    {
        TelegramWebhookInfoResponse {
            ok: self.ok,
            error_code: self.error_code,
            result: self.result.clone(),
        }
    }
}

/// A health verdict over the webhook report: the mode checked, whether it
/// passed, an explanation when it did not, and the report itself.
#[derive(Debug, PartialEq)]
pub struct WebhookCheckResult {
    pub healthy: bool,
    pub mode: TelegramUpdateMode,
    pub message: Option<String>,
    pub result: Option<TelegramWebhookInfoResult>,
}

impl Clone for WebhookCheckResult {
    fn clone(&self) -> (res: Self)
        ensures
            res == *self,
    {
        WebhookCheckResult {
            healthy: self.healthy,
            mode: self.mode,
            message: clone_opt_string(&self.message),
            result: match &self.result {
                Some(r) => Some(r.clone()),
                None => None,
            },
        }
    }
}

/// The message reported for a mismatch between the platform's webhook URL
/// and the bot's configured public URL.
pub open spec fn url_mismatch_message(found: Seq<char>, configured: Seq<char>) -> Seq<char> {
    "public url in telegram api does not match public url configured in bot: found "@ + found
        + ", configured "@ + configured
}

/// The verdict the reply itself earns: missing `ok` or a present error code
/// is unhealthy — a 404 specifically names bad authentication — and anything
/// else passes.
pub open spec fn healthy_verdict(
    resp: TelegramWebhookInfoResponse,
    mode: TelegramUpdateMode,
    r: WebhookCheckResult,
) -> bool {
    &&& r.mode == mode
    &&& r.result == Some(resp.result)
    &&& if resp.ok is None || resp.error_code is Some {
        &&& !r.healthy
        &&& if resp.error_code == Some(404u64) {
            r.message matches Some(m) && m@ == "Invalid/missing authentication."@
        } else {
            r.message matches Some(m) && m@ == "Unknown error"@
        }
    } else {
        r.healthy && r.message is None
    }
}

/// The verdict earned in webhook mode: the platform's webhook URL must equal
/// the configured public URL on top of the reply's own health.
pub open spec fn webhook_mode_verdict(
    resp: TelegramWebhookInfoResponse,
    configured: Seq<char>,
    r: WebhookCheckResult,
) -> bool {
    if resp.result.url@ != configured {
        &&& !r.healthy
        &&& r.mode == TelegramUpdateMode::Webhook
        &&& r.message matches Some(m) && m@ == url_mismatch_message(resp.result.url@, configured)
        &&& r.result == Some(resp.result)
    } else {
        healthy_verdict(resp, TelegramUpdateMode::Webhook, r)
    }
}

impl TelegramWebhookInfoResponse {
    /// Judges the reply itself: missing `ok` or a present error code is
    /// unhealthy, a 404 specifically names bad authentication; anything else
    /// passes.
    pub fn healthy(&self, mode: TelegramUpdateMode) -> (r: WebhookCheckResult)
        ensures
            healthy_verdict(*self, mode, r),
    {
        let is_404 = match self.error_code {
            Some(code) => code == 404,
            None => false,
        };
        if self.ok.is_none() || self.error_code.is_some() {
            if is_404 {
                WebhookCheckResult {
                    healthy: false,
                    mode,
                    message: Some(String::from_str("Invalid/missing authentication.")),
                    result: Some(self.result.clone()),
                }
            } else {
                WebhookCheckResult {
                    healthy: false,
                    mode,
                    message: Some(String::from_str("Unknown error")),
                    result: Some(self.result.clone()),
                }
            }
        } else {
            WebhookCheckResult {
                healthy: true,
                mode,
                message: None,
                result: Some(self.result.clone()),
            }
        }
    }

    /// Judges the reply for a bot that polls for updates: only the reply
    /// itself is checked.
    pub fn check_get_updates_mode(&self) -> (r: WebhookCheckResult)
        ensures
            healthy_verdict(*self, TelegramUpdateMode::GetUpdates, r),
    {
        self.healthy(TelegramUpdateMode::GetUpdates)
    }

    /// Judges the reply for a bot served over a webhook: on top of the reply
    /// itself, the platform's webhook URL must equal the bot's configured
    /// public URL.
    pub fn check_webhook_mode(&self, public_bot_url: &str) -> (r: WebhookCheckResult)
        ensures
            webhook_mode_verdict(*self, public_bot_url@, r),
    {
        let assessment = self.healthy(TelegramUpdateMode::Webhook);
        if !crate::user_representation::str_eq(self.result.url.as_str(), public_bot_url) {
            WebhookCheckResult {
                healthy: false,
                mode: TelegramUpdateMode::Webhook,
                message: Some(
                    String::from_str(
                        "public url in telegram api does not match public url configured in bot: found ",
                    ).concat(self.result.url.as_str()).concat(", configured ").concat(
                        public_bot_url,
                    ),
                ),
                result: Some(self.result.clone()),
            }
        } else {
            assessment
        }
    }
}

/// One task's contribution to the collected health report.
#[derive(Debug, PartialEq)]
pub struct TaskResult {
    pub name: String,
    pub result: HealthcheckResult,
}

/// What a task has to report: a webhook verdict, or nothing yet.
#[derive(Debug, PartialEq)]
pub enum HealthcheckResult {
    WebhookInfo(WebhookCheckResult),
    NoResult(String),
}

/// Whether a task passed, failed, or ran for documentation only.
#[derive(Clone, Copy, Debug, PartialEq, Eq, Structural)]
pub enum HealthcheckTaskResult {
    /// Task failed.
    Failed,
    /// Task succeeded.
    Success,
    /// Task result is ignored; documented only.
    Unchecked,
}

/// The whole health report: healthy only when no task failed.
#[derive(Debug, PartialEq)]
pub struct HealthcheckCollectedResult {
    pub healthy: bool,
    pub tasks: Vec<TaskResult>,
}

/// Folds the tasks' verdicts into one report: healthy exactly when no task
/// failed; unchecked tasks are documented without a vote.
pub fn collect_healthcheck(checks: &Vec<HealthcheckTaskResult>, tasks: Vec<TaskResult>) -> (r:
    HealthcheckCollectedResult)
    ensures
        r.tasks == tasks,
        r.healthy == !(exists|i: int|
            0 <= i < checks@.len() && (#[trigger] checks@[i]) is Failed),
{
    let mut collected_result = true;
    let mut i: usize = 0;
    while i < checks.len()
        invariant
            i <= checks.len(),
            collected_result == !(exists|j: int| 0 <= j < i && (#[trigger] checks@[j]) is Failed),
        decreases checks.len() - i,
    {
        match checks[i] {
            HealthcheckTaskResult::Failed => {
                collected_result = false;
            },
            HealthcheckTaskResult::Success => {},
            HealthcheckTaskResult::Unchecked => {},
        }
        i = i + 1;
    }
    HealthcheckCollectedResult { healthy: collected_result, tasks }
}

/// The webhook health probe. An embedding application fetches the report
/// and records the verdict; judging happens in `assess`.
#[derive(Debug)]
pub struct WebhookCheckTask {
    result: Option<WebhookCheckResult>,
}

impl WebhookCheckTask {
    /// The verdict recorded so far, if any.
    pub closed spec fn recorded(&self) -> Option<WebhookCheckResult> {
        self.result
    }

    /// A probe that has not run yet.
    pub fn new() -> (t: Self)
        ensures
            t.recorded() is None,
    {
        WebhookCheckTask { result: None }
    }

    /// Judges a fetched webhook report against the configured public bot
    /// URL: with a URL configured the webhook mode is checked, without one
    /// the polling mode; a fetch failure is itself an unhealthy verdict.
    pub fn assess(
        response: Result<TelegramWebhookInfoResponse, String>,
        configured_bot_url: Option<String>,
    ) -> (r: WebhookCheckResult)
        ensures
            match response {
                Ok(resp) => match configured_bot_url {
                    Some(url) => webhook_mode_verdict(resp, url@, r),
                    None => healthy_verdict(resp, TelegramUpdateMode::GetUpdates, r),
                },
                Err(e) => {
                    &&& !r.healthy
                    &&& r.mode == TelegramUpdateMode::Error
                    &&& r.message matches Some(m) && m@ == "WebhookInfoError: "@ + e@
                    &&& r.result is None
                },
            },
    {
        match response {
            Ok(resp) => match configured_bot_url {
                Some(url) => resp.check_webhook_mode(url.as_str()),
                None => resp.check_get_updates_mode(),
            },
            Err(e) => WebhookCheckResult {
                healthy: false,
                mode: TelegramUpdateMode::Error,
                message: Some(String::from_str("WebhookInfoError: ").concat(e.as_str())),
                result: None,
            },
        }
    }

    /// Records a verdict; the probe then reports it.
    pub fn record(&mut self, result: WebhookCheckResult)
        ensures
            final(self).recorded() == Some(result),
    {
        self.result = Some(result);
    }

    /// Whether the recorded verdict passed; an unrun probe is unchecked.
    pub fn check_result(&self) -> (r: HealthcheckTaskResult)
        ensures
            r == match self.recorded() {
                None => HealthcheckTaskResult::Unchecked,
                Some(res) => if res.healthy {
                    HealthcheckTaskResult::Success
                } else {
                    HealthcheckTaskResult::Failed
                },
            },
    {
        match &self.result {
            None => HealthcheckTaskResult::Unchecked,
            Some(result) => {
                if result.healthy {
                    HealthcheckTaskResult::Success
                } else {
                    HealthcheckTaskResult::Failed
                }
            },
        }
    }

    /// The probe's contribution to the collected report.
    pub fn get_result(&self) -> (r: TaskResult)
        ensures
            r.name@ == "WebhookInfo"@,
            match self.recorded() {
                None => r.result matches HealthcheckResult::NoResult(m) && m@ == "No result"@,
                Some(res) => r.result == HealthcheckResult::WebhookInfo(res),
            },
    {
        match &self.result {
            None => TaskResult {
                name: String::from_str("WebhookInfo"),
                result: HealthcheckResult::NoResult(String::from_str("No result")),
            },
            Some(result) => TaskResult {
                name: String::from_str("WebhookInfo"),
                result: HealthcheckResult::WebhookInfo(result.clone()),
            },
        }
    }
}

/// The probe of the bot's own health endpoint. The fetch and its judgment
/// are HTTP work an embedding application performs; the directory layer
/// only names the task.
#[derive(Clone, Copy, Debug)]
pub struct HealthEndpointCheck {}

} // verus!
