//! What the operator's commands build: ignore rules and the test
//! notification.
use vstd::prelude::*;

use crate::models::{Exposure, IgnoredFinding, NotificationEvent, RiskLevel};
use crate::runtime::{Timestamp, MILLIS_PER_DAY};
use crate::text::{chars_of, opt_view, trim, trim_chars};

verus! {

/// An ignore rule for `vulnerability_id`, on `service` if one is named, that
/// expires `days` days after `now` (never, without a number of days).
pub fn ignore_rule(
    vulnerability_id: String,
    service: Option<String>,
    days: Option<i64>,
    reason: Option<String>,
    now: Timestamp,
) -> (rule: IgnoredFinding)
    requires
        days matches Some(d) ==> i64::MIN <= now + d * MILLIS_PER_DAY <= i64::MAX,
    ensures
        rule.vulnerability_id == vulnerability_id,
        rule.service == service,
        rule.reason == reason,
        rule.expires_at == match days {
            Some(d) => Some((now + d * MILLIS_PER_DAY) as Timestamp),
            None => None,
        },
{
    let expires_at = match days {
        Some(d) => {
            assert(i64::MIN * MILLIS_PER_DAY <= d * MILLIS_PER_DAY <= i64::MAX * MILLIS_PER_DAY)
                by (nonlinear_arith)
                requires
                    i64::MIN <= d <= i64::MAX,
                    MILLIS_PER_DAY == 86_400_000,
            ;
            let span: i128 = (d as i128) * (MILLIS_PER_DAY as i128);
            Some(((now as i128) + span) as i64)
        },
        None => None,
    };
    IgnoredFinding { vulnerability_id, service, expires_at, reason }
}

/// `e` is the test notification sent from `host`.
pub open spec fn test_event(e: NotificationEvent, host: Seq<char>) -> bool {
    &&& e.project@ == "Norn"@
    &&& e.host@ == host
    &&& e.service@ == "notification-test"@
    &&& opt_view(e.artifact) == Some("norn"@)
    &&& opt_view(e.vulnerability_id) == Some("TEST-NOTIFICATION"@)
    &&& e.severity is None
    &&& e.runtime_risk == RiskLevel::High
    &&& e.exposure == Exposure::Unknown
    &&& e.reason@ == "Discord webhook test from Norn"@
    &&& opt_view(e.recommended_action) == Some("No action required."@)
}

/// The notification that tests the Discord webhook.
pub fn test_notification_event(host: String) -> (e: NotificationEvent)
    ensures
        test_event(e, host@),
{
    NotificationEvent {
        project: String::from_str("Norn"),
        host,
        service: String::from_str("notification-test"),
        artifact: Some(String::from_str("norn")),
        vulnerability_id: Some(String::from_str("TEST-NOTIFICATION")),
        severity: None,
        runtime_risk: RiskLevel::High,
        exposure: Exposure::Unknown,
        reason: String::from_str("Discord webhook test from Norn"),
        recommended_action: Some(String::from_str("No action required.")),
    }
}

/// The webhook a test request names, unless it is missing or blank (then the
/// configured notifier is tested).
pub fn requested_webhook(webhook_url: Option<String>) -> (r: Option<String>)
    ensures
        match webhook_url {
            Some(url) => if trim(url@).len() > 0 {
                r == Some(url)
            } else {
                r is None
            },
            None => r is None,
        },
{
    match webhook_url {
        Some(url) => {
            let chars = chars_of(url.as_str());
            let trimmed = trim_chars(chars.as_slice());
            if trimmed.len() > 0 {
                Some(url)
            } else {
                None
            }
        },
        None => None,
    }
}

} // verus!
