//! The decisions of one scan run: which findings become runtime risks, how
//! the results of scanner jobs are gathered, and how a scan is recorded as
//! finished.
use vstd::prelude::*;

use crate::inventory::{expand_findings_to_targets, expanded, ScanTargetGroup};
use crate::models::{
    IgnoredFinding, InventoryItem, NotificationEvent, RiskEvaluation, ScanRecord, ScannerError,
    VulnerabilityFinding,
};
use crate::config::RiskConfig;
use crate::notify::{
    find_item, last_with_id, prepare_notification_batch, prepared_batch, summary_key,
    NotificationBatch,
};
use crate::risk::{evaluate_finding, evaluates};
use crate::runtime::{current_time, Timestamp};
use crate::text::{
    chars_of, decimal, decimal_chars, opt_view, parse_failure, parse_unsigned,
    parse_unsigned_checked, string_of,
};

verus! {

/// Some rule of `ignores` covers `vulnerability_id` on `service` at `now`.
pub open spec fn ignored(
    ignores: Seq<IgnoredFinding>,
    vulnerability_id: Seq<char>,
    service: Seq<char>,
    now: int,
) -> bool {
    exists|i: int| 0 <= i < ignores.len() && #[trigger] ignores[i].covers(vulnerability_id, service, now)
}

fn is_ignored(ignores: &[IgnoredFinding], vulnerability_id: &str, service: &str, now: Timestamp) -> (b:
    bool)
    ensures
        b == ignored(ignores@, vulnerability_id@, service@, now as int),
{
    let mut i: usize = 0;
    while i < ignores.len()
        invariant
            i <= ignores@.len(),
            forall|j: int| 0 <= j < i ==> !#[trigger] ignores@[j].covers(vulnerability_id@, service@, now as int),
        decreases ignores@.len() - i,
    {
        if ignores[i].matches(vulnerability_id, service, now) {
            return true;
        }
        i = i + 1;
    }
    false
}

/// Finding `f` belongs to an item of the inventory (the last with its id),
/// and no rule ignores its vulnerability on that item at `now`.
pub open spec fn kept(
    f: VulnerabilityFinding,
    inventory: Seq<InventoryItem>,
    ignores: Seq<IgnoredFinding>,
    now: int,
) -> bool {
    match last_with_id(inventory, f.inventory_item_id@) {
        Some(j) => !ignored(ignores, f.vulnerability_id@, inventory[j].name@, now),
        None => false,
    }
}

/// The indices of the kept findings, in order.
pub open spec fn kept_findings(
    findings: Seq<VulnerabilityFinding>,
    inventory: Seq<InventoryItem>,
    ignores: Seq<IgnoredFinding>,
    now: int,
) -> Seq<int>
    decreases findings.len(),
{
    if findings.len() == 0 {
        Seq::empty()
    } else {
        let rest = kept_findings(findings.drop_last(), inventory, ignores, now);
        if kept(findings.last(), inventory, ignores, now) {
            rest.push(findings.len() - 1)
        } else {
            rest
        }
    }
}

/// The inventory item a finding belongs to: the last one with its id.
pub open spec fn item_of(f: VulnerabilityFinding, inventory: Seq<InventoryItem>) -> InventoryItem {
    inventory[last_with_id(inventory, f.inventory_item_id@).unwrap()]
}

/// `risks` are the evaluations of the kept findings, in order.
pub open spec fn risks_for(
    risks: Seq<RiskEvaluation>,
    findings: Seq<VulnerabilityFinding>,
    inventory: Seq<InventoryItem>,
    ignores: Seq<IgnoredFinding>,
    now: int,
) -> bool {
    let picked = kept_findings(findings, inventory, ignores, now);
    &&& risks.len() == picked.len()
    &&& forall|k: int|
        0 <= k < risks.len() ==> 0 <= #[trigger] picked[k] < findings.len() && evaluates(
            risks[k],
            findings[picked[k]],
            item_of(findings[picked[k]], inventory),
        )
}

/// The kept findings are the findings with an inventory item and no rule
/// that ignores them, each once, in order.
pub proof fn lemma_kept_findings(
    findings: Seq<VulnerabilityFinding>,
    inventory: Seq<InventoryItem>,
    ignores: Seq<IgnoredFinding>,
    now: int,
)
    ensures
        forall|k: int|
            0 <= k < kept_findings(findings, inventory, ignores, now).len() ==> {
                let i = #[trigger] kept_findings(findings, inventory, ignores, now)[k];
                0 <= i < findings.len() && kept(findings[i], inventory, ignores, now)
            },
        forall|i: int|
            0 <= i < findings.len() && kept(#[trigger] findings[i], inventory, ignores, now)
                ==> exists|k: int|
                0 <= k < kept_findings(findings, inventory, ignores, now).len() && kept_findings(
                    findings,
                    inventory,
                    ignores,
                    now,
                )[k] == i,
    decreases findings.len(),
{
    if findings.len() > 0 {
        let rest = findings.drop_last();
        lemma_kept_findings(rest, inventory, ignores, now);
        let before = kept_findings(rest, inventory, ignores, now);
        let all = kept_findings(findings, inventory, ignores, now);
        assert forall|k: int| 0 <= k < all.len() implies {
            let i = #[trigger] all[k];
            0 <= i < findings.len() && kept(findings[i], inventory, ignores, now)
        } by {
            if k < before.len() {
                assert(all[k] == before[k]);
                assert(findings[before[k]] == rest[before[k]]);
            }
        }
        assert forall|i: int|
            0 <= i < findings.len() && kept(#[trigger] findings[i], inventory, ignores, now)
                implies exists|k: int| 0 <= k < all.len() && all[k] == i by {
            if i < findings.len() - 1 {
                assert(rest[i] == findings[i]);
                let k = choose|k: int| 0 <= k < before.len() && before[k] == i;
                assert(all[k] == i);
            } else {
                assert(all[all.len() - 1] == i);
            }
        }
    }
}

/// The runtime risks of a scan: each finding of an inventory item evaluated
/// against that item, unless a rule ignores its vulnerability on the item's
/// service at `now`; findings for unknown items are dropped.
pub fn evaluate_risks(
    findings: &[VulnerabilityFinding],
    inventory: &[InventoryItem],
    ignores: &[IgnoredFinding],
    now: Timestamp,
) -> (risks: Vec<RiskEvaluation>)
    ensures
        risks_for(risks@, findings@, inventory@, ignores@, now as int),
{
    let mut risks: Vec<RiskEvaluation> = Vec::new();
    let mut i: usize = 0;
    while i < findings.len()
        invariant
            i <= findings@.len(),
            risks_for(risks@, findings@.take(i as int), inventory@, ignores@, now as int),
        decreases findings@.len() - i,
    {
        let finding = &findings[i];
        let ghost before = risks@;
        let ghost prefix = findings@.take(i as int);
        let ghost next = findings@.take(i + 1);
        proof {
            assert(next.drop_last() == prefix);
            assert(next.last() == findings@[i as int]);
        }
        match find_item(inventory, finding.inventory_item_id.as_str()) {
            Some(j) => {
                let item = &inventory[j];
                if !is_ignored(ignores, finding.vulnerability_id.as_str(), item.name.as_str(), now) {
                    risks.push(evaluate_finding(finding, item));
                }
            },
            None => {},
        }
        proof {
            let picked = kept_findings(next, inventory@, ignores@, now as int);
            let old_picked = kept_findings(prefix, inventory@, ignores@, now as int);
            assert forall|k: int| 0 <= k < risks@.len() implies 0 <= #[trigger] picked[k] < next.len()
                && evaluates(risks@[k], next[picked[k]], item_of(next[picked[k]], inventory@)) by {
                if k < before.len() {
                    assert(picked[k] == old_picked[k]);
                    assert(risks@[k] == before[k]);
                    assert(next[picked[k]] == prefix[picked[k]]);
                } else {
                    assert(picked[k] == i);
                }
            }
        }
        i = i + 1;
    }
    assert(findings@.take(findings@.len() as int) == findings@);
    risks
}

/// Ignore rules hold: no runtime risk is for a vulnerability that a rule
/// ignores on the risk's service at the time of the scan, and every finding
/// of a known item that no rule ignores is evaluated.
pub proof fn lemma_risks_respect_ignores(
    risks: Seq<RiskEvaluation>,
    findings: Seq<VulnerabilityFinding>,
    inventory: Seq<InventoryItem>,
    ignores: Seq<IgnoredFinding>,
    now: int,
)
    requires
        risks_for(risks, findings, inventory, ignores, now),
    ensures
        forall|k: int|
            0 <= k < risks.len() ==> !ignored(
                ignores,
                (#[trigger] risks[k]).vulnerability_id@,
                risks[k].service_name@,
                now,
            ),
        forall|i: int|
            0 <= i < findings.len() && kept(#[trigger] findings[i], inventory, ignores, now)
                ==> exists|k: int| 0 <= k < risks.len() && risks[k].finding_id == findings[i].id,
{
    lemma_kept_findings(findings, inventory, ignores, now);
    let picked = kept_findings(findings, inventory, ignores, now);
    assert forall|k: int| 0 <= k < risks.len() implies !ignored(
        ignores,
        (#[trigger] risks[k]).vulnerability_id@,
        risks[k].service_name@,
        now,
    ) by {
        assert(0 <= picked[k] < findings.len());
        assert(kept(findings[picked[k]], inventory, ignores, now));
    }
    assert forall|i: int|
        0 <= i < findings.len() && kept(#[trigger] findings[i], inventory, ignores, now)
            implies exists|k: int| 0 <= k < risks.len() && risks[k].finding_id == findings[i].id by {
        let k = choose|k: int| 0 <= k < picked.len() && picked[k] == i;
        assert(0 <= picked[k] < findings.len());
        assert(risks[k].finding_id == findings[i].id);
    }
}

/// The result of one scanner run on one group of targets.
#[derive(Debug, Clone, PartialEq, Eq)]
pub struct ScanJobResult {
    pub findings: Vec<VulnerabilityFinding>,
    pub error: Option<ScannerError>,
}

/// What one scanner run on a group of targets yields: its findings copied to
/// every target of the group, or the scanner's error for the group's
/// reference.
pub fn scan_job_result(
    scanner: &str,
    group: &ScanTargetGroup,
    outcome: Result<Vec<VulnerabilityFinding>, String>,
) -> (r: ScanJobResult)
    ensures
        match outcome {
            Ok(found) => expanded(r.findings@, found@, group.targets@) && r.error is None,
            Err(message) => {
                &&& r.findings@.len() == 0
                &&& r.error matches Some(e) && e.scanner@ == scanner@
                    && e.target == group.representative.reference && e.message == message
            },
        },
{
    match outcome {
        Ok(found) => ScanJobResult {
            findings: expand_findings_to_targets(found.as_slice(), group.targets.as_slice()),
            error: None,
        },
        Err(message) => ScanJobResult {
            findings: Vec::new(),
            error: Some(
                ScannerError {
                    scanner: String::from_str(scanner),
                    target: group.representative.reference.clone(),
                    message,
                },
            ),
        },
    }
}

/// Adds a finished job's findings and error to the scan's; a job that did not
/// finish is recorded as an error of the scanner task.
pub fn collect_job_result(
    findings: &mut Vec<VulnerabilityFinding>,
    errors: &mut Vec<ScannerError>,
    joined: Result<ScanJobResult, String>,
)
    ensures
        match joined {
            Ok(job) => {
                &&& final(findings)@ == old(findings)@ + job.findings@
                &&& final(errors)@ == match job.error {
                    Some(e) => old(errors)@.push(e),
                    None => old(errors)@,
                }
            },
            Err(message) => {
                &&& final(findings)@ == old(findings)@
                &&& final(errors)@.len() == old(errors)@.len() + 1
                &&& final(errors)@.take(old(errors)@.len() as int) == old(errors)@
                &&& final(errors)@.last().scanner@ == "scanner-task"@
                &&& final(errors)@.last().target@ == "unknown"@
                &&& final(errors)@.last().message == message
            },
        },
{
    match joined {
        Ok(job) => {
            let mut found = job.findings;
            findings.append(&mut found);
            if let Some(e) = job.error {
                errors.push(e);
            }
        },
        Err(message) => {
            errors.push(
                ScannerError {
                    scanner: String::from_str("scanner-task"),
                    target: String::from_str("unknown"),
                    message,
                },
            );
            assert(errors@.take(old(errors)@.len() as int) == old(errors)@);
        },
    }
}

/// How much scanning a scan does: one check per target and scanner, one run
/// per distinct target and scanner, the checks saved by running each distinct
/// target once, and how many runs go at once.
#[derive(Debug, Clone, Copy, PartialEq, Eq, Structural)]
pub struct ScanChecks {
    pub target_checks: usize,
    pub unique_checks: usize,
    pub duplicate_checks: usize,
    pub jobs: usize,
}

/// `n` capped at the largest `usize`.
pub open spec fn saturated(n: int) -> usize {
    if n > usize::MAX {
        usize::MAX
    } else {
        n as usize
    }
}

fn saturating_product(a: usize, b: usize) -> (p: usize)
    ensures
        p == saturated(a * b),
{
    assert((a as u128) * (b as u128) <= u64::MAX as u128 * u64::MAX as u128) by (nonlinear_arith)
        requires
            a <= u64::MAX,
            b <= u64::MAX,
    ;
    let wide: u128 = (a as u128) * (b as u128);
    if wide > usize::MAX as u128 {
        usize::MAX
    } else {
        wide as usize
    }
}

/// The scanning a scan does for `targets` targets in `groups` groups, with
/// `scanners` scanners and at most `parallelism` runs at once (at least one).
pub fn scan_checks(targets: usize, groups: usize, scanners: usize, parallelism: usize) -> (c:
    ScanChecks)
    ensures
        c.target_checks == saturated(targets * scanners),
        c.unique_checks == saturated(groups * scanners),
        c.duplicate_checks == if c.target_checks >= c.unique_checks {
            (c.target_checks - c.unique_checks) as usize
        } else {
            0
        },
        c.jobs == if parallelism == 0 {
            1
        } else {
            parallelism
        },
{
    let target_checks = saturating_product(targets, scanners);
    let unique_checks = saturating_product(groups, scanners);
    ScanChecks {
        target_checks,
        unique_checks,
        duplicate_checks: target_checks.saturating_sub(unique_checks),
        jobs: if parallelism == 0 {
            1
        } else {
            parallelism
        },
    }
}

/// A scan ends `completed`, or `completed_with_errors` when any collector or
/// scanner failed.
pub open spec fn status_for(errors: Seq<ScannerError>) -> Seq<char> {
    if errors.len() == 0 {
        "completed"@
    } else {
        "completed_with_errors"@
    }
}

pub fn scan_status(errors: &[ScannerError]) -> (s: String)
    ensures
        s@ == status_for(errors@),
{
    if errors.len() == 0 {
        String::from_str("completed")
    } else {
        String::from_str("completed_with_errors")
    }
}

/// `scan` marked finished now with `status`, its counts and its errors.
pub fn scan_record_with_errors(
    scan: ScanRecord,
    status: &str,
    inventory_count: usize,
    finding_count: usize,
    scanner_errors: Vec<ScannerError>,
) -> (r: ScanRecord)
    ensures
        r.id == scan.id,
        r.host == scan.host,
        r.started_at == scan.started_at,
        r.completed_at matches Some(t) && t >= 0,
        r.status@ == status@,
        r.inventory_count == inventory_count,
        r.finding_count == finding_count,
        r.scanner_errors == scanner_errors,
{
    let mut scan = scan;
    scan.completed_at = Some(current_time());
    scan.status = String::from_str(status);
    scan.inventory_count = inventory_count;
    scan.finding_count = finding_count;
    scan.scanner_errors = scanner_errors;
    scan
}

/// The first eight characters of an id, as lists show it.
pub fn short_id(id: &str) -> (s: String)
    ensures
        s@ == id@.take(if id@.len() < 8 {
            id@.len() as int
        } else {
            8
        }),
{
    let chars = chars_of(id);
    let n: usize = if chars.len() < 8 {
        chars.len()
    } else {
        8
    };
    let mut out: Vec<char> = Vec::new();
    let mut k: usize = 0;
    while k < n
        invariant
            n <= chars@.len(),
            k <= n,
            out@ == chars@.take(k as int),
        decreases n - k,
    {
        out.push(chars[k]);
        k = k + 1;
        assert(out@ == chars@.take(k as int));
    }
    string_of(out.as_slice())
}

/// The message for a refused count of jobs.
pub open spec fn positive_usize_error(value: Seq<char>) -> Option<Seq<char>> {
    match parse_failure(value, usize::MAX as nat) {
        Some(f) => Some("invalid number '"@ + value + "': "@ + f.message()),
        None => if parse_unsigned(value, usize::MAX as nat) == Some(0nat) {
            Some("value must be at least 1"@)
        } else {
            None
        },
    }
}

/// A count of at least one, read as `str::parse::<usize>` reads it.
pub fn parse_positive_usize(value: &str) -> (r: Result<usize, String>)
    ensures
        match r {
            Ok(n) => positive_usize_error(value@) is None && parse_unsigned(value@, usize::MAX as nat)
                == Some(n as nat) && n >= 1,
            Err(message) => positive_usize_error(value@) == Some(message@),
        },
{
    let chars = chars_of(value);
    match parse_unsigned_checked(chars.as_slice(), usize::MAX as u64) {
        Ok(n) => {
            if n == 0 {
                Err(String::from_str("value must be at least 1"))
            } else {
                Ok(n as usize)
            }
        },
        Err(failure) => {
            let mut message = String::from_str("invalid number '");
            message.append(value);
            message.append("': ");
            let detail = failure.describe();
            message.append(detail.as_str());
            Err(message)
        },
    }
}

/// The kind under which a sent notification is stored: the cap's summary, or
/// a risk notification.
pub open spec fn event_kind(event: NotificationEvent) -> Seq<char> {
    if opt_view(event.vulnerability_id) == Some(summary_key()) {
        "summary"@
    } else {
        "risk"@
    }
}

pub fn notification_event_type(event: &NotificationEvent) -> (s: String)
    ensures
        s@ == event_kind(*event),
{
    let is_summary = match &event.vulnerability_id {
        Some(id) => crate::models::str_eq(id.as_str(), "NORN-NOTIFICATION-SUMMARY"),
        None => false,
    };
    if is_summary {
        String::from_str("summary")
    } else {
        String::from_str("risk")
    }
}

/// The notifications a scan prepares: none when no notifier is enabled (so
/// that nothing waits to be sent), else the scan's batch.
pub fn notification_batch_for_scan(
    notifier_enabled: bool,
    inventory: &[InventoryItem],
    risks: &[RiskEvaluation],
    prior: &[(Option<String>, String)],
    risk_config: &RiskConfig,
    host: &String,
) -> (batch: NotificationBatch)
    ensures
        !notifier_enabled ==> batch.events@.len() == 0 && batch.suppressed == 0,
        notifier_enabled ==> prepared_batch(
            batch,
            inventory@,
            risks@,
            risk_config.notify_minimum,
            risk_config.max_notifications_per_scan as nat,
            prior@,
            host@,
        ),
{
    if notifier_enabled {
        prepare_notification_batch(inventory, risks, prior, risk_config, host)
    } else {
        NotificationBatch { events: Vec::new(), suppressed: 0 }
    }
}

/// What the progress display says once notifications are prepared.
pub open spec fn notification_progress(notifier_enabled: bool, prepared: nat, suppressed: nat, cap: nat) -> Seq<char> {
    if !notifier_enabled {
        "Skipped notifications (notifier disabled)"@
    } else if suppressed > 0 && cap == 0 {
        "Suppressed "@ + decimal(suppressed) + " notifications (cap is 0)"@
    } else if suppressed > 0 {
        "Prepared "@ + decimal(prepared) + " notifications ("@ + decimal(suppressed) + " summarized)"@
    } else {
        "Prepared "@ + decimal(prepared) + " notifications"@
    }
}

fn number(n: usize) -> (s: String)
    ensures
        s@ == decimal(n as nat),
{
    let digits = decimal_chars(n as u64);
    string_of(digits.as_slice())
}

pub fn notification_progress_message(notifier_enabled: bool, batch: &NotificationBatch, cap: usize) -> (m:
    String)
    ensures
        m@ == notification_progress(
            notifier_enabled,
            batch.events@.len(),
            batch.suppressed as nat,
            cap as nat,
        ),
{
    if !notifier_enabled {
        return String::from_str("Skipped notifications (notifier disabled)");
    }
    let prepared = number(batch.events.len());
    let suppressed = number(batch.suppressed);
    if batch.suppressed > 0 && cap == 0 {
        let mut m = String::from_str("Suppressed ");
        m.append(suppressed.as_str());
        m.append(" notifications (cap is 0)");
        m
    } else if batch.suppressed > 0 {
        let mut m = String::from_str("Prepared ");
        m.append(prepared.as_str());
        m.append(" notifications (");
        m.append(suppressed.as_str());
        m.append(" summarized)");
        m
    } else {
        let mut m = String::from_str("Prepared ");
        m.append(prepared.as_str());
        m.append(" notifications");
        m
    }
}

} // verus!
