use norn::actions::{ignore_rule, requested_webhook, test_notification_event};
use norn::config::{NornConfig, RiskConfig};
use norn::history::{
    is_pruned, new_scan_record, retention_cutoff, risk_from_score, sqlite_path_from_url,
    status_is_running, summary_from_counts, superseded_scan_error, vulnerability_summary_of,
};
use norn::inventory::{record_collection, unique_scan_target_groups, ScanTargetGroup};
use norn::models::{
    DockerMetadata, Exposure, FixAvailability, IgnoredFinding, InventoryItem, InventoryKind,
    InventorySource, NotificationEvent, RiskEvaluation, RiskLevel, RuntimeStatus, ScanOutcome,
    ScanRecord, ScanTarget, ScanTargetType, ScannerError, Severity, Summary,
    VulnerabilityFinding, VulnerabilitySummary,
};
use norn::notify::{
    build_notifier, cap_notifications, notification_events_for_risks,
    notification_events_for_sensitive_containers, notification_summary_event,
    prepare_notification_batch, sort_events, DiscordNotifier,
};
use norn::report::{
    empty_report_lines, report_group_lines, report_lines, scan_summary_lines, ReportGroup,
};
use norn::scan::{
    collect_job_result, evaluate_risks, notification_batch_for_scan, notification_progress_message, notification_event_type, parse_positive_usize,
    scan_checks, scan_job_result, scan_record_with_errors, scan_status, short_id,
};

const DAY: i64 = 86_400_000;
const NOW: i64 = 1_777_000_000_000;

fn container(id: &str, name: &str, image: &str, privileged: bool, socket: bool) -> InventoryItem {
    let mut item = InventoryItem::new(
        id.to_string(),
        name.to_string(),
        InventorySource::Docker,
        InventoryKind::Container,
    );
    item.status = RuntimeStatus::Running;
    item.image = Some(image.to_string());
    item.exposure = Exposure::Public;
    item.docker = Some(DockerMetadata {
        container_id: id.to_string(),
        image: image.to_string(),
        image_id: None,
        privileged,
        docker_socket_mounted: socket,
        labels: Default::default(),
    });
    item
}

fn risk(id: &str, item: &str, service: &str, vulnerability: &str, level: RiskLevel) -> RiskEvaluation {
    RiskEvaluation {
        id: id.to_string(),
        finding_id: format!("finding-{id}"),
        inventory_item_id: item.to_string(),
        service_name: service.to_string(),
        vulnerability_id: vulnerability.to_string(),
        severity: Severity::Critical,
        risk: level,
        exposure: Exposure::Public,
        reason: "Critical vulnerability on public service".to_string(),
        recommended_action: Some("Patch now.".to_string()),
        evaluated_at: NOW,
    }
}

fn finding(id: &str, item: &str, vulnerability: &str) -> VulnerabilityFinding {
    VulnerabilityFinding {
        id: id.to_string(),
        scanner: "grype".to_string(),
        target_id: "target-1".to_string(),
        inventory_item_id: item.to_string(),
        vulnerability_id: vulnerability.to_string(),
        package_name: Some("openssl".to_string()),
        installed_version: Some("3.0.11".to_string()),
        fixed_version: None,
        severity: Severity::Critical,
        cvss_tenths: Some(91),
        fix_available: FixAvailability::NotAvailable,
        description: None,
        references: Vec::new(),
        first_seen: NOW,
        last_seen: NOW,
    }
}

fn prior(vulnerability: &str, service: &str) -> (Option<String>, String) {
    (Some(vulnerability.to_string()), service.to_string())
}

fn risk_config(minimum: RiskLevel, cap: usize) -> RiskConfig {
    RiskConfig {
        notify_minimum: minimum,
        max_notifications_per_scan: cap,
    }
}

#[test]
fn risk_notifications_are_deduplicated_and_ordered() {
    let inventory = vec![container("docker:web", "web", "nginx:1.25.3", false, false)];
    let risks = vec![
        risk("1", "docker:web", "web", "CVE-2026-0002", RiskLevel::High),
        risk("2", "docker:web", "web", "CVE-2026-0001", RiskLevel::High),
        risk("3", "docker:web", "web", "CVE-2026-0002", RiskLevel::Critical),
        risk("4", "docker:db", "db", "CVE-2026-0009", RiskLevel::Medium),
        risk("5", "docker:api", "api", "CVE-2026-0003", RiskLevel::High),
    ];
    let events = notification_events_for_risks(
        &inventory,
        &risks,
        RiskLevel::High,
        &[prior("CVE-2026-0003", "api")],
        &"homelab".to_string(),
    );
    assert_eq!(events.len(), 2);
    assert_eq!(events[0].vulnerability_id.as_deref(), Some("CVE-2026-0002"));
    assert_eq!(events[0].runtime_risk, RiskLevel::Critical);
    assert_eq!(events[0].artifact.as_deref(), Some("nginx:1.25.3"));
    assert_eq!(events[0].host, "homelab");
    assert_eq!(events[1].vulnerability_id.as_deref(), Some("CVE-2026-0001"));
    assert_eq!(events[1].runtime_risk, RiskLevel::High);
}

#[test]
fn hardening_alerts_for_sensitive_containers() {
    let inventory = vec![
        container("docker:a", "agent", "docker:24-cli", true, true),
        container("docker:b", "plain", "nginx", false, false),
        container("docker:c", "worker", "busybox", true, false),
    ];
    let events = notification_events_for_sensitive_containers(
        &inventory,
        &[prior("NORN-PRIVILEGED-CONTAINER", "worker")],
        &"homelab".to_string(),
    );
    assert_eq!(events.len(), 2);
    assert_eq!(events[0].vulnerability_id.as_deref(), Some("NORN-PRIVILEGED-CONTAINER"));
    assert_eq!(events[0].runtime_risk, RiskLevel::High);
    assert_eq!(events[0].reason, "Container is running with privileged=true");
    assert_eq!(events[1].vulnerability_id.as_deref(), Some("NORN-DOCKER-SOCKET-MOUNT"));
    assert_eq!(events[1].runtime_risk, RiskLevel::Critical);
    assert_eq!(events[1].service, "agent");
    assert_eq!(events[1].artifact.as_deref(), Some("docker:24-cli"));
    assert_eq!(events[1].severity, None);
    assert_eq!(
        events[1].recommended_action.as_deref(),
        Some("Remove the Docker socket mount or place it behind a restricted socket proxy.")
    );
}

#[test]
fn batch_within_cap_sends_everything_by_priority() {
    let inventory = vec![container("docker:a", "agent", "docker:24-cli", true, false)];
    let risks = vec![
        risk("1", "docker:a", "agent", "CVE-2026-0001", RiskLevel::Critical),
        risk("2", "docker:a", "agent", "CVE-2026-0004", RiskLevel::Low),
    ];
    let batch = prepare_notification_batch(
        &inventory,
        &risks,
        &[],
        &risk_config(RiskLevel::High, 50),
        &"homelab".to_string(),
    );
    assert_eq!(batch.suppressed, 0);
    assert_eq!(batch.events.len(), 2);
    assert_eq!(batch.events[0].runtime_risk, RiskLevel::Critical);
    assert_eq!(batch.events[1].vulnerability_id.as_deref(), Some("NORN-PRIVILEGED-CONTAINER"));
}

fn many_risks(n: usize) -> Vec<RiskEvaluation> {
    (0..n)
        .map(|i| {
            risk(
                &i.to_string(),
                "docker:a",
                &format!("service-{i}"),
                "CVE-2026-0001",
                if i % 2 == 0 { RiskLevel::Critical } else { RiskLevel::High },
            )
        })
        .collect()
}

#[test]
fn batch_over_cap_keeps_one_message_for_a_summary() {
    let risks = many_risks(5);
    let batch = prepare_notification_batch(
        &[],
        &risks,
        &[],
        &risk_config(RiskLevel::High, 3),
        &"homelab".to_string(),
    );
    assert_eq!(batch.events.len(), 3);
    assert_eq!(batch.suppressed, 3);
    assert_eq!(batch.events[0].runtime_risk, RiskLevel::Critical);
    assert_eq!(batch.events[1].runtime_risk, RiskLevel::Critical);
    let summary = &batch.events[2];
    assert_eq!(summary.service, "scan-summary");
    assert_eq!(summary.vulnerability_id.as_deref(), Some("NORN-NOTIFICATION-SUMMARY"));
    assert_eq!(
        summary.reason,
        "Norn found more new notification candidates than the configured per-scan cap. Sent 2 individual notifications and summarized 3 additional candidates."
    );
    assert_eq!(
        summary.recommended_action.as_deref(),
        Some("Review the dashboard or report for the full scan. Increase risk.max_notifications_per_scan above 3 if you want more individual alerts.")
    );
    assert_eq!(notification_event_type(summary), "summary");
    assert_eq!(notification_event_type(&batch.events[0]), "risk");
}

#[test]
fn zero_cap_suppresses_all_notifications() {
    let risks = many_risks(4);
    let batch = prepare_notification_batch(
        &[],
        &risks,
        &[],
        &risk_config(RiskLevel::High, 0),
        &"homelab".to_string(),
    );
    assert!(batch.events.is_empty());
    assert_eq!(batch.suppressed, 4);
}

#[test]
fn previously_sent_notifications_are_not_repeated() {
    let risks = many_risks(2);
    let sent = [prior("CVE-2026-0001", "service-0"), prior("CVE-2026-0001", "service-1")];
    let batch = prepare_notification_batch(
        &[],
        &risks,
        &sent,
        &risk_config(RiskLevel::High, 50),
        &"homelab".to_string(),
    );
    assert!(batch.events.is_empty());
    assert_eq!(batch.suppressed, 0);
}

#[test]
fn cap_of_one_sends_only_the_summary() {
    let mut events = Vec::new();
    for i in 0..3 {
        events.push(test_notification_event(format!("host-{i}")));
    }
    let batch = cap_notifications(events, 1, &"homelab".to_string());
    assert_eq!(batch.events.len(), 1);
    assert_eq!(batch.suppressed, 3);
    assert_eq!(batch.events[0].service, "scan-summary");
    assert_eq!(batch.events[0].exposure, Exposure::Unknown);
}

#[test]
fn summary_event_counts() {
    let event = notification_summary_event(&"h".to_string(), 49, 120, 50);
    assert!(event.reason.contains("Sent 49 individual notifications and summarized 120 additional"));
    assert!(event.recommended_action.unwrap().contains("above 50 if"));
}

#[test]
fn sorting_is_stable_by_risk_service_and_id() {
    let mut a = test_notification_event("h".to_string());
    a.service = "b".to_string();
    let mut b = a.clone();
    b.service = "a".to_string();
    let mut c = a.clone();
    c.runtime_risk = RiskLevel::Critical;
    c.service = "z".to_string();
    let mut d = a.clone();
    d.vulnerability_id = None;
    let sorted = sort_events(&vec![a.clone(), b.clone(), c.clone(), d.clone()]);
    assert_eq!(sorted, vec![c, b, d, a]);
}

#[test]
fn notifier_is_built_only_for_an_enabled_webhook() {
    let mut config = NornConfig::default();
    assert!(build_notifier(&config).is_none());
    config.notifications.discord.enabled = true;
    config.notifications.discord.webhook_url = "   ".to_string();
    assert!(build_notifier(&config).is_none());
    config.notifications.discord.webhook_url = "https://discord.test/hook".to_string();
    let notifier = build_notifier(&config).unwrap();
    assert_eq!(notifier.webhook_url, "https://discord.test/hook");
    assert_eq!(notifier.name(), "discord");
    assert!(notifier.check_webhook().is_ok());
    assert_eq!(
        DiscordNotifier::new(" ".to_string()).check_webhook(),
        Err("Discord webhook URL is empty".to_string())
    );
}

#[test]
fn evaluates_only_unignored_findings_of_known_items() {
    let inventory = vec![
        container("docker:web", "web", "nginx", false, false),
        container("docker:db", "db", "postgres", false, false),
    ];
    let findings = vec![
        finding("f1", "docker:web", "CVE-2026-0001"),
        finding("f2", "docker:db", "CVE-2026-0001"),
        finding("f3", "docker:gone", "CVE-2026-0005"),
        finding("f4", "docker:db", "CVE-2026-0002"),
    ];
    let ignores = vec![
        IgnoredFinding {
            vulnerability_id: "CVE-2026-0001".to_string(),
            service: Some("web".to_string()),
            expires_at: Some(NOW + DAY),
            reason: None,
        },
        IgnoredFinding {
            vulnerability_id: "CVE-2026-0002".to_string(),
            service: None,
            expires_at: Some(NOW - DAY),
            reason: None,
        },
    ];
    let risks = evaluate_risks(&findings, &inventory, &ignores, NOW);
    assert_eq!(risks.len(), 2);
    assert_eq!(risks[0].finding_id, "f2");
    assert_eq!(risks[0].service_name, "db");
    assert_eq!(risks[0].risk, RiskLevel::Critical);
    assert_eq!(risks[1].finding_id, "f4");
}

#[test]
fn jobs_parse_as_positive_counts() {
    assert_eq!(parse_positive_usize("8"), Ok(8));
    assert_eq!(parse_positive_usize("+3"), Ok(3));
    assert_eq!(parse_positive_usize("0"), Err("value must be at least 1".to_string()));
    assert_eq!(
        parse_positive_usize("abc"),
        Err("invalid number 'abc': invalid digit found in string".to_string())
    );
    assert_eq!(
        parse_positive_usize(""),
        Err("invalid number '': cannot parse integer from empty string".to_string())
    );
    assert_eq!(
        parse_positive_usize("-1"),
        Err("invalid number '-1': invalid digit found in string".to_string())
    );
    assert_eq!(
        parse_positive_usize("99999999999999999999999"),
        Err("invalid number '99999999999999999999999': number too large to fit in target type".to_string())
    );
    assert_eq!(
        parse_positive_usize("99999999999999999999x"),
        Err("invalid number '99999999999999999999x': number too large to fit in target type".to_string())
    );
    assert_eq!(
        parse_positive_usize("9x9999999999999999999999"),
        Err("invalid number '9x9999999999999999999999': invalid digit found in string".to_string())
    );
}

#[test]
fn short_ids_take_eight_characters() {
    assert_eq!(short_id("0123456789abcdef"), "01234567");
    assert_eq!(short_id("abc"), "abc");
    assert_eq!(short_id(""), "");
}

#[test]
fn scan_status_reflects_errors() {
    assert_eq!(scan_status(&[]), "completed");
    let error = ScannerError {
        scanner: "grype".to_string(),
        target: "docker:x".to_string(),
        message: "boom".to_string(),
    };
    assert_eq!(scan_status(&[error.clone()]), "completed_with_errors");

    let scan = new_scan_record("homelab");
    assert_eq!(scan.status, "running");
    assert_eq!(scan.id.len(), 36);
    let finished = scan_record_with_errors(scan.clone(), "completed_with_errors", 3, 7, vec![error]);
    assert_eq!(finished.id, scan.id);
    assert_eq!(finished.status, "completed_with_errors");
    assert_eq!(finished.inventory_count, 3);
    assert_eq!(finished.finding_count, 7);
    assert_eq!(finished.scanner_errors.len(), 1);
    assert!(finished.completed_at.is_some());
}

fn target(id: &str, reference: &str) -> ScanTarget {
    ScanTarget {
        id: id.to_string(),
        inventory_item_id: format!("item-{id}"),
        name: id.to_string(),
        target_type: ScanTargetType::ContainerImage,
        reference: reference.to_string(),
        exposure: Exposure::Public,
        docker: None,
    }
}

#[test]
fn scanner_jobs_are_gathered() {
    let groups: Vec<ScanTargetGroup> =
        unique_scan_target_groups(&[target("t1", "docker:a"), target("t2", "docker:a")]);
    let ok = scan_job_result("grype", &groups[0], Ok(vec![finding("f1", "item-t1", "CVE-1")]));
    assert_eq!(ok.findings.len(), 2);
    assert_eq!(ok.findings[1].target_id, "t2");
    assert!(ok.error.is_none());
    let failed = scan_job_result("grype", &groups[0], Err("timed out".to_string()));
    assert!(failed.findings.is_empty());
    assert_eq!(failed.error.as_ref().unwrap().target, "docker:a");

    let mut findings = Vec::new();
    let mut errors = Vec::new();
    collect_job_result(&mut findings, &mut errors, Ok(ok));
    collect_job_result(&mut findings, &mut errors, Ok(failed));
    collect_job_result(&mut findings, &mut errors, Err("task panicked".to_string()));
    assert_eq!(findings.len(), 2);
    assert_eq!(errors.len(), 2);
    assert_eq!(errors[1].scanner, "scanner-task");
    assert_eq!(errors[1].target, "unknown");

    let checks = scan_checks(2, 1, 1, 0);
    assert_eq!(checks.target_checks, 2);
    assert_eq!(checks.unique_checks, 1);
    assert_eq!(checks.duplicate_checks, 1);
    assert_eq!(checks.jobs, 1);
    assert_eq!(scan_checks(usize::MAX, 1, 2, 4).target_checks, usize::MAX);

    let mut items = Vec::new();
    record_collection(&mut items, &mut errors, "docker", Err("socket missing".to_string()));
    assert_eq!(errors[2].target, "inventory");
}

#[test]
fn database_urls_name_files() {
    assert_eq!(sqlite_path_from_url("sqlite::memory:"), Ok(":memory:".to_string()));
    assert_eq!(
        sqlite_path_from_url("sqlite:///var/lib/norn/norn.db"),
        Ok("/var/lib/norn/norn.db".to_string())
    );
    assert_eq!(sqlite_path_from_url("sqlite://./norn.db"), Ok("./norn.db".to_string()));
    assert_eq!(
        sqlite_path_from_url("postgres://db"),
        Err("database.url must start with sqlite://".to_string())
    );
}

#[test]
fn stored_scores_and_statuses() {
    assert_eq!(risk_from_score(5), Some(RiskLevel::Critical));
    assert_eq!(risk_from_score(1), Some(RiskLevel::Informational));
    assert_eq!(risk_from_score(0), None);
    assert_eq!(risk_from_score(6), None);
    assert!(status_is_running(RuntimeStatus::Active));
    assert!(status_is_running(RuntimeStatus::Running));
    assert!(!status_is_running(RuntimeStatus::Installed));
}

#[test]
fn summary_adds_up_stored_counts() {
    let scan = ScanRecord {
        id: "scan-1".to_string(),
        host: "homelab".to_string(),
        started_at: NOW,
        completed_at: None,
        status: "completed".to_string(),
        inventory_count: 0,
        finding_count: 0,
        scanner_errors: Vec::new(),
    };
    let inventory = [
        (InventoryKind::Container, RuntimeStatus::Running, Exposure::Public, 2),
        (InventoryKind::Container, RuntimeStatus::Stopped, Exposure::Public, 1),
        (InventoryKind::Service, RuntimeStatus::Active, Exposure::Unknown, 5),
        (InventoryKind::ListeningPort, RuntimeStatus::Running, Exposure::Localhost, 3),
        (InventoryKind::Package, RuntimeStatus::Installed, Exposure::Unknown, 40),
    ];
    let risks = [
        (RiskLevel::Critical, 1),
        (RiskLevel::High, 3),
        (RiskLevel::Medium, 11),
        (RiskLevel::Low, 7),
        (RiskLevel::Informational, 13),
    ];
    let summary = summary_from_counts(&scan, &inventory, &risks);
    assert_eq!(summary.running_containers, 2);
    assert_eq!(summary.running_services, 5);
    assert_eq!(summary.listening_ports, 3);
    assert_eq!(summary.public_services, 3);
    assert_eq!(summary.critical_risks, 1);
    assert_eq!(summary.informational_risks, 13);
    assert_eq!(
        summary.critical_risks + summary.high_risks + summary.medium_risks + summary.low_risks + summary.informational_risks,
        35
    );
    assert_eq!(summary.last_scan_time, Some(NOW));
}

#[test]
fn retention_prunes_old_finished_scans_only() {
    assert_eq!(retention_cutoff(NOW, 0), None);
    let cutoff = retention_cutoff(NOW, 90);
    assert_eq!(cutoff, Some(NOW - 90 * DAY));
    let mut old = new_scan_record("homelab");
    old.started_at = NOW - 200 * DAY;
    old.status = "completed".to_string();
    assert!(is_pruned(&old, cutoff));
    old.status = "running".to_string();
    assert!(!is_pruned(&old, cutoff));
    old.status = "completed".to_string();
    assert!(!is_pruned(&old, None));
    let mut recent = old.clone();
    recent.started_at = NOW - DAY;
    assert!(!is_pruned(&recent, cutoff));
    let error = superseded_scan_error();
    assert_eq!(error.message, "Scan was superseded by a newer run before it completed.");
}

fn vulnerability(id: &str, service: &str, level: RiskLevel, fix: FixAvailability) -> VulnerabilitySummary {
    VulnerabilitySummary {
        vulnerability_id: id.to_string(),
        severity: Severity::Critical,
        runtime_risk: level,
        affected_service: service.to_string(),
        exposed: Exposure::Public,
        fix_available: fix,
        first_seen: NOW,
        last_seen: NOW,
        package_name: None,
        installed_version: None,
        fixed_version: None,
    }
}

#[test]
fn report_groups_vulnerabilities_by_risk() {
    let mut important = vulnerability("CVE-2026-0002", "norn-postgres", RiskLevel::High, FixAvailability::NotAvailable);
    important.exposed = Exposure::Internal;
    let vulnerabilities = vec![
        vulnerability("CVE-2026-0001", "norn-nginx", RiskLevel::Critical, FixAvailability::Available),
        important,
    ];
    let summary = Summary {
        running_containers: 12,
        running_services: 48,
        listening_ports: 81,
        public_services: 5,
        critical_risks: 1,
        high_risks: 3,
        medium_risks: 11,
        low_risks: 7,
        informational_risks: 13,
        last_scan_time: Some(NOW),
    };
    let lines = report_lines("homelab", "2026-04-25T10:00:00Z", &summary, &vulnerabilities);
    let text = lines.join("\n");
    assert!(text.starts_with("# Norn Runtime Security Report\n\nGenerated at: 2026-04-25T10:00:00Z\nHost: homelab\n"));
    assert!(text.contains("- Running containers: 12\n- Active services: 48\n- Listening ports: 81\n- Publicly bound inventory items: 5\n"));
    assert!(text.contains(
        "## Urgent\n- **CVE-2026-0001** on `norn-nginx`: Critical risk, public exposure, fix Available\n"
    ));
    assert!(text.contains(
        "## Important\n- **CVE-2026-0002** on `norn-postgres`: High risk, internal exposure, fix NotAvailable\n"
    ));
    assert!(text.ends_with("## Low priority\n- None"));
    assert_eq!(
        report_group_lines(&vulnerabilities, ReportGroup::LowPriority),
        vec!["- None".to_string()]
    );
    assert_eq!(
        empty_report_lines().join("\n"),
        "# Norn Runtime Security Report\n\nNo scans have been stored yet."
    );
    let summary_of = vulnerability_summary_of(
        &risk("1", "docker:web", "web", "CVE-9", RiskLevel::Low),
        &finding("f", "docker:web", "CVE-9"),
    );
    assert_eq!(summary_of.affected_service, "web");
    assert_eq!(summary_of.fix_available, FixAvailability::NotAvailable);
    assert_eq!(summary_of.package_name.as_deref(), Some("openssl"));
}

#[test]
fn scan_summary_lines_match_the_readme() {
    let mut scan = new_scan_record("homelab");
    scan.scanner_errors.push(ScannerError {
        scanner: "grype".to_string(),
        target: "x".to_string(),
        message: "y".to_string(),
    });
    let outcome = ScanOutcome {
        scan,
        summary: Summary {
            running_containers: 12,
            running_services: 48,
            listening_ports: 81,
            public_services: 5,
            critical_risks: 1,
            high_risks: 3,
            medium_risks: 11,
            low_risks: 7,
            informational_risks: 13,
            last_scan_time: None,
        },
    };
    let lines = scan_summary_lines(&outcome);
    assert_eq!(
        lines,
        vec![
            "Scan summary",
            "Host: homelab",
            "Running containers: 12",
            "Active services: 48",
            "Listening ports: 81",
            "Publicly bound inventory items: 5",
            "Critical runtime risks: 1",
            "High runtime risks: 3",
            "Medium runtime risks: 11",
            "Low runtime risks: 7",
            "Informational runtime risks: 13",
            "Scanner/collector errors: 1",
        ]
    );
}

#[test]
fn operator_actions() {
    let rule = ignore_rule(
        "CVE-2026-0001".to_string(),
        Some("nginx".to_string()),
        Some(30),
        None,
        NOW,
    );
    assert_eq!(rule.expires_at, Some(NOW + 30 * DAY));
    assert!(rule.matches("CVE-2026-0001", "nginx", NOW + 29 * DAY));
    assert!(!rule.matches("CVE-2026-0001", "nginx", NOW + 30 * DAY));
    let forever = ignore_rule("CVE-1".to_string(), None, None, Some("accepted".to_string()), NOW);
    assert_eq!(forever.expires_at, None);

    let event: NotificationEvent = test_notification_event("homelab".to_string());
    assert_eq!(event.service, "notification-test");
    assert_eq!(event.vulnerability_id.as_deref(), Some("TEST-NOTIFICATION"));
    assert_eq!(requested_webhook(Some(" ".to_string())), None);
    assert_eq!(requested_webhook(None), None);
    assert_eq!(
        requested_webhook(Some("https://discord.test/x".to_string())),
        Some("https://discord.test/x".to_string())
    );
}

#[test]
fn disabled_notifier_prepares_nothing() {
    let risks = many_risks(3);
    let config = risk_config(RiskLevel::High, 0);
    let disabled =
        notification_batch_for_scan(false, &[], &risks, &[], &config, &"h".to_string());
    assert!(disabled.events.is_empty());
    assert_eq!(disabled.suppressed, 0);
    assert_eq!(
        notification_progress_message(false, &disabled, 0),
        "Skipped notifications (notifier disabled)"
    );
    let silenced = notification_batch_for_scan(true, &[], &risks, &[], &config, &"h".to_string());
    assert_eq!(
        notification_progress_message(true, &silenced, 0),
        "Suppressed 3 notifications (cap is 0)"
    );
    let capped = notification_batch_for_scan(
        true,
        &[],
        &risks,
        &[],
        &risk_config(RiskLevel::High, 2),
        &"h".to_string(),
    );
    assert_eq!(
        notification_progress_message(true, &capped, 2),
        "Prepared 2 notifications (2 summarized)"
    );
    let all = notification_batch_for_scan(
        true,
        &[],
        &risks,
        &[],
        &risk_config(RiskLevel::High, 10),
        &"h".to_string(),
    );
    assert_eq!(notification_progress_message(true, &all, 10), "Prepared 3 notifications");
}

#[test]
fn stopped_containers_raise_no_hardening_alerts() {
    let mut stopped = container("docker:s", "stopped-agent", "docker:24-cli", true, true);
    stopped.status = RuntimeStatus::Stopped;
    let running = container("docker:r", "running-agent", "docker:24-cli", true, false);
    let events = notification_events_for_sensitive_containers(
        &[stopped, running],
        &[],
        &"homelab".to_string(),
    );
    assert_eq!(events.len(), 1);
    assert_eq!(events[0].service, "running-agent");
}
