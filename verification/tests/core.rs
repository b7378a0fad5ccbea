use norn::config::{
    humantime_can_read,
    default_max_notifications_per_scan, default_notify_minimum, interval_from, parse_bool, parse_risk,
    BasicCollectorConfig, EnvOverrides, IntervalDuration, NornConfig, ScanConfig, ScannerConfig,
};
use norn::dashboard::{
    dashboard_help_status, dashboard_step, scan_completed_status, DashboardAction, DashboardEvent,
    DashboardKey,
};
use norn::error::NornError;
use norn::grype::{
    fix_availability, parse_grype_json, GrypeArtifact, GrypeCvss, GrypeCvssMetrics,
    GrypeDocument, GrypeFix, GrypeMatch, GrypeScanner, GrypeVulnerability,
};
use norn::inventory::{
    expand_findings_to_targets, scan_targets_from_inventory,
    scan_targets_from_inventory_with_options, unique_scan_target_groups, ScanTargetOptions,
};
use norn::models::{
    DockerMetadata, Exposure, FixAvailability, IgnoredFinding, InventoryItem, InventoryKind,
    InventorySource, NotificationEvent, RiskLevel, RuntimeStatus, ScanTarget, ScanTargetType,
    Severity, VulnerabilityFinding,
};
use norn::notify::{color_for_risk, discord_payload};
use norn::risk::{base_risk, evaluate_finding, recommended_action};

const DAY: i64 = 86_400_000;
const NOW: i64 = 1_777_000_000_000;

#[test]
fn loads_config_and_applies_env_override() {
    // The file sets the server bind address and the database URL; every
    // other setting keeps its default.
    let mut cfg = NornConfig::default();
    cfg.server.bind = "0.0.0.0:8787".to_string();
    cfg.database.url = "sqlite://./norn.db".to_string();
    let env = EnvOverrides {
        server_bind: Some("127.0.0.1:9000".to_string()),
        scanner_parallelism: Some("12".to_string()),
        risk_notify_minimum: Some("Critical".to_string()),
        risk_max_notifications_per_scan: Some("7".to_string()),
        ..EnvOverrides::default()
    };
    cfg.apply_env_overrides(&env);

    assert_eq!(cfg.server.bind, "127.0.0.1:9000");
    assert_eq!(cfg.database.url, "sqlite://./norn.db");
    assert_eq!(cfg.scanner.parallelism(), 12);
    assert_eq!(cfg.risk.notify_minimum, RiskLevel::Critical);
    assert_eq!(cfg.risk.max_notifications_per_scan, 7);
}

#[test]
fn parses_scan_interval() {
    let cfg = ScanConfig {
        interval: "15m".to_string(),
        run_on_start: true,
    };
    assert_eq!(cfg.interval_duration().unwrap(), IntervalDuration::from_secs(900));
}

#[test]
fn rejects_unreadable_scan_interval() {
    let cfg = ScanConfig {
        interval: "soon".to_string(),
        run_on_start: true,
    };
    assert!(matches!(cfg.interval_duration(), Err(NornError::Config(_))));
    let hours = ScanConfig {
        interval: "6h".to_string(),
        run_on_start: false,
    };
    assert_eq!(hours.interval_duration().unwrap(), IntervalDuration::from_secs(21_600));
}

#[test]
fn config_defaults_follow_the_documentation() {
    let cfg = NornConfig::default();
    assert_eq!(cfg.server.bind, "0.0.0.0:8787");
    assert_eq!(cfg.database.retention_days, 90);
    assert_eq!(cfg.scan.interval, "6h");
    assert!(cfg.collectors.docker.enabled);
    assert_eq!(cfg.collectors.docker.socket, "/var/run/docker.sock");
    assert_eq!(cfg.scanner.grype.binary, "grype");
    assert_eq!(cfg.scanner.grype.timeout_seconds, 300);
    assert!(!cfg.scanner.scan_host_filesystem);
    assert!(!cfg.notifications.discord.enabled);
    assert_eq!(cfg.risk.notify_minimum, RiskLevel::High);
    assert_eq!(cfg.risk.max_notifications_per_scan, 50);
    assert_eq!(default_notify_minimum(), RiskLevel::High);
    assert_eq!(default_max_notifications_per_scan(), 50);
    assert!(BasicCollectorConfig::default_enabled().enabled);
}

#[test]
fn env_overrides_ignore_unreadable_values() {
    let mut cfg = NornConfig::default();
    let env = EnvOverrides {
        scanner_parallelism: Some("0".to_string()),
        risk_notify_minimum: Some("severe".to_string()),
        retention_days: Some("not-a-number".to_string()),
        discord_enabled: Some("YES".to_string()),
        scan_host_filesystem: Some("1".to_string()),
        ..EnvOverrides::default()
    };
    cfg.apply_env_overrides(&env);
    assert_eq!(cfg.scanner.parallelism, 1);
    assert_eq!(cfg.risk.notify_minimum, RiskLevel::High);
    assert_eq!(cfg.database.retention_days, 90);
    assert!(cfg.notifications.discord.enabled);
    assert!(cfg.scanner.scan_host_filesystem);
}

#[test]
fn parses_settings_text() {
    assert!(parse_bool("true"));
    assert!(parse_bool("On"));
    assert!(!parse_bool(" on "));
    assert!(!parse_bool("false"));
    assert!(!parse_bool("maybe"));
    assert_eq!(parse_risk("critical"), Some(RiskLevel::Critical));
    assert_eq!(parse_risk("INFORMATIONAL"), Some(RiskLevel::Informational));
    assert_eq!(parse_risk(" high"), None);
    assert_eq!(parse_risk("info"), Some(RiskLevel::Informational));
    assert_eq!(parse_risk("urgent"), None);
    let scanner = ScannerConfig {
        parallelism: 0,
        ..ScannerConfig::default()
    };
    assert_eq!(scanner.parallelism(), 1);
}

#[test]
fn ignore_rule_matches_service_and_expiry() {
    let now = NOW;
    let rule = IgnoredFinding {
        vulnerability_id: "CVE-2026-0001".to_string(),
        service: Some("nginx".to_string()),
        expires_at: Some(now + DAY),
        reason: None,
    };

    assert!(rule.matches("CVE-2026-0001", "nginx", now));
    assert!(!rule.matches("CVE-2026-0001", "postgres", now));
    assert!(!rule.matches("CVE-2026-0002", "nginx", now));
    assert!(!rule.matches("CVE-2026-0001", "nginx", now + 2 * DAY));
}

#[test]
fn unscoped_ignore_rule_without_expiry_matches_every_service() {
    let rule = IgnoredFinding {
        vulnerability_id: "CVE-2026-0001".to_string(),
        service: None,
        expires_at: None,
        reason: Some("accepted".to_string()),
    };
    assert!(rule.matches("CVE-2026-0001", "postgres", NOW));
    assert!(rule.matches("CVE-2026-0001", "nginx", i64::MAX));
    assert!(!rule.matches("CVE-2026-0003", "nginx", NOW));
}

fn container_item(image: &str, image_id: Option<&str>) -> InventoryItem {
    let mut item = InventoryItem::new(
        "docker:abc".to_string(),
        "nginx".to_string(),
        InventorySource::Docker,
        InventoryKind::Container,
    );
    item.status = RuntimeStatus::Running;
    item.image = Some(image.to_string());
    item.docker = Some(DockerMetadata {
        container_id: "abc".to_string(),
        image: image.to_string(),
        image_id: image_id.map(|id| id.to_string()),
        privileged: false,
        docker_socket_mounted: false,
        labels: Default::default(),
    });
    item
}

#[test]
fn creates_container_scan_targets() {
    let mut item = container_item("nginx:1.25", None);
    item.exposure = Exposure::Public;
    item.collected_at = NOW;

    let targets = scan_targets_from_inventory(&[item]);

    assert_eq!(targets.len(), 1);
    assert_eq!(targets[0].reference, "docker:nginx:1.25");
    assert_eq!(targets[0].exposure, Exposure::Public);
}

#[test]
fn prefers_docker_image_id_for_container_scan_targets() {
    let item = container_item("private/nginx:latest", Some("sha256:abc123"));

    let targets = scan_targets_from_inventory(&[item]);

    assert_eq!(targets[0].reference, "docker:sha256:abc123");
}

#[test]
fn stopped_containers_and_host_scans_follow_options() {
    let mut stopped = container_item("nginx:1.25", None);
    stopped.status = RuntimeStatus::Stopped;
    let host = norn::packages::host_item();
    let items = vec![stopped, host];

    let without = scan_targets_from_inventory_with_options(
        &items,
        ScanTargetOptions {
            scan_host_filesystem: false,
        },
    );
    assert!(without.is_empty());

    let with = scan_targets_from_inventory_with_options(
        &items,
        ScanTargetOptions {
            scan_host_filesystem: true,
        },
    );
    assert_eq!(with.len(), 1);
    assert_eq!(with[0].reference, "dir:/");
    assert_eq!(with[0].target_type, ScanTargetType::HostFilesystem);
}

fn scan_target(id: &str, inventory_item_id: &str, name: &str, reference: &str) -> ScanTarget {
    ScanTarget {
        id: id.to_string(),
        inventory_item_id: inventory_item_id.to_string(),
        name: name.to_string(),
        target_type: ScanTargetType::ContainerImage,
        reference: reference.to_string(),
        exposure: Exposure::Public,
        docker: None,
    }
}

#[test]
fn groups_duplicate_scan_references() {
    let first = scan_target("target-1", "item-1", "web-1", "docker:sha256:abc");
    let second = scan_target("target-2", "item-2", "web-2", "docker:sha256:abc");
    let third = scan_target("target-3", "item-3", "db", "docker:sha256:def");

    let groups = unique_scan_target_groups(&[first, second, third]);

    assert_eq!(groups.len(), 2);
    assert_eq!(groups[0].targets.len(), 2);
    assert_eq!(groups[1].targets.len(), 1);
}

#[test]
fn groups_keep_first_target_as_representative() {
    let groups = unique_scan_target_groups(&[
        scan_target("target-1", "item-1", "db", "docker:sha256:def"),
        scan_target("target-2", "item-2", "web-1", "docker:sha256:abc"),
        scan_target("target-3", "item-3", "db-2", "docker:sha256:def"),
    ]);
    assert_eq!(groups[0].representative.id, "target-1");
    assert_eq!(groups[0].targets[1].id, "target-3");
    assert_eq!(groups[1].representative.reference, "docker:sha256:abc");
}

fn finding(severity: Severity, target_id: &str, inventory_item_id: &str) -> VulnerabilityFinding {
    VulnerabilityFinding {
        id: "finding-1".to_string(),
        scanner: "grype".to_string(),
        target_id: target_id.to_string(),
        inventory_item_id: inventory_item_id.to_string(),
        vulnerability_id: "CVE-2026-0001".to_string(),
        package_name: Some("nginx".to_string()),
        installed_version: Some("1.25.3".to_string()),
        fixed_version: Some("1.25.4".to_string()),
        severity,
        cvss_tenths: None,
        fix_available: FixAvailability::Available,
        description: None,
        references: Vec::new(),
        first_seen: NOW,
        last_seen: NOW,
    }
}

#[test]
fn expands_findings_to_all_targets_in_group() {
    let first = scan_target("target-1", "item-1", "web-1", "docker:sha256:abc");
    let second = scan_target("target-2", "item-2", "web-2", "docker:sha256:abc");
    let finding = finding(Severity::Critical, &first.id, &first.inventory_item_id);

    let expanded = expand_findings_to_targets(&[finding], &[first, second]);

    assert_eq!(expanded.len(), 2);
    assert_eq!(expanded[0].inventory_item_id, "item-1");
    assert_eq!(expanded[1].inventory_item_id, "item-2");
    assert_eq!(expanded[1].target_id, "target-2");
}

#[test]
fn expanded_findings_get_ids_of_their_target() {
    let first = scan_target("target-1", "item-1", "web-1", "docker:sha256:abc");
    let second = scan_target("target-2", "item-2", "web-2", "docker:sha256:abc");
    let finding = finding(Severity::High, "target-1", "item-1");

    let expanded = expand_findings_to_targets(&[finding], &[first, second]);

    assert_eq!(expanded[0].id, "finding-1");
    assert_eq!(expanded[1].id, "target-2:finding-1");
    assert_eq!(expanded[1].vulnerability_id, "CVE-2026-0001");
}

fn grype_match(id: &str, severity: &str, fix: Option<GrypeFix>, cvss: Option<u16>) -> GrypeMatch {
    GrypeMatch {
        vulnerability: GrypeVulnerability {
            id: id.to_string(),
            severity: severity.to_string(),
            description: Some(format!("{id} description")),
            fix,
            urls: Some(vec![format!("https://example.test/{id}")]),
            cvss: cvss.map(|score| {
                vec![GrypeCvss {
                    metrics: GrypeCvssMetrics {
                        base_score_tenths: Some(score),
                    },
                }]
            }),
        },
        artifact: GrypeArtifact {
            name: "nginx".to_string(),
            version: "1.25.3".to_string(),
        },
    }
}

/// The three matches of the Grype output fixture.
fn grype_fixture() -> GrypeDocument {
    GrypeDocument {
        matches: vec![
            grype_match(
                "CVE-2026-0001",
                "Critical",
                Some(GrypeFix {
                    versions: vec!["1.25.4".to_string()],
                    state: Some("fixed".to_string()),
                }),
                Some(98),
            ),
            grype_match(
                "CVE-2026-0002",
                "High",
                Some(GrypeFix {
                    versions: Vec::new(),
                    state: Some("not-fixed".to_string()),
                }),
                Some(75),
            ),
            grype_match("CVE-2026-0003", "Medium", None, None),
        ],
    }
}

fn grype_target() -> ScanTarget {
    ScanTarget {
        id: "target-1".to_string(),
        inventory_item_id: "docker:abc".to_string(),
        name: "norn-nginx".to_string(),
        target_type: ScanTargetType::ContainerImage,
        reference: "docker:nginx:1.25.3".to_string(),
        exposure: Exposure::Public,
        docker: None,
    }
}

#[test]
fn parses_grype_json_fixture() {
    let findings = parse_grype_json(&grype_fixture(), &grype_target());

    assert_eq!(findings.len(), 3);
    assert_eq!(findings[0].vulnerability_id, "CVE-2026-0001");
    assert_eq!(findings[0].severity, Severity::Critical);
    assert_eq!(findings[0].fix_available, FixAvailability::Available);
    assert_eq!(findings[1].fix_available, FixAvailability::NotAvailable);
    assert_eq!(findings[0].cvss_tenths, Some(98));
}

#[test]
fn grype_findings_carry_target_and_fix() {
    let findings = parse_grype_json(&grype_fixture(), &grype_target());
    assert_eq!(findings[0].id, "target-1:CVE-2026-0001:nginx");
    assert_eq!(findings[0].scanner, "grype");
    assert_eq!(findings[0].inventory_item_id, "docker:abc");
    assert_eq!(findings[0].fixed_version.as_deref(), Some("1.25.4"));
    assert_eq!(findings[1].fixed_version, None);
    assert_eq!(findings[2].fix_available, FixAvailability::Unknown);
    assert_eq!(findings[2].cvss_tenths, None);
    assert_eq!(findings[2].severity, Severity::Medium);
    assert_eq!(fix_availability(&None), FixAvailability::Unknown);
    assert_eq!(
        fix_availability(&Some(GrypeFix {
            versions: Vec::new(),
            state: Some("fixed".to_string()),
        })),
        FixAvailability::Available
    );
}

#[test]
fn grype_scanner_runs_and_reports() {
    let scanner = GrypeScanner::new("grype".to_string(), 300);
    assert_eq!(scanner.name(), "grype");
    assert_eq!(scanner.command_args(&grype_target()), vec!["-o", "json", "docker:nginx:1.25.3"]);
    assert_eq!(scanner.timeout_message(), "Grype scan timed out after 300s");
    assert_eq!(
        scanner.launch_error_message(true, "No such file"),
        "Grype binary 'grype' was not found; install Grype or set scanner.grype.binary"
    );
    assert_eq!(
        scanner.launch_error_message(false, "permission denied"),
        "failed to execute Grype: permission denied"
    );
    assert_eq!(
        scanner.exit_message("exit status: 1", "  db update failed\n"),
        "Grype exited with exit status: 1: db update failed"
    );
    let fixture = GrypeScanner::with_fixture("grype".to_string(), 10, "out.json".to_string());
    assert_eq!(fixture.fixture_path().as_deref(), Some("out.json"));
    assert_eq!(fixture.timeout_seconds(), 10);
}

#[test]
fn severities_read_from_grype_text() {
    assert_eq!(Severity::from_grype("CRITICAL"), Severity::Critical);
    assert_eq!(Severity::from_grype("high"), Severity::High);
    assert_eq!(Severity::from_grype("Negligible"), Severity::Negligible);
    assert_eq!(Severity::from_grype("whatever"), Severity::Unknown);
    assert_eq!(Severity::High.as_str(), "High");
}

#[test]
fn formats_discord_payload() {
    let payload = discord_payload(&NotificationEvent {
        project: "Norn".to_string(),
        host: "homelab".to_string(),
        service: "nginx".to_string(),
        artifact: Some("nginx:1.25.3".to_string()),
        vulnerability_id: Some("CVE-2026-0001".to_string()),
        severity: Some(Severity::Critical),
        runtime_risk: RiskLevel::Critical,
        exposure: Exposure::Public,
        reason: "Critical vulnerability on public service".to_string(),
        recommended_action: Some("Patch now.".to_string()),
    });

    assert_eq!(payload.username, "Norn");
    assert!(payload.title.contains("CVE-2026-0001"));
    assert_eq!(payload.fields[2].value, "nginx");
}

#[test]
fn discord_payload_fills_missing_values() {
    let payload = discord_payload(&NotificationEvent {
        project: "Norn".to_string(),
        host: "homelab".to_string(),
        service: "worker".to_string(),
        artifact: None,
        vulnerability_id: None,
        severity: None,
        runtime_risk: RiskLevel::Medium,
        exposure: Exposure::Internal,
        reason: "Check this".to_string(),
        recommended_action: None,
    });
    assert_eq!(payload.title, "Medium runtime risk");
    assert_eq!(payload.description, "Check this");
    assert_eq!(payload.color, 0xf4b942);
    assert_eq!(payload.fields.len(), 8);
    assert_eq!(payload.fields[3].value, "unknown");
    assert_eq!(payload.fields[4].value, "N/A");
    assert_eq!(payload.fields[6].value, "internal");
    assert_eq!(
        payload.fields[7].value,
        "Review the affected runtime asset and reduce exposure where possible."
    );
    assert!(!payload.fields[7].inline);
    assert_eq!(color_for_risk(5), 0xd7263d);
    assert_eq!(color_for_risk(0), 0x6c757d);
}

fn item(exposure: Exposure) -> InventoryItem {
    let mut item = InventoryItem::new(
        "docker:abc".to_string(),
        "nginx".to_string(),
        InventorySource::Docker,
        InventoryKind::Container,
    );
    item.status = RuntimeStatus::Running;
    item.exposure = exposure;
    item
}

fn risk_finding(severity: Severity) -> VulnerabilityFinding {
    finding(severity, "target-1", "docker:abc")
}

#[test]
fn critical_public_service_is_critical_runtime_risk() {
    let risk = evaluate_finding(&risk_finding(Severity::Critical), &item(Exposure::Public));

    assert_eq!(risk.risk, RiskLevel::Critical);
}

#[test]
fn critical_internal_service_is_high_runtime_risk() {
    let risk = evaluate_finding(&risk_finding(Severity::Critical), &item(Exposure::Internal));

    assert_eq!(risk.risk, RiskLevel::High);
}

#[test]
fn medium_internal_service_stays_medium() {
    let risk = evaluate_finding(&risk_finding(Severity::Medium), &item(Exposure::Internal));

    assert_eq!(risk.risk, RiskLevel::Medium);
}

#[test]
fn privileged_container_increases_risk() {
    let mut item = item(Exposure::Internal);
    item.docker = Some(DockerMetadata {
        container_id: "abc".to_string(),
        image: "nginx".to_string(),
        image_id: None,
        privileged: true,
        docker_socket_mounted: false,
        labels: Default::default(),
    });

    let risk = evaluate_finding(&risk_finding(Severity::High), &item);

    assert_eq!(risk.risk, RiskLevel::High);
    assert!(risk.reason.contains("privileged"));
}

#[test]
fn docker_socket_mount_increases_risk() {
    let mut item = item(Exposure::Internal);
    item.docker = Some(DockerMetadata {
        container_id: "abc".to_string(),
        image: "nginx".to_string(),
        image_id: None,
        privileged: false,
        docker_socket_mounted: true,
        labels: Default::default(),
    });

    let risk = evaluate_finding(&risk_finding(Severity::High), &item);

    assert_eq!(risk.risk, RiskLevel::High);
    assert!(risk.reason.contains("Docker socket"));
}

#[test]
fn unknown_exposure_is_marked_for_review() {
    let risk = evaluate_finding(&risk_finding(Severity::High), &item(Exposure::Unknown));

    assert_eq!(risk.risk, RiskLevel::Medium);
    assert!(risk.reason.contains("Unknown exposure"));
}

#[test]
fn risk_evaluation_explains_itself() {
    let mut item = item(Exposure::Public);
    item.docker = Some(DockerMetadata {
        container_id: "abc".to_string(),
        image: "nginx".to_string(),
        image_id: None,
        privileged: true,
        docker_socket_mounted: true,
        labels: Default::default(),
    });
    let risk = evaluate_finding(&risk_finding(Severity::Low), &item);
    assert_eq!(risk.risk, RiskLevel::High);
    assert_eq!(
        risk.reason,
        "Low vulnerability on public service; Container is running privileged; Container mounts the Docker socket"
    );
    assert_eq!(
        risk.recommended_action.as_deref(),
        Some("Patch or redeploy the affected service as soon as possible.")
    );
    assert_eq!(risk.id.len(), 36);
    assert_eq!(risk.service_name, "nginx");
    assert_eq!(risk.finding_id, "finding-1");
    assert!(risk.evaluated_at > 0);
}

#[test]
fn base_risk_table() {
    assert_eq!(base_risk(Severity::Critical, Exposure::Public), RiskLevel::Critical);
    assert_eq!(base_risk(Severity::High, Exposure::Localhost), RiskLevel::Medium);
    assert_eq!(base_risk(Severity::Low, Exposure::Internal), RiskLevel::Low);
    assert_eq!(base_risk(Severity::Negligible, Exposure::Public), RiskLevel::Informational);
    assert_eq!(base_risk(Severity::Unknown, Exposure::Unknown), RiskLevel::Informational);
    assert_eq!(RiskLevel::High.raised_one(), RiskLevel::Critical);
    assert_eq!(RiskLevel::Critical.raised_one(), RiskLevel::Critical);
    assert!(RiskLevel::High.at_least(RiskLevel::Medium));
    assert!(!RiskLevel::Low.at_least(RiskLevel::Medium));
    assert_eq!(RiskLevel::Informational.score(), 1);
    assert!(Exposure::Public.is_public());
}

#[test]
fn recommended_actions_by_fix_and_risk() {
    assert_eq!(
        recommended_action(FixAvailability::Available, RiskLevel::Medium).as_deref(),
        Some("Plan an update for the affected package or image.")
    );
    assert_eq!(
        recommended_action(FixAvailability::NotAvailable, RiskLevel::Critical).as_deref(),
        Some("No fix is known; reduce exposure, add compensating controls, or replace the component.")
    );
    assert_eq!(recommended_action(FixAvailability::NotAvailable, RiskLevel::Low), None);
    assert_eq!(recommended_action(FixAvailability::Unknown, RiskLevel::Critical), None);
}

#[test]
fn inventory_items_start_unknown() {
    let item = InventoryItem::new(
        "systemd:nginx.service".to_string(),
        "nginx".to_string(),
        InventorySource::Systemd,
        InventoryKind::Service,
    );
    assert_eq!(item.status, RuntimeStatus::Unknown);
    assert_eq!(item.exposure, Exposure::Unknown);
    assert!(item.endpoints.is_empty());
    assert!(!item.is_running());
    assert!(item.collected_at > 0);
    let target = ScanTarget::from_inventory(&item, "dir:/".to_string());
    assert_eq!(target.inventory_item_id, "systemd:nginx.service");
    assert_eq!(target.reference, "dir:/");
    assert_eq!(target.target_type, ScanTargetType::HostFilesystem);
    assert_eq!(target.id.len(), 36);
}

#[test]
fn errors_describe_themselves() {
    let error = NornError::Collector {
        collector: "docker".to_string(),
        message: "socket missing".to_string(),
    };
    assert_eq!(error.describe(), "collector docker failed: socket missing");
    assert_eq!(
        NornError::Config("bad".to_string()).describe(),
        "configuration error: bad"
    );
    let scanner = NornError::Scanner {
        scanner: "grype".to_string(),
        target: "docker:nginx".to_string(),
        message: "timed out".to_string(),
    };
    assert_eq!(scanner.describe(), "scanner grype failed for docker:nginx: timed out");
    assert_eq!(
        NornError::Database("locked".to_string()).describe(),
        "database error: locked"
    );
    assert_eq!(
        NornError::Notification("webhook 404".to_string()).describe(),
        "notification error: webhook 404"
    );
}

#[test]
fn interval_follows_what_was_read() {
    assert_eq!(
        interval_from(Some((90, 500)), "90.0000005s"),
        Ok(IntervalDuration {
            secs: 90,
            subsec_nanos: 500
        })
    );
    assert_eq!(
        interval_from(None, "soon"),
        Err(NornError::Config("invalid scan interval soon".to_string()))
    );
}

#[test]
fn long_scan_intervals_are_read_and_overflowing_ones_refused() {
    let long = ScanConfig {
        interval: "100000000000s".to_string(),
        run_on_start: true,
    };
    assert_eq!(
        long.interval_duration().unwrap(),
        IntervalDuration::from_secs(100_000_000_000)
    );
    let years = ScanConfig {
        interval: "1000y 2d".to_string(),
        run_on_start: true,
    };
    assert_eq!(
        years.interval_duration().unwrap(),
        IntervalDuration::from_secs(31_557_600_000 + 172_800)
    );
    for text in ["18446744073709551615s 1000000000ns", "600000000000y"] {
        let cfg = ScanConfig {
            interval: text.to_string(),
            run_on_start: true,
        };
        match cfg.interval_duration() {
            Err(NornError::Config(message)) => {
                assert_eq!(message, format!("invalid scan interval {text}"))
            }
            other => panic!("unexpected {other:?}"),
        }
    }
}

#[test]
fn only_unknown_exposure_is_marked_for_review() {
    for exposure in [Exposure::Public, Exposure::Internal, Exposure::Localhost] {
        let risk = evaluate_finding(&risk_finding(Severity::Critical), &item(exposure));
        assert!(!risk.reason.contains("Unknown exposure"));
    }
    let unknown = evaluate_finding(&risk_finding(Severity::Unknown), &item(Exposure::Unknown));
    assert!(unknown.reason.starts_with("Unknown vulnerability on unknown service"));
    assert!(unknown.reason.contains("Unknown exposure"));
}

#[test]
fn dashboard_keys_quit_scan_and_refresh() {
    assert_eq!(dashboard_help_status(), "q quit | r run scan | R refresh");
    let step = |event| dashboard_step(event, 5_000);
    assert_eq!(step(DashboardEvent::Key(DashboardKey::Char('q'))), (DashboardAction::Quit, None));
    assert_eq!(step(DashboardEvent::Key(DashboardKey::Escape)), (DashboardAction::Quit, None));
    assert_eq!(
        step(DashboardEvent::Key(DashboardKey::Char('r'))),
        (DashboardAction::StartScan, Some("Running scan...".to_string()))
    );
    assert_eq!(
        step(DashboardEvent::Key(DashboardKey::Char('R'))),
        (DashboardAction::Reload, Some("Dashboard refreshed".to_string()))
    );
    assert_eq!(step(DashboardEvent::Key(DashboardKey::Char('x'))), (DashboardAction::Stay, None));
    assert_eq!(step(DashboardEvent::Key(DashboardKey::Other)), (DashboardAction::Stay, None));
}

#[test]
fn dashboard_reloads_when_idle_past_the_interval() {
    assert_eq!(
        dashboard_step(DashboardEvent::Idle { since_refresh_millis: 4_999 }, 5_000),
        (DashboardAction::Stay, None)
    );
    assert_eq!(
        dashboard_step(DashboardEvent::Idle { since_refresh_millis: 5_000 }, 5_000),
        (DashboardAction::Reload, None)
    );
}

#[test]
fn dashboard_reports_how_a_scan_ended() {
    assert_eq!(scan_completed_status(12, 340, 1), "Scan completed: 12 inventory, 340 findings, 1 errors");
    assert_eq!(
        dashboard_step(DashboardEvent::ScanCompleted { inventory: 3, findings: 0, errors: 2 }, 5_000),
        (
            DashboardAction::Reload,
            Some("Scan completed: 3 inventory, 0 findings, 2 errors".to_string())
        )
    );
    assert_eq!(
        dashboard_step(DashboardEvent::ScanFailed("grype missing".to_string()), 5_000),
        (DashboardAction::Stay, Some("Scan failed: grype missing".to_string()))
    );
}

#[test]
fn the_clock_reads_milliseconds_since_the_epoch() {
    let before = std::time::SystemTime::now()
        .duration_since(std::time::UNIX_EPOCH)
        .unwrap()
        .as_millis() as i64;
    let now = norn::runtime::current_time();
    let after = std::time::SystemTime::now()
        .duration_since(std::time::UNIX_EPOCH)
        .unwrap()
        .as_millis() as i64;
    assert!(before <= now && now <= after);
}

#[test]
fn humantime_is_given_every_text_below_the_weight_bound() {
    assert!(humantime_can_read("6h"));
    assert!(humantime_can_read("1h 30m 15.5s"));
    assert!(humantime_can_read("584000000000s"));
    assert!(!humantime_can_read("585000000000s"));
    assert!(!humantime_can_read("18446744073709551615s 1000000000ns"));
}
