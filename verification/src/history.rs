//! Scan history: where the database lives, how a scan is opened and pruned,
//! and how the stored rows of a scan add up to its summary.
use vstd::prelude::*;

use crate::models::{
    Exposure, InventoryKind, RiskEvaluation, RiskLevel, RuntimeStatus, ScanRecord, ScannerError,
    Summary, VulnerabilityFinding, VulnerabilitySummary,
};
use crate::runtime::{current_time, new_id, Timestamp, MILLIS_PER_DAY};
use crate::text::{clone_opt_string, has_prefix, starts_with, string_of, chars_of, copy_range};

verus! {

/// The file a database URL names: `:memory:` for `sqlite::memory:`, else the
/// path after `sqlite://`.
pub open spec fn database_path(url: Seq<char>) -> Option<Seq<char>> {
    if url == "sqlite::memory:"@ {
        Some(":memory:"@)
    } else if starts_with(url, "sqlite://"@) {
        Some(url.skip(9))
    } else {
        None
    }
}

pub fn sqlite_path_from_url(url: &str) -> (r: Result<String, String>)
    ensures
        match r {
            Ok(path) => database_path(url@) == Some(path@),
            Err(message) => database_path(url@) is None && message@
                == "database.url must start with sqlite://"@,
        },
{
    let chars = chars_of(url);
    if crate::models::str_eq(url, "sqlite::memory:") {
        return Ok(String::from_str(":memory:"));
    }
    let prefix = chars_of("sqlite://");
    if has_prefix(chars.as_slice(), prefix.as_slice()) {
        proof {
            reveal_strlit("sqlite://");
        }
        let rest = copy_range(chars.as_slice(), 9, chars.len());
        Ok(string_of(rest.as_slice()))
    } else {
        Err(String::from_str("database.url must start with sqlite://"))
    }
}

/// Running containers and active services count as running.
pub fn status_is_running(status: RuntimeStatus) -> (b: bool)
    ensures
        b == status.runs(),
{
    matches!(status, RuntimeStatus::Running | RuntimeStatus::Active)
}

/// The risk level stored as a score from 1 to 5.
pub fn risk_from_score(score: i64) -> (r: Option<RiskLevel>)
    ensures
        r == RiskLevel::of_rank(score as int),
{
    match score {
        5 => Some(RiskLevel::Critical),
        4 => Some(RiskLevel::High),
        3 => Some(RiskLevel::Medium),
        2 => Some(RiskLevel::Low),
        1 => Some(RiskLevel::Informational),
        _ => None,
    }
}

/// A stored count of inventory items of one kind, status and exposure.
pub type InventoryCount = (InventoryKind, RuntimeStatus, Exposure, usize);

/// The items of the first `n` rows that are running and of kind `kind`.
pub open spec fn running_of(rows: Seq<InventoryCount>, kind: InventoryKind, n: int) -> nat
    decreases n,
{
    if n <= 0 {
        0
    } else {
        running_of(rows, kind, n - 1) + if rows[n - 1].1.runs() && rows[n - 1].0 == kind {
            rows[n - 1].3 as nat
        } else {
            0nat
        }
    }
}

/// The items of the first `n` rows that are publicly bound.
pub open spec fn public_of(rows: Seq<InventoryCount>, n: int) -> nat
    decreases n,
{
    if n <= 0 {
        0
    } else {
        public_of(rows, n - 1) + if rows[n - 1].2 == Exposure::Public {
            rows[n - 1].3 as nat
        } else {
            0nat
        }
    }
}

/// All items counted in the first `n` rows.
pub open spec fn items_of(rows: Seq<InventoryCount>, n: int) -> nat
    decreases n,
{
    if n <= 0 {
        0
    } else {
        items_of(rows, n - 1) + rows[n - 1].3 as nat
    }
}

/// The risks of the first `n` rows at level `level`.
pub open spec fn risks_at(rows: Seq<(RiskLevel, usize)>, level: RiskLevel, n: int) -> nat
    decreases n,
{
    if n <= 0 {
        0
    } else {
        risks_at(rows, level, n - 1) + if rows[n - 1].0 == level {
            rows[n - 1].1 as nat
        } else {
            0nat
        }
    }
}

/// All risks counted in the first `n` rows.
pub open spec fn all_risks(rows: Seq<(RiskLevel, usize)>, n: int) -> nat
    decreases n,
{
    if n <= 0 {
        0
    } else {
        all_risks(rows, n - 1) + rows[n - 1].1 as nat
    }
}

/// The time a scan is shown at: when it completed, else when it started.
pub open spec fn shown_time(scan: ScanRecord) -> Option<Timestamp> {
    match scan.completed_at {
        Some(t) => Some(t),
        None => Some(scan.started_at),
    }
}

/// `s` is the summary of a scan with these stored counts.
pub open spec fn summarizes(
    s: Summary,
    scan: ScanRecord,
    inventory: Seq<InventoryCount>,
    risks: Seq<(RiskLevel, usize)>,
) -> bool {
    let n = inventory.len() as int;
    let m = risks.len() as int;
    &&& s.running_containers == running_of(inventory, InventoryKind::Container, n)
    &&& s.running_services == running_of(inventory, InventoryKind::Service, n)
    &&& s.listening_ports == running_of(inventory, InventoryKind::ListeningPort, n)
    &&& s.public_services == public_of(inventory, n)
    &&& s.critical_risks == risks_at(risks, RiskLevel::Critical, m)
    &&& s.high_risks == risks_at(risks, RiskLevel::High, m)
    &&& s.medium_risks == risks_at(risks, RiskLevel::Medium, m)
    &&& s.low_risks == risks_at(risks, RiskLevel::Low, m)
    &&& s.informational_risks == risks_at(risks, RiskLevel::Informational, m)
    &&& s.last_scan_time == shown_time(scan)
}

proof fn lemma_inventory_parts(rows: Seq<InventoryCount>, n: int)
    requires
        0 <= n <= rows.len(),
    ensures
        running_of(rows, InventoryKind::Container, n) + running_of(rows, InventoryKind::Service, n)
            + running_of(rows, InventoryKind::ListeningPort, n) <= items_of(rows, n),
        public_of(rows, n) <= items_of(rows, n),
    decreases n,
{
    if n > 0 {
        lemma_inventory_parts(rows, n - 1);
    }
}

/// The risk counts by level add up to all evaluated risks.
proof fn lemma_risk_parts(rows: Seq<(RiskLevel, usize)>, n: int)
    requires
        0 <= n <= rows.len(),
    ensures
        risks_at(rows, RiskLevel::Critical, n) + risks_at(rows, RiskLevel::High, n) + risks_at(
            rows,
            RiskLevel::Medium,
            n,
        ) + risks_at(rows, RiskLevel::Low, n) + risks_at(rows, RiskLevel::Informational, n)
            == all_risks(rows, n),
    decreases n,
{
    if n > 0 {
        lemma_risk_parts(rows, n - 1);
    }
}

/// The summary of a scan from its stored counts: running containers,
/// services and listening ports, publicly bound items, and risks by level.
pub fn summary_from_counts(
    scan: &ScanRecord,
    inventory: &[InventoryCount],
    risks: &[(RiskLevel, usize)],
) -> (s: Summary)
    requires
        items_of(inventory@, inventory@.len() as int) <= usize::MAX,
        all_risks(risks@, risks@.len() as int) <= usize::MAX,
    ensures
        summarizes(s, *scan, inventory@, risks@),
{
    let mut s = Summary {
        running_services: 0,
        running_containers: 0,
        listening_ports: 0,
        public_services: 0,
        critical_risks: 0,
        high_risks: 0,
        medium_risks: 0,
        low_risks: 0,
        informational_risks: 0,
        last_scan_time: match scan.completed_at {
            Some(t) => Some(t),
            None => Some(scan.started_at),
        },
    };
    let mut i: usize = 0;
    while i < inventory.len()
        invariant
            i <= inventory@.len(),
            items_of(inventory@, inventory@.len() as int) <= usize::MAX,
            s.running_containers == running_of(inventory@, InventoryKind::Container, i as int),
            s.running_services == running_of(inventory@, InventoryKind::Service, i as int),
            s.listening_ports == running_of(inventory@, InventoryKind::ListeningPort, i as int),
            s.public_services == public_of(inventory@, i as int),
            s.critical_risks == 0 && s.high_risks == 0 && s.medium_risks == 0 && s.low_risks == 0
                && s.informational_risks == 0,
            s.last_scan_time == shown_time(*scan),
        decreases inventory@.len() - i,
    {
        proof {
            lemma_inventory_parts(inventory@, i + 1);
            lemma_items_grow(inventory@, i + 1, inventory@.len() as int);
        }
        let (kind, status, exposure, count) = inventory[i];
        if status_is_running(status) {
            match kind {
                InventoryKind::Container => s.running_containers = s.running_containers + count,
                InventoryKind::Service => s.running_services = s.running_services + count,
                InventoryKind::ListeningPort => s.listening_ports = s.listening_ports + count,
                InventoryKind::Package | InventoryKind::Host => {},
            }
        }
        if matches!(exposure, Exposure::Public) {
            s.public_services = s.public_services + count;
        }
        i = i + 1;
    }
    let mut j: usize = 0;
    while j < risks.len()
        invariant
            j <= risks@.len(),
            all_risks(risks@, risks@.len() as int) <= usize::MAX,
            s.running_containers == running_of(inventory@, InventoryKind::Container, inventory@.len() as int),
            s.running_services == running_of(inventory@, InventoryKind::Service, inventory@.len() as int),
            s.listening_ports == running_of(inventory@, InventoryKind::ListeningPort, inventory@.len() as int),
            s.public_services == public_of(inventory@, inventory@.len() as int),
            s.critical_risks == risks_at(risks@, RiskLevel::Critical, j as int),
            s.high_risks == risks_at(risks@, RiskLevel::High, j as int),
            s.medium_risks == risks_at(risks@, RiskLevel::Medium, j as int),
            s.low_risks == risks_at(risks@, RiskLevel::Low, j as int),
            s.informational_risks == risks_at(risks@, RiskLevel::Informational, j as int),
            s.last_scan_time == shown_time(*scan),
        decreases risks@.len() - j,
    {
        proof {
            lemma_risk_parts(risks@, j + 1);
            lemma_all_risks_grow(risks@, j + 1, risks@.len() as int);
        }
        let (level, count) = risks[j];
        match level {
            RiskLevel::Critical => s.critical_risks = s.critical_risks + count,
            RiskLevel::High => s.high_risks = s.high_risks + count,
            RiskLevel::Medium => s.medium_risks = s.medium_risks + count,
            RiskLevel::Low => s.low_risks = s.low_risks + count,
            RiskLevel::Informational => s.informational_risks = s.informational_risks + count,
        }
        j = j + 1;
    }
    s
}

proof fn lemma_items_grow(rows: Seq<InventoryCount>, a: int, b: int)
    requires
        0 <= a <= b <= rows.len(),
    ensures
        items_of(rows, a) <= items_of(rows, b),
    decreases b - a,
{
    if a < b {
        lemma_items_grow(rows, a, b - 1);
    }
}

proof fn lemma_all_risks_grow(rows: Seq<(RiskLevel, usize)>, a: int, b: int)
    requires
        0 <= a <= b <= rows.len(),
    ensures
        all_risks(rows, a) <= all_risks(rows, b),
    decreases b - a,
{
    if a < b {
        lemma_all_risks_grow(rows, a, b - 1);
    }
}

/// The risk counts of a summary line up with the evaluated risks: critical,
/// high, medium, low and informational add up to all of them.
pub proof fn lemma_summary_counts_every_risk(
    s: Summary,
    scan: ScanRecord,
    inventory: Seq<InventoryCount>,
    risks: Seq<(RiskLevel, usize)>,
)
    requires
        summarizes(s, scan, inventory, risks),
    ensures
        s.critical_risks + s.high_risks + s.medium_risks + s.low_risks + s.informational_risks
            == all_risks(risks, risks.len() as int),
{
    lemma_risk_parts(risks, risks.len() as int);
}

/// The time before which finished scans are pruned, `retention_days` days
/// before `now`; none when `retention_days` is 0, which keeps all history.
pub open spec fn cutoff_for(now: int, retention_days: u32) -> Option<int> {
    if retention_days == 0 {
        None
    } else {
        Some(now - retention_days * MILLIS_PER_DAY)
    }
}

pub fn retention_cutoff(now: Timestamp, retention_days: u32) -> (r: Option<Timestamp>)
    requires
        now >= 0,
    ensures
        match cutoff_for(now as int, retention_days) {
            Some(t) => r == Some(t as Timestamp),
            None => r is None,
        },
{
    if retention_days == 0 {
        None
    } else {
        assert(retention_days * MILLIS_PER_DAY <= u32::MAX as int * MILLIS_PER_DAY) by (nonlinear_arith)
            requires
                retention_days <= u32::MAX,
        ;
        Some(now - (retention_days as i64) * MILLIS_PER_DAY)
    }
}

/// A scan is pruned when it finished and started before the cutoff.
pub open spec fn pruned(started_at: int, status: Seq<char>, cutoff: Option<int>) -> bool {
    match cutoff {
        Some(c) => started_at < c && status != "running"@,
        None => false,
    }
}

pub fn is_pruned(scan: &ScanRecord, cutoff: Option<Timestamp>) -> (b: bool)
    ensures
        b == pruned(
            scan.started_at as int,
            scan.status@,
            match cutoff {
                Some(c) => Some(c as int),
                None => None,
            },
        ),
{
    match cutoff {
        Some(c) => scan.started_at < c && !crate::models::str_eq(scan.status.as_str(), "running"),
        None => false,
    }
}

/// Retention never removes a running scan, and keeps everything when
/// `retention_days` is 0.
pub proof fn lemma_retention_keeps_running(now: int, retention_days: u32, started_at: int, status: Seq<char>)
    ensures
        status == "running"@ ==> !pruned(started_at, status, cutoff_for(now, retention_days)),
        retention_days == 0 ==> !pruned(started_at, status, cutoff_for(now, retention_days)),
{
}

/// A new scan of `host`, running from now under a fresh id.
pub fn new_scan_record(host: &str) -> (scan: ScanRecord)
    ensures
        scan.id@.len() == 36,
        scan.host@ == host@,
        scan.started_at >= 0,
        scan.completed_at is None,
        scan.status@ == "running"@,
        scan.inventory_count == 0,
        scan.finding_count == 0,
        scan.scanner_errors@.len() == 0,
{
    ScanRecord {
        id: new_id(),
        host: String::from_str(host),
        started_at: current_time(),
        completed_at: None,
        status: String::from_str("running"),
        inventory_count: 0,
        finding_count: 0,
        scanner_errors: Vec::new(),
    }
}

/// The error recorded on a scan that a newer run of the same host replaced
/// while it was still running.
pub fn superseded_scan_error() -> (e: ScannerError)
    ensures
        e.scanner@ == "norn"@,
        e.target@ == "scan"@,
        e.message@ == "Scan was superseded by a newer run before it completed."@,
{
    ScannerError {
        scanner: String::from_str("norn"),
        target: String::from_str("scan"),
        message: String::from_str("Scan was superseded by a newer run before it completed."),
    }
}

/// The summary of a vulnerability from its risk and its finding.
pub fn vulnerability_summary_of(risk: &RiskEvaluation, finding: &VulnerabilityFinding) -> (v:
    VulnerabilitySummary)
    ensures
        v.vulnerability_id == risk.vulnerability_id,
        v.severity == risk.severity,
        v.runtime_risk == risk.risk,
        v.affected_service == risk.service_name,
        v.exposed == risk.exposure,
        v.fix_available == finding.fix_available,
        v.first_seen == finding.first_seen,
        v.last_seen == finding.last_seen,
        v.package_name == finding.package_name,
        v.installed_version == finding.installed_version,
        v.fixed_version == finding.fixed_version,
{
    VulnerabilitySummary {
        vulnerability_id: risk.vulnerability_id.clone(),
        severity: risk.severity,
        runtime_risk: risk.risk,
        affected_service: risk.service_name.clone(),
        exposed: risk.exposure,
        fix_available: finding.fix_available,
        first_seen: finding.first_seen,
        last_seen: finding.last_seen,
        package_name: clone_opt_string(&finding.package_name),
        installed_version: clone_opt_string(&finding.installed_version),
        fixed_version: clone_opt_string(&finding.fixed_version),
    }
}


proof fn lemma_risks_at_same_prefix(
    a: Seq<(RiskLevel, usize)>,
    b: Seq<(RiskLevel, usize)>,
    level: RiskLevel,
    n: int,
)
    requires
        0 <= n <= a.len(),
        n <= b.len(),
        forall|k: int| 0 <= k < n ==> a[k] == b[k],
    ensures
        risks_at(a, level, n) == risks_at(b, level, n),
    decreases n,
{
    if n > 0 {
        lemma_risks_at_same_prefix(a, b, level, n - 1);
    }
}

/// A summary counts each stored risk row under its own level: with no rows
/// every risk count is 0, and one more row of `count` risks at `level` adds
/// `count` to the count of that level and leaves the other four as they were.
pub proof fn lemma_summary_counts_rows_by_level(
    s1: Summary,
    s2: Summary,
    scan: ScanRecord,
    inventory: Seq<InventoryCount>,
    risks: Seq<(RiskLevel, usize)>,
    level: RiskLevel,
    count: usize,
)
    requires
        summarizes(s1, scan, inventory, risks),
        summarizes(s2, scan, inventory, risks.push((level, count))),
    ensures
        risks.len() == 0 ==> s1.critical_risks == 0 && s1.high_risks == 0 && s1.medium_risks == 0
            && s1.low_risks == 0 && s1.informational_risks == 0,
        s2.critical_risks == s1.critical_risks + if level == RiskLevel::Critical {
            count as int
        } else {
            0
        },
        s2.high_risks == s1.high_risks + if level == RiskLevel::High {
            count as int
        } else {
            0
        },
        s2.medium_risks == s1.medium_risks + if level == RiskLevel::Medium {
            count as int
        } else {
            0
        },
        s2.low_risks == s1.low_risks + if level == RiskLevel::Low {
            count as int
        } else {
            0
        },
        s2.informational_risks == s1.informational_risks + if level == RiskLevel::Informational {
            count as int
        } else {
            0
        },
{
    let more = risks.push((level, count));
    let m = risks.len() as int;
    assert forall|l: RiskLevel| #[trigger] risks_at(more, l, m + 1) == risks_at(risks, l, m) + if more[m].0 == l {
        more[m].1 as nat
    } else {
        0nat
    } by {
        lemma_risks_at_same_prefix(more, risks, l, m);
    }
    assert(risks_at(more, RiskLevel::Critical, m + 1) == risks_at(risks, RiskLevel::Critical, m) + if more[m].0 == RiskLevel::Critical { more[m].1 as nat } else { 0nat });
    assert(risks_at(more, RiskLevel::High, m + 1) == risks_at(risks, RiskLevel::High, m) + if more[m].0 == RiskLevel::High { more[m].1 as nat } else { 0nat });
    assert(risks_at(more, RiskLevel::Medium, m + 1) == risks_at(risks, RiskLevel::Medium, m) + if more[m].0 == RiskLevel::Medium { more[m].1 as nat } else { 0nat });
    assert(risks_at(more, RiskLevel::Low, m + 1) == risks_at(risks, RiskLevel::Low, m) + if more[m].0 == RiskLevel::Low { more[m].1 as nat } else { 0nat });
    assert(risks_at(more, RiskLevel::Informational, m + 1) == risks_at(risks, RiskLevel::Informational, m) + if more[m].0 == RiskLevel::Informational { more[m].1 as nat } else { 0nat });
}


proof fn lemma_inventory_same_prefix(
    a: Seq<InventoryCount>,
    b: Seq<InventoryCount>,
    kind: InventoryKind,
    n: int,
)
    requires
        0 <= n <= a.len(),
        n <= b.len(),
        forall|k: int| 0 <= k < n ==> a[k] == b[k],
    ensures
        running_of(a, kind, n) == running_of(b, kind, n),
        public_of(a, n) == public_of(b, n),
    decreases n,
{
    if n > 0 {
        lemma_inventory_same_prefix(a, b, kind, n - 1);
    }
}

/// A summary counts each stored inventory row where it belongs: with no rows
/// every inventory count is 0, and one more row of `count` items adds
/// `count` to the running containers, running services or listening ports
/// when its items are running or active and of that kind, and to the publicly
/// bound items when they are exposed publicly; every other count stays.
pub proof fn lemma_summary_counts_inventory_rows(
    s1: Summary,
    s2: Summary,
    scan: ScanRecord,
    inventory: Seq<InventoryCount>,
    risks: Seq<(RiskLevel, usize)>,
    kind: InventoryKind,
    status: RuntimeStatus,
    exposure: Exposure,
    count: usize,
)
    requires
        summarizes(s1, scan, inventory, risks),
        summarizes(s2, scan, inventory.push((kind, status, exposure, count)), risks),
    ensures
        inventory.len() == 0 ==> s1.running_containers == 0 && s1.running_services == 0
            && s1.listening_ports == 0 && s1.public_services == 0,
        s2.running_containers == s1.running_containers + if (status == RuntimeStatus::Running
            || status == RuntimeStatus::Active) && kind == InventoryKind::Container {
            count as int
        } else {
            0
        },
        s2.running_services == s1.running_services + if (status == RuntimeStatus::Running
            || status == RuntimeStatus::Active) && kind == InventoryKind::Service {
            count as int
        } else {
            0
        },
        s2.listening_ports == s1.listening_ports + if (status == RuntimeStatus::Running
            || status == RuntimeStatus::Active) && kind == InventoryKind::ListeningPort {
            count as int
        } else {
            0
        },
        s2.public_services == s1.public_services + if exposure == Exposure::Public {
            count as int
        } else {
            0
        },
{
    let more = inventory.push((kind, status, exposure, count));
    let n = inventory.len() as int;
    lemma_inventory_same_prefix(more, inventory, InventoryKind::Container, n);
    lemma_inventory_same_prefix(more, inventory, InventoryKind::Service, n);
    lemma_inventory_same_prefix(more, inventory, InventoryKind::ListeningPort, n);
}


/// A summary shows when its scan completed, or when it started if it has not
/// completed.
pub proof fn lemma_summary_shows_scan_time(
    s: Summary,
    scan: ScanRecord,
    inventory: Seq<InventoryCount>,
    risks: Seq<(RiskLevel, usize)>,
)
    requires
        summarizes(s, scan, inventory, risks),
    ensures
        scan.completed_at is Some ==> s.last_scan_time == scan.completed_at,
        scan.completed_at is None ==> s.last_scan_time == Some(scan.started_at),
{
}

} // verus!
