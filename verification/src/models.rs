//! The data model: inventory, scan targets, findings, runtime risks and the
//! records kept of scans and notifications.
use std::collections::BTreeMap;
use vstd::prelude::*;

use crate::runtime::{current_time, new_id, Timestamp};
use crate::text::{ascii_lower, chars_of, clone_opt_string, is_text, to_ascii_lower};

verus! {

/// Whether two strings hold the same characters.
pub fn str_eq(a: &str, b: &str) -> (r: bool)
    ensures
        r == (a@ == b@),
{
    let ac = chars_of(a);
    is_text(ac.as_slice(), b)
}

/// A copy of a vector of strings.
pub fn clone_strings(v: &Vec<String>) -> (r: Vec<String>)
    ensures
        r@ == v@,
{
    let mut r: Vec<String> = Vec::new();
    let mut i: usize = 0;
    while i < v.len()
        invariant
            i <= v@.len(),
            r@ == v@.take(i as int),
        decreases v@.len() - i,
    {
        r.push(v[i].clone());
        assert(v@.take(i + 1) == v@.take(i as int).push(v@[i as int]));
        i = i + 1;
    }
    assert(v@.take(v@.len() as int) == v@);
    r
}

#[derive(Debug, Clone, Copy, PartialEq, Eq, PartialOrd, Ord, Structural)]
pub enum InventorySource {
    Docker,
    Systemd,
    PackageManager,
    Ports,
    Host,
}

impl InventorySource {
    /// The name under which the source is shown.
    pub open spec fn label(self) -> Seq<char> {
        match self {
            InventorySource::Docker => "docker"@,
            InventorySource::Systemd => "systemd"@,
            InventorySource::PackageManager => "packages"@,
            InventorySource::Ports => "ports"@,
            InventorySource::Host => "host"@,
        }
    }

    pub fn as_str(self) -> (s: &'static str)
        ensures
            s@ == self.label(),
    {
        match self {
            InventorySource::Docker => "docker",
            InventorySource::Systemd => "systemd",
            InventorySource::PackageManager => "packages",
            InventorySource::Ports => "ports",
            InventorySource::Host => "host",
        }
    }
}

#[derive(Debug, Clone, Copy, PartialEq, Eq, PartialOrd, Ord, Structural)]
pub enum InventoryKind {
    Container,
    Service,
    Package,
    ListeningPort,
    Host,
}

#[derive(Debug, Clone, Copy, PartialEq, Eq, Structural)]
pub enum RuntimeStatus {
    Running,
    Active,
    Installed,
    Stopped,
    Unknown,
}

impl RuntimeStatus {
    /// Running containers and active services count as running.
    pub open spec fn runs(self) -> bool {
        self == RuntimeStatus::Running || self == RuntimeStatus::Active
    }
}

#[derive(Debug, Clone, Copy, PartialEq, Eq, Structural)]
pub enum Exposure {
    Public,
    Internal,
    Localhost,
    Unknown,
}

impl Exposure {
    pub fn is_public(self) -> (b: bool)
        ensures
            b == (self == Exposure::Public),
    {
        matches!(self, Exposure::Public)
    }

    /// The name under which the exposure is shown.
    pub open spec fn label(self) -> Seq<char> {
        match self {
            Exposure::Public => "public"@,
            Exposure::Internal => "internal"@,
            Exposure::Localhost => "localhost"@,
            Exposure::Unknown => "unknown"@,
        }
    }

    pub fn as_str(self) -> (s: &'static str)
        ensures
            s@ == self.label(),
    {
        match self {
            Exposure::Public => "public",
            Exposure::Internal => "internal",
            Exposure::Localhost => "localhost",
            Exposure::Unknown => "unknown",
        }
    }
}

#[derive(Debug, Clone, Copy, PartialEq, Eq, PartialOrd, Ord, Structural)]
pub enum Severity {
    Critical,
    High,
    Medium,
    Low,
    Negligible,
    Unknown,
}

impl Severity {
    /// The severity named by a scanner's severity text, in any ASCII case.
    pub open spec fn from_text(v: Seq<char>) -> Severity {
        let l = ascii_lower(v);
        if l == "critical"@ {
            Severity::Critical
        } else if l == "high"@ {
            Severity::High
        } else if l == "medium"@ {
            Severity::Medium
        } else if l == "low"@ {
            Severity::Low
        } else if l == "negligible"@ {
            Severity::Negligible
        } else {
            Severity::Unknown
        }
    }

    pub fn from_grype(value: &str) -> (s: Severity)
        ensures
            s == Severity::from_text(value@),
    {
        let chars = chars_of(value);
        let l = to_ascii_lower(chars.as_slice());
        if is_text(l.as_slice(), "critical") {
            Severity::Critical
        } else if is_text(l.as_slice(), "high") {
            Severity::High
        } else if is_text(l.as_slice(), "medium") {
            Severity::Medium
        } else if is_text(l.as_slice(), "low") {
            Severity::Low
        } else if is_text(l.as_slice(), "negligible") {
            Severity::Negligible
        } else {
            Severity::Unknown
        }
    }

    /// A severity's own name reads back as that severity, in any ASCII case:
    /// "Low", "low" or "LOW" is low, "Medium" medium, and so on for each.
    pub proof fn lemma_reads_own_name(severity: Severity, text: Seq<char>)
        requires
            ascii_lower(text) == ascii_lower(severity.label()),
        ensures
            Severity::from_text(text) == severity,
            Severity::from_text(severity.label()) == severity,
    {
        reveal_strlit("Critical");
        reveal_strlit("High");
        reveal_strlit("Medium");
        reveal_strlit("Low");
        reveal_strlit("Negligible");
        reveal_strlit("Unknown");
        reveal_strlit("critical");
        reveal_strlit("high");
        reveal_strlit("medium");
        reveal_strlit("low");
        reveal_strlit("negligible");
        let l = ascii_lower(severity.label());
        match severity {
            Severity::Critical => assert(l =~= "critical"@),
            Severity::High => assert(l =~= "high"@),
            Severity::Medium => assert(l =~= "medium"@),
            Severity::Low => assert(l =~= "low"@),
            Severity::Negligible => assert(l =~= "negligible"@),
            Severity::Unknown => {
                assert(l.len() == 7);
                assert(l != "critical"@ && l != "high"@ && l != "medium"@ && l != "low"@);
                assert(l[0] == 'u');
                assert(l != "negligible"@);
            },
        }
    }

    /// A text that is no severity's name in any ASCII case reads as unknown.
    pub proof fn lemma_other_text_is_unknown(text: Seq<char>)
        requires
            forall|s: Severity| s != Severity::Unknown ==> ascii_lower(text) != ascii_lower(
                #[trigger] s.label(),
            ),
        ensures
            Severity::from_text(text) == Severity::Unknown,
    {
        reveal_strlit("Critical");
        reveal_strlit("High");
        reveal_strlit("Medium");
        reveal_strlit("Low");
        reveal_strlit("Negligible");
        reveal_strlit("critical");
        reveal_strlit("high");
        reveal_strlit("medium");
        reveal_strlit("low");
        reveal_strlit("negligible");
        assert(ascii_lower(Severity::Critical.label()) =~= "critical"@);
        assert(ascii_lower(Severity::High.label()) =~= "high"@);
        assert(ascii_lower(Severity::Medium.label()) =~= "medium"@);
        assert(ascii_lower(Severity::Low.label()) =~= "low"@);
        assert(ascii_lower(Severity::Negligible.label()) =~= "negligible"@);
    }

    /// The name under which the severity is shown.
    pub open spec fn label(self) -> Seq<char> {
        match self {
            Severity::Critical => "Critical"@,
            Severity::High => "High"@,
            Severity::Medium => "Medium"@,
            Severity::Low => "Low"@,
            Severity::Negligible => "Negligible"@,
            Severity::Unknown => "Unknown"@,
        }
    }

    pub fn as_str(self) -> (s: &'static str)
        ensures
            s@ == self.label(),
    {
        match self {
            Severity::Critical => "Critical",
            Severity::High => "High",
            Severity::Medium => "Medium",
            Severity::Low => "Low",
            Severity::Negligible => "Negligible",
            Severity::Unknown => "Unknown",
        }
    }
}

#[derive(Debug, Clone, Copy, PartialEq, Eq, PartialOrd, Ord, Structural)]
pub enum RiskLevel {
    Critical,
    High,
    Medium,
    Low,
    Informational,
}

impl RiskLevel {
    /// The level as a number from 1 (informational) to 5 (critical).
    pub open spec fn rank(self) -> u8 {
        match self {
            RiskLevel::Critical => 5,
            RiskLevel::High => 4,
            RiskLevel::Medium => 3,
            RiskLevel::Low => 2,
            RiskLevel::Informational => 1,
        }
    }

    pub fn score(self) -> (n: u8)
        ensures
            n == self.rank(),
    {
        match self {
            RiskLevel::Critical => 5,
            RiskLevel::High => 4,
            RiskLevel::Medium => 3,
            RiskLevel::Low => 2,
            RiskLevel::Informational => 1,
        }
    }

    /// The name under which the level is shown.
    pub open spec fn label(self) -> Seq<char> {
        match self {
            RiskLevel::Critical => "Critical"@,
            RiskLevel::High => "High"@,
            RiskLevel::Medium => "Medium"@,
            RiskLevel::Low => "Low"@,
            RiskLevel::Informational => "Informational"@,
        }
    }

    pub fn as_str(self) -> (s: &'static str)
        ensures
            s@ == self.label(),
    {
        match self {
            RiskLevel::Critical => "Critical",
            RiskLevel::High => "High",
            RiskLevel::Medium => "Medium",
            RiskLevel::Low => "Low",
            RiskLevel::Informational => "Informational",
        }
    }

    pub fn at_least(self, minimum: Self) -> (b: bool)
        ensures
            b == (self.rank() >= minimum.rank()),
    {
        self.score() >= minimum.score()
    }

    /// The next level up; critical stays critical.
    pub open spec fn raised(self) -> RiskLevel {
        match self {
            RiskLevel::Informational => RiskLevel::Low,
            RiskLevel::Low => RiskLevel::Medium,
            RiskLevel::Medium => RiskLevel::High,
            RiskLevel::High => RiskLevel::Critical,
            RiskLevel::Critical => RiskLevel::Critical,
        }
    }

    pub fn raised_one(self) -> (r: Self)
        ensures
            r == self.raised(),
    {
        match self {
            RiskLevel::Informational => RiskLevel::Low,
            RiskLevel::Low => RiskLevel::Medium,
            RiskLevel::Medium => RiskLevel::High,
            RiskLevel::High | RiskLevel::Critical => RiskLevel::Critical,
        }
    }

    /// The level of a rank from 1 to 5.
    pub open spec fn of_rank(score: int) -> Option<RiskLevel> {
        if score == 5 {
            Some(RiskLevel::Critical)
        } else if score == 4 {
            Some(RiskLevel::High)
        } else if score == 3 {
            Some(RiskLevel::Medium)
        } else if score == 2 {
            Some(RiskLevel::Low)
        } else if score == 1 {
            Some(RiskLevel::Informational)
        } else {
            None
        }
    }
}

#[derive(Debug, Clone, Copy, PartialEq, Eq, Structural)]
pub enum FixAvailability {
    Available,
    NotAvailable,
    Unknown,
}

impl FixAvailability {
    /// The name under which reports show it, the variant's name.
    pub open spec fn label(self) -> Seq<char> {
        match self {
            FixAvailability::Available => "Available"@,
            FixAvailability::NotAvailable => "NotAvailable"@,
            FixAvailability::Unknown => "Unknown"@,
        }
    }

    pub fn as_str(self) -> (s: &'static str)
        ensures
            s@ == self.label(),
    {
        match self {
            FixAvailability::Available => "Available",
            FixAvailability::NotAvailable => "NotAvailable",
            FixAvailability::Unknown => "Unknown",
        }
    }
}

#[derive(Debug, Clone, PartialEq, Eq)]
pub struct NetworkEndpoint {
    pub protocol: String,
    pub address: String,
    pub port: u16,
    pub exposure: Exposure,
    pub process: Option<String>,
}

#[derive(Debug, Clone, PartialEq, Eq, Default)]
pub struct DockerMetadata {
    pub container_id: String,
    pub image: String,
    pub image_id: Option<String>,
    pub privileged: bool,
    pub docker_socket_mounted: bool,
    pub labels: BTreeMap<String, String>,
}

impl DockerMetadata {
    /// `self` and `other` hold the same values.
    pub open spec fn same_as(&self, other: &Self) -> bool {
        &&& self.container_id == other.container_id
        &&& self.image == other.image
        &&& self.image_id == other.image_id
        &&& self.privileged == other.privileged
        &&& self.docker_socket_mounted == other.docker_socket_mounted
        &&& self.labels@ == other.labels@
    }

    pub fn duplicate(&self) -> (r: Self)
        ensures
            r.same_as(self),
    {
        DockerMetadata {
            container_id: self.container_id.clone(),
            image: self.image.clone(),
            image_id: clone_opt_string(&self.image_id),
            privileged: self.privileged,
            docker_socket_mounted: self.docker_socket_mounted,
            labels: self.labels.clone(),
        }
    }
}

/// Two optional Docker records hold the same values.
pub open spec fn same_docker(a: Option<DockerMetadata>, b: Option<DockerMetadata>) -> bool {
    match (a, b) {
        (Some(x), Some(y)) => x.same_as(&y),
        (None, None) => true,
        _ => false,
    }
}

pub fn duplicate_docker(d: &Option<DockerMetadata>) -> (r: Option<DockerMetadata>)
    ensures
        same_docker(r, *d),
{
    match d {
        Some(m) => Some(m.duplicate()),
        None => None,
    }
}

#[derive(Debug, Clone, PartialEq, Eq)]
pub struct InventoryItem {
    pub id: String,
    pub name: String,
    pub source: InventorySource,
    pub kind: InventoryKind,
    pub status: RuntimeStatus,
    pub image: Option<String>,
    pub package_name: Option<String>,
    pub package_version: Option<String>,
    pub binary_path: Option<String>,
    pub labels: BTreeMap<String, String>,
    pub endpoints: Vec<NetworkEndpoint>,
    pub exposure: Exposure,
    pub docker: Option<DockerMetadata>,
    pub collected_at: Timestamp,
}

impl InventoryItem {
    /// A new item of unknown status and exposure, with nothing else known.
    pub open spec fn fresh(
        self,
        id: Seq<char>,
        name: Seq<char>,
        source: InventorySource,
        kind: InventoryKind,
    ) -> bool {
        &&& self.id@ == id
        &&& self.name@ == name
        &&& self.source == source
        &&& self.kind == kind
        &&& self.status == RuntimeStatus::Unknown
        &&& self.image is None
        &&& self.package_name is None
        &&& self.package_version is None
        &&& self.binary_path is None
        &&& self.labels@ == Map::<String, String>::empty()
        &&& self.endpoints@.len() == 0
        &&& self.exposure == Exposure::Unknown
        &&& self.docker is None
        &&& self.collected_at >= 0
    }

    pub fn new(id: String, name: String, source: InventorySource, kind: InventoryKind) -> (item:
        Self)
        ensures
            item.fresh(id@, name@, source, kind),
    {
        InventoryItem {
            id,
            name,
            source,
            kind,
            status: RuntimeStatus::Unknown,
            image: None,
            package_name: None,
            package_version: None,
            binary_path: None,
            labels: BTreeMap::new(),
            endpoints: Vec::new(),
            exposure: Exposure::Unknown,
            docker: None,
            collected_at: current_time(),
        }
    }

    pub fn is_running(&self) -> (b: bool)
        ensures
            b == self.status.runs(),
    {
        matches!(self.status, RuntimeStatus::Running | RuntimeStatus::Active)
    }
}

#[derive(Debug, Clone, Copy, PartialEq, Eq, Structural)]
pub enum ScanTargetType {
    ContainerImage,
    HostFilesystem,
    Package,
}

impl ScanTargetType {
    /// The kind of scan an inventory kind calls for.
    pub open spec fn for_kind(kind: InventoryKind) -> ScanTargetType {
        match kind {
            InventoryKind::Container => ScanTargetType::ContainerImage,
            InventoryKind::Package => ScanTargetType::Package,
            _ => ScanTargetType::HostFilesystem,
        }
    }
}

#[derive(Debug, Clone, PartialEq, Eq)]
pub struct ScanTarget {
    pub id: String,
    pub inventory_item_id: String,
    pub name: String,
    pub target_type: ScanTargetType,
    pub reference: String,
    pub exposure: Exposure,
    pub docker: Option<DockerMetadata>,
}

impl ScanTarget {
    /// `self` and `other` hold the same values.
    pub open spec fn same_as(&self, other: &Self) -> bool {
        &&& self.id == other.id
        &&& self.inventory_item_id == other.inventory_item_id
        &&& self.name == other.name
        &&& self.target_type == other.target_type
        &&& self.reference == other.reference
        &&& self.exposure == other.exposure
        &&& same_docker(self.docker, other.docker)
    }

    pub fn duplicate(&self) -> (r: Self)
        ensures
            r.same_as(self),
    {
        ScanTarget {
            id: self.id.clone(),
            inventory_item_id: self.inventory_item_id.clone(),
            name: self.name.clone(),
            target_type: self.target_type,
            reference: self.reference.clone(),
            exposure: self.exposure,
            docker: duplicate_docker(&self.docker),
        }
    }

    /// `self` is a target derived from `item` that scans `reference`; its own
    /// id is a fresh one.
    pub open spec fn derived_from(&self, item: &InventoryItem, reference: Seq<char>) -> bool {
        &&& self.id@.len() == 36
        &&& self.inventory_item_id == item.id
        &&& self.name == item.name
        &&& self.target_type == ScanTargetType::for_kind(item.kind)
        &&& self.reference@ == reference
        &&& self.exposure == item.exposure
        &&& same_docker(self.docker, item.docker)
    }

    pub fn from_inventory(item: &InventoryItem, reference: String) -> (t: Self)
        ensures
            t.derived_from(item, reference@),
    {
        ScanTarget {
            id: new_id(),
            inventory_item_id: item.id.clone(),
            name: item.name.clone(),
            target_type: match item.kind {
                InventoryKind::Container => ScanTargetType::ContainerImage,
                InventoryKind::Package => ScanTargetType::Package,
                _ => ScanTargetType::HostFilesystem,
            },
            reference,
            exposure: item.exposure,
            docker: duplicate_docker(&item.docker),
        }
    }
}

#[derive(Debug, Clone, PartialEq, Eq)]
pub struct VulnerabilityFinding {
    pub id: String,
    pub scanner: String,
    pub target_id: String,
    pub inventory_item_id: String,
    pub vulnerability_id: String,
    pub package_name: Option<String>,
    pub installed_version: Option<String>,
    pub fixed_version: Option<String>,
    pub severity: Severity,
    /// The CVSS base score in tenths of a point (98 for 9.8).
    pub cvss_tenths: Option<u16>,
    pub fix_available: FixAvailability,
    pub description: Option<String>,
    pub references: Vec<String>,
    pub first_seen: Timestamp,
    pub last_seen: Timestamp,
}

impl VulnerabilityFinding {
    /// `self` and `other` agree on everything but the three identifiers that
    /// tie a finding to a scan target.
    pub open spec fn same_match(&self, other: &Self) -> bool {
        &&& self.scanner == other.scanner
        &&& self.vulnerability_id == other.vulnerability_id
        &&& self.package_name == other.package_name
        &&& self.installed_version == other.installed_version
        &&& self.fixed_version == other.fixed_version
        &&& self.severity == other.severity
        &&& self.cvss_tenths == other.cvss_tenths
        &&& self.fix_available == other.fix_available
        &&& self.description == other.description
        &&& self.references@ == other.references@
        &&& self.first_seen == other.first_seen
        &&& self.last_seen == other.last_seen
    }

    /// `self` and `other` hold the same values.
    pub open spec fn same_as(&self, other: &Self) -> bool {
        &&& self.same_match(other)
        &&& self.id == other.id
        &&& self.target_id == other.target_id
        &&& self.inventory_item_id == other.inventory_item_id
    }

    pub fn duplicate(&self) -> (r: Self)
        ensures
            r.same_as(self),
    {
        VulnerabilityFinding {
            id: self.id.clone(),
            scanner: self.scanner.clone(),
            target_id: self.target_id.clone(),
            inventory_item_id: self.inventory_item_id.clone(),
            vulnerability_id: self.vulnerability_id.clone(),
            package_name: clone_opt_string(&self.package_name),
            installed_version: clone_opt_string(&self.installed_version),
            fixed_version: clone_opt_string(&self.fixed_version),
            severity: self.severity,
            cvss_tenths: self.cvss_tenths,
            fix_available: self.fix_available,
            description: clone_opt_string(&self.description),
            references: clone_strings(&self.references),
            first_seen: self.first_seen,
            last_seen: self.last_seen,
        }
    }
}

#[derive(Debug, Clone, PartialEq, Eq)]
pub struct RiskEvaluation {
    pub id: String,
    pub finding_id: String,
    pub inventory_item_id: String,
    pub service_name: String,
    pub vulnerability_id: String,
    pub severity: Severity,
    pub risk: RiskLevel,
    pub exposure: Exposure,
    pub reason: String,
    pub recommended_action: Option<String>,
    pub evaluated_at: Timestamp,
}

/// A rule that keeps a vulnerability out of the runtime risks, for one
/// service or all of them, until it expires.
#[derive(Debug, Clone, PartialEq, Eq)]
pub struct IgnoredFinding {
    pub vulnerability_id: String,
    pub service: Option<String>,
    pub expires_at: Option<Timestamp>,
    pub reason: Option<String>,
}

impl IgnoredFinding {
    /// The rule covers `vulnerability_id` on `service` at time `now`.
    pub open spec fn covers(&self, vulnerability_id: Seq<char>, service: Seq<char>, now: int) -> bool {
        &&& self.vulnerability_id@ == vulnerability_id
        &&& (self.expires_at matches Some(t) ==> now < t)
        &&& (self.service matches Some(s) ==> s@ == service)
    }

    pub fn matches(&self, vulnerability_id: &str, service: &str, now: Timestamp) -> (b: bool)
        ensures
            b == self.covers(vulnerability_id@, service@, now as int),
    {
        if !str_eq(self.vulnerability_id.as_str(), vulnerability_id) {
            return false;
        }
        if let Some(expires_at) = self.expires_at {
            if expires_at <= now {
                return false;
            }
        }
        match &self.service {
            Some(expected) => str_eq(expected.as_str(), service),
            None => true,
        }
    }
}

#[derive(Debug, Clone, PartialEq, Eq)]
pub struct ScannerError {
    pub scanner: String,
    pub target: String,
    pub message: String,
}

#[derive(Debug, Clone, PartialEq, Eq)]
pub struct ScanRecord {
    pub id: String,
    pub host: String,
    pub started_at: Timestamp,
    pub completed_at: Option<Timestamp>,
    pub status: String,
    pub inventory_count: usize,
    pub finding_count: usize,
    pub scanner_errors: Vec<ScannerError>,
}

#[derive(Debug, Clone, Copy, PartialEq, Eq, Default, Structural)]
pub struct Summary {
    pub running_services: usize,
    pub running_containers: usize,
    pub listening_ports: usize,
    pub public_services: usize,
    pub critical_risks: usize,
    pub high_risks: usize,
    pub medium_risks: usize,
    pub low_risks: usize,
    pub informational_risks: usize,
    pub last_scan_time: Option<Timestamp>,
}

#[derive(Debug, Clone, PartialEq, Eq)]
pub struct ServiceSummary {
    pub name: String,
    pub source: InventorySource,
    pub status: RuntimeStatus,
    pub exposure: Exposure,
    pub highest_risk: Option<RiskLevel>,
    pub vulnerability_count: usize,
}

#[derive(Debug, Clone, PartialEq, Eq)]
pub struct VulnerabilitySummary {
    pub vulnerability_id: String,
    pub severity: Severity,
    pub runtime_risk: RiskLevel,
    pub affected_service: String,
    pub exposed: Exposure,
    pub fix_available: FixAvailability,
    pub first_seen: Timestamp,
    pub last_seen: Timestamp,
    pub package_name: Option<String>,
    pub installed_version: Option<String>,
    pub fixed_version: Option<String>,
}

#[derive(Debug, Clone, PartialEq, Eq)]
pub struct RemediationItem {
    pub service: String,
    pub highest_risk: RiskLevel,
    pub exposure: Exposure,
    pub vulnerability_count: usize,
    pub fixable_count: usize,
    pub critical_count: usize,
    pub high_count: usize,
    pub medium_count: usize,
    pub low_count: usize,
    pub informational_count: usize,
    pub top_vulnerabilities: Vec<String>,
    pub affected_packages: Vec<RemediationPackage>,
    pub first_seen: Timestamp,
    pub last_seen: Timestamp,
    pub recommended_action: String,
}

#[derive(Debug, Clone, PartialEq, Eq)]
pub struct RemediationPackage {
    pub package_name: String,
    pub installed_version: Option<String>,
    pub fixed_version: Option<String>,
    pub vulnerability_count: usize,
    pub fixable_count: usize,
    pub highest_risk: RiskLevel,
}

#[derive(Debug, Clone, PartialEq, Eq)]
pub struct ScanOutcome {
    pub scan: ScanRecord,
    pub summary: Summary,
}

#[derive(Debug, Clone, PartialEq, Eq)]
pub struct NotificationEvent {
    pub project: String,
    pub host: String,
    pub service: String,
    pub artifact: Option<String>,
    pub vulnerability_id: Option<String>,
    pub severity: Option<Severity>,
    pub runtime_risk: RiskLevel,
    pub exposure: Exposure,
    pub reason: String,
    pub recommended_action: Option<String>,
}

} // verus!
