//! Grype's scan report, turned into vulnerability findings for a target.
use vstd::prelude::*;

use crate::models::{
    clone_strings, FixAvailability, ScanTarget, Severity, VulnerabilityFinding,
};
use crate::config::GrypeConfig;
use crate::runtime::current_time;
use crate::text::{
    chars_of, clone_opt_string, concat2, concat3, decimal, decimal_chars, is_text, opt_view,
    string_of, trim, trim_chars,
};

verus! {

/// Runs Grype on scan targets; a fixture file of Grype output, when set, is
/// read in place of running the binary.
#[derive(Debug, Clone)]
pub struct GrypeScanner {
    binary: String,
    timeout_seconds: u64,
    fixture_path: Option<String>,
}

impl GrypeScanner {
    /// The Grype binary that is run.
    pub closed spec fn program(&self) -> String {
        self.binary
    }

    /// The time a scan may take, in seconds.
    pub closed spec fn time_limit(&self) -> u64 {
        self.timeout_seconds
    }

    /// The fixture file the scanner reads, if any.
    pub closed spec fn fixture(&self) -> Option<String> {
        self.fixture_path
    }

    pub fn new(binary: String, timeout_seconds: u64) -> (s: Self)
        ensures
            s.program() == binary,
            s.time_limit() == timeout_seconds,
            s.fixture() is None,
    {
        GrypeScanner { binary, timeout_seconds, fixture_path: None }
    }

    pub fn with_fixture(binary: String, timeout_seconds: u64, fixture_path: String) -> (s: Self)
        ensures
            s.program() == binary,
            s.time_limit() == timeout_seconds,
            s.fixture() == Some(fixture_path),
    {
        GrypeScanner { binary, timeout_seconds, fixture_path: Some(fixture_path) }
    }

    pub fn binary(&self) -> (b: &String)
        ensures
            *b == self.program(),
    {
        &self.binary
    }

    pub fn timeout_seconds(&self) -> (t: u64)
        ensures
            t == self.time_limit(),
    {
        self.timeout_seconds
    }

    pub fn fixture_path(&self) -> (p: &Option<String>)
        ensures
            *p == self.fixture(),
    {
        &self.fixture_path
    }

    /// The scanner's name in findings and errors.
    pub fn name(&self) -> (s: &'static str)
        ensures
            s@ == "grype"@,
    {
        "grype"
    }

    /// The arguments Grype runs with on a target: JSON output for the
    /// target's reference.
    pub fn command_args(&self, target: &ScanTarget) -> (args: Vec<String>)
        ensures
            args@.len() == 3,
            args@[0]@ == "-o"@,
            args@[1]@ == "json"@,
            args@[2] == target.reference,
    {
        let mut args: Vec<String> = Vec::new();
        args.push(String::from_str("-o"));
        args.push(String::from_str("json"));
        args.push(target.reference.clone());
        args
    }

    /// The error of a scan that ran out of time.
    pub fn timeout_message(&self) -> (m: String)
        ensures
            m@ == "Grype scan timed out after "@ + decimal(self.time_limit() as nat) + "s"@,
    {
        let digits = decimal_chars(self.timeout_seconds);
        let seconds = string_of(digits.as_slice());
        concat3("Grype scan timed out after ", seconds.as_str(), "s")
    }

    /// The error of a scan whose binary could not be started: a missing
    /// binary is named with what to do about it.
    pub fn launch_error_message(&self, not_found: bool, error: &str) -> (m: String)
        ensures
            m@ == if not_found {
                "Grype binary '"@ + self.program()@
                    + "' was not found; install Grype or set scanner.grype.binary"@
            } else {
                "failed to execute Grype: "@ + error@
            },
    {
        if not_found {
            concat3(
                "Grype binary '",
                self.binary.as_str(),
                "' was not found; install Grype or set scanner.grype.binary",
            )
        } else {
            concat2("failed to execute Grype: ", error)
        }
    }

    /// The error of a scan whose Grype run failed with `status`, with the
    /// trimmed standard error.
    pub fn exit_message(&self, status: &str, stderr: &str) -> (m: String)
        ensures
            m@ == "Grype exited with "@ + status@ + ": "@ + trim(stderr@),
    {
        let head = concat3("Grype exited with ", status, ": ");
        let err = chars_of(stderr);
        let trimmed = trim_chars(err.as_slice());
        let tail = string_of(trimmed.as_slice());
        concat2(head.as_str(), tail.as_str())
    }
}

/// A Grype report: its list of matches.
#[derive(Debug, Clone, PartialEq, Eq)]
pub struct GrypeDocument {
    pub matches: Vec<GrypeMatch>,
}

/// One vulnerability matched against one artifact.
#[derive(Debug, Clone, PartialEq, Eq)]
pub struct GrypeMatch {
    pub vulnerability: GrypeVulnerability,
    pub artifact: GrypeArtifact,
}

#[derive(Debug, Clone, PartialEq, Eq)]
pub struct GrypeVulnerability {
    pub id: String,
    pub severity: String,
    pub description: Option<String>,
    pub fix: Option<GrypeFix>,
    pub urls: Option<Vec<String>>,
    pub cvss: Option<Vec<GrypeCvss>>,
}

#[derive(Debug, Clone, PartialEq, Eq)]
pub struct GrypeFix {
    pub versions: Vec<String>,
    pub state: Option<String>,
}

#[derive(Debug, Clone, PartialEq, Eq)]
pub struct GrypeCvss {
    pub metrics: GrypeCvssMetrics,
}

#[derive(Debug, Clone, PartialEq, Eq)]
pub struct GrypeCvssMetrics {
    /// The base score in tenths of a point.
    pub base_score_tenths: Option<u16>,
}

#[derive(Debug, Clone, PartialEq, Eq)]
pub struct GrypeArtifact {
    pub name: String,
    pub version: String,
}

/// Whether a fix is known: fixed versions or a `fixed` state mean yes, a fix
/// record without either means no, and no fix record means unknown.
pub open spec fn fix_status(fix: Option<GrypeFix>) -> FixAvailability {
    match fix {
        Some(f) => if f.versions@.len() > 0 || opt_view(f.state) == Some("fixed"@) {
            FixAvailability::Available
        } else {
            FixAvailability::NotAvailable
        },
        None => FixAvailability::Unknown,
    }
}

pub fn fix_availability(fix: &Option<GrypeFix>) -> (r: FixAvailability)
    ensures
        r == fix_status(*fix),
{
    match fix {
        Some(f) => {
            if f.versions.len() > 0 {
                FixAvailability::Available
            } else {
                let fixed = match &f.state {
                    Some(state) => {
                        let chars = chars_of(state.as_str());
                        is_text(chars.as_slice(), "fixed")
                    },
                    None => false,
                };
                if fixed {
                    FixAvailability::Available
                } else {
                    FixAvailability::NotAvailable
                }
            }
        },
        None => FixAvailability::Unknown,
    }
}

/// The first fixed version a fix record lists.
pub open spec fn first_fixed_version(fix: Option<GrypeFix>) -> Option<String> {
    match fix {
        Some(f) => if f.versions@.len() > 0 {
            Some(f.versions@[0])
        } else {
            None
        },
        None => None,
    }
}

/// The base score of the first CVSS record, in tenths.
pub open spec fn first_cvss(cvss: Option<Vec<GrypeCvss>>) -> Option<u16> {
    match cvss {
        Some(scores) => if scores@.len() > 0 {
            scores@[0].metrics.base_score_tenths
        } else {
            None
        },
        None => None,
    }
}

/// `f` is the finding that match `m` makes on `target`, seen at `now`.
pub open spec fn finding_from_match(
    f: VulnerabilityFinding,
    m: GrypeMatch,
    target: ScanTarget,
    now: int,
) -> bool {
    let v = m.vulnerability;
    &&& f.id@ == target.id@ + ":"@ + v.id@ + ":"@ + m.artifact.name@
    &&& f.scanner@ == "grype"@
    &&& f.target_id == target.id
    &&& f.inventory_item_id == target.inventory_item_id
    &&& f.vulnerability_id == v.id
    &&& f.package_name == Some(m.artifact.name)
    &&& f.installed_version == Some(m.artifact.version)
    &&& f.fixed_version == first_fixed_version(v.fix)
    &&& f.severity == Severity::from_text(v.severity@)
    &&& f.cvss_tenths == first_cvss(v.cvss)
    &&& f.fix_available == fix_status(v.fix)
    &&& f.description == v.description
    &&& f.references@ == match v.urls {
        Some(u) => u@,
        None => Seq::<String>::empty(),
    }
    &&& f.first_seen == now
    &&& f.last_seen == now
}

fn finding_for_match(m: &GrypeMatch, target: &ScanTarget, now: i64) -> (f: VulnerabilityFinding)
    ensures
        finding_from_match(f, *m, *target, now as int),
{
    let v = &m.vulnerability;
    let mut id = target.id.clone();
    id.append(":");
    id.append(v.id.as_str());
    id.append(":");
    id.append(m.artifact.name.as_str());
    let fixed_version = match &v.fix {
        Some(fix) => if fix.versions.len() > 0 {
            Some(fix.versions[0].clone())
        } else {
            None
        },
        None => None,
    };
    let cvss_tenths = match &v.cvss {
        Some(scores) => if scores.len() > 0 {
            scores[0].metrics.base_score_tenths
        } else {
            None
        },
        None => None,
    };
    let references = match &v.urls {
        Some(urls) => clone_strings(urls),
        None => Vec::new(),
    };
    VulnerabilityFinding {
        id,
        scanner: String::from_str("grype"),
        target_id: target.id.clone(),
        inventory_item_id: target.inventory_item_id.clone(),
        vulnerability_id: v.id.clone(),
        package_name: Some(m.artifact.name.clone()),
        installed_version: Some(m.artifact.version.clone()),
        fixed_version,
        severity: Severity::from_grype(v.severity.as_str()),
        cvss_tenths,
        fix_available: fix_availability(&v.fix),
        description: clone_opt_string(&v.description),
        references,
        first_seen: now,
        last_seen: now,
    }
}

/// The findings of a Grype report on `target`: one per match, in order, all
/// seen at the same moment.
pub fn parse_grype_json(document: &GrypeDocument, target: &ScanTarget) -> (out: Vec<
    VulnerabilityFinding,
>)
    ensures
        out@.len() == document.matches@.len(),
        forall|k: int|
            0 <= k < out@.len() ==> #[trigger] finding_from_match(
                out@[k],
                document.matches@[k],
                *target,
                out@[0].first_seen as int,
            ),
        forall|k: int| 0 <= k < out@.len() ==> #[trigger] out@[k].first_seen >= 0,
{
    let now = current_time();
    let mut out: Vec<VulnerabilityFinding> = Vec::new();
    let mut i: usize = 0;
    while i < document.matches.len()
        invariant
            i <= document.matches@.len(),
            now >= 0,
            out@.len() == i,
            forall|k: int|
                0 <= k < i ==> #[trigger] finding_from_match(
                    out@[k],
                    document.matches@[k],
                    *target,
                    now as int,
                ),
        decreases document.matches@.len() - i,
    {
        out.push(finding_for_match(&document.matches[i], target, now));
        i = i + 1;
    }
    proof {
        if out@.len() > 0 {
            assert(finding_from_match(out@[0], document.matches@[0], *target, now as int));
        }
        assert forall|k: int| 0 <= k < out@.len() implies #[trigger] out@[k].first_seen >= 0 by {
            assert(finding_from_match(out@[k], document.matches@[k], *target, now as int));
        }
    }
    out
}


/// The Grype scanner a configuration turns on, if any.
pub fn scanner_for(config: &GrypeConfig) -> (s: Option<GrypeScanner>)
    ensures
        s is Some <==> config.enabled,
        s matches Some(g) ==> g.program() == config.binary && g.time_limit()
            == config.timeout_seconds && g.fixture() == config.fixture_path,
{
    if !config.enabled {
        return None;
    }
    match &config.fixture_path {
        Some(path) => Some(
            GrypeScanner::with_fixture(config.binary.clone(), config.timeout_seconds, path.clone()),
        ),
        None => Some(GrypeScanner::new(config.binary.clone(), config.timeout_seconds)),
    }
}

} // verus!
