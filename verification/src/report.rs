//! The text reports: the Markdown runtime security report of the latest scan
//! and the summary printed after a scan.
use vstd::prelude::*;

use crate::models::{RiskLevel, ScanOutcome, Summary, VulnerabilitySummary};
use crate::text::{decimal, decimal_chars, string_of, string_views};

verus! {

pub(crate) fn number(n: usize) -> (s: String)
    ensures
        s@ == decimal(n as nat),
{
    let cs = decimal_chars(n as u64);
    string_of(cs.as_slice())
}

fn labelled(label: &str, n: usize) -> (s: String)
    ensures
        s@ == label@ + decimal(n as nat),
{
    let mut s = String::from_str(label);
    let digits = number(n);
    s.append(digits.as_str());
    s
}

/// The counts of a summary, one line each, every line after `prefix`.
pub open spec fn count_lines(s: Summary, prefix: Seq<char>) -> Seq<Seq<char>> {
    seq![
        prefix + "Running containers: "@ + decimal(s.running_containers as nat),
        prefix + "Active services: "@ + decimal(s.running_services as nat),
        prefix + "Listening ports: "@ + decimal(s.listening_ports as nat),
        prefix + "Publicly bound inventory items: "@ + decimal(s.public_services as nat),
        prefix + "Critical runtime risks: "@ + decimal(s.critical_risks as nat),
        prefix + "High runtime risks: "@ + decimal(s.high_risks as nat),
        prefix + "Medium runtime risks: "@ + decimal(s.medium_risks as nat),
        prefix + "Low runtime risks: "@ + decimal(s.low_risks as nat),
        prefix + "Informational runtime risks: "@ + decimal(s.informational_risks as nat),
    ]
}

fn push_count(lines: &mut Vec<String>, prefix: &str, label: &str, n: usize)
    ensures
        final(lines)@.len() == old(lines)@.len() + 1,
        final(lines)@.take(old(lines)@.len() as int) == old(lines)@,
        final(lines)@.last()@ == prefix@ + label@ + decimal(n as nat),
{
    let mut s = String::from_str(prefix);
    s.append(label);
    let digits = number(n);
    s.append(digits.as_str());
    lines.push(s);
    assert(lines@.take(old(lines)@.len() as int) == old(lines)@);
}

fn push_counts(lines: &mut Vec<String>, s: &Summary, prefix: &str)
    ensures
        string_views(final(lines)@) == string_views(old(lines)@) + count_lines(*s, prefix@),
{
    let ghost start = lines@;
    push_count(lines, prefix, "Running containers: ", s.running_containers);
    push_count(lines, prefix, "Active services: ", s.running_services);
    push_count(lines, prefix, "Listening ports: ", s.listening_ports);
    push_count(lines, prefix, "Publicly bound inventory items: ", s.public_services);
    push_count(lines, prefix, "Critical runtime risks: ", s.critical_risks);
    push_count(lines, prefix, "High runtime risks: ", s.high_risks);
    push_count(lines, prefix, "Medium runtime risks: ", s.medium_risks);
    push_count(lines, prefix, "Low runtime risks: ", s.low_risks);
    push_count(lines, prefix, "Informational runtime risks: ", s.informational_risks);
    proof {
        let n = start.len() as int;
        assert(lines@.len() == n + 9);
        assert forall|i: int| 0 <= i < n implies lines@[i] == start[i] by {
            assert(lines@.take(n + 8).take(n + 7).take(n + 6).take(n + 5).take(n + 4).take(n + 3).take(
                n + 2,
            ).take(n + 1).take(n)[i] == lines@[i]);
        }
        assert(string_views(lines@) =~= string_views(start) + count_lines(*s, prefix@));
    }
}

/// The three groups of the report.
#[derive(Debug, Clone, Copy, PartialEq, Eq, Structural)]
pub enum ReportGroup {
    /// Critical runtime risks.
    Urgent,
    /// High runtime risks.
    Important,
    /// Everything below high.
    LowPriority,
}

/// Vulnerability `v` belongs in group `g`.
pub open spec fn in_group(v: VulnerabilitySummary, g: ReportGroup) -> bool {
    match g {
        ReportGroup::Urgent => v.runtime_risk.rank() == 5,
        ReportGroup::Important => v.runtime_risk.rank() == 4,
        ReportGroup::LowPriority => v.runtime_risk.rank() < 4,
    }
}

/// The report line of a vulnerability.
pub open spec fn vulnerability_line(v: VulnerabilitySummary) -> Seq<char> {
    "- **"@ + v.vulnerability_id@ + "** on `"@ + v.affected_service@ + "`: "@ + v.runtime_risk.label()
        + " risk, "@ + v.exposed.label() + " exposure, fix "@ + v.fix_available.label()
}

/// The lines of the vulnerabilities in group `g`, in order.
pub open spec fn group_entries(items: Seq<VulnerabilitySummary>, g: ReportGroup) -> Seq<Seq<char>>
    decreases items.len(),
{
    if items.len() == 0 {
        Seq::empty()
    } else {
        let rest = group_entries(items.drop_last(), g);
        if in_group(items.last(), g) {
            rest.push(vulnerability_line(items.last()))
        } else {
            rest
        }
    }
}

/// The report's groups split the vulnerabilities: each one is in exactly
/// one of urgent, important and low priority.
pub proof fn lemma_report_groups_partition(v: VulnerabilitySummary)
    ensures
        in_group(v, ReportGroup::Urgent) || in_group(v, ReportGroup::Important) || in_group(
            v,
            ReportGroup::LowPriority,
        ),
        !(in_group(v, ReportGroup::Urgent) && in_group(v, ReportGroup::Important)),
        !(in_group(v, ReportGroup::Urgent) && in_group(v, ReportGroup::LowPriority)),
        !(in_group(v, ReportGroup::Important) && in_group(v, ReportGroup::LowPriority)),
{
}

/// Which group each runtime risk goes to: critical risks are urgent, high
/// risks important, and medium, low and informational risks low priority.
/// A vulnerability joins a group's lines exactly when its risk is one of
/// that group's levels.
pub proof fn lemma_report_groups_by_level(
    items: Seq<VulnerabilitySummary>,
    v: VulnerabilitySummary,
    g: ReportGroup,
)
    ensures
        in_group(v, ReportGroup::Urgent) <==> v.runtime_risk == RiskLevel::Critical,
        in_group(v, ReportGroup::Important) <==> v.runtime_risk == RiskLevel::High,
        in_group(v, ReportGroup::LowPriority) <==> (v.runtime_risk == RiskLevel::Medium
            || v.runtime_risk == RiskLevel::Low || v.runtime_risk == RiskLevel::Informational),
        group_entries(Seq::<VulnerabilitySummary>::empty(), g).len() == 0,
        group_entries(items.push(v), g) == if (g == ReportGroup::Urgent && v.runtime_risk
            == RiskLevel::Critical) || (g == ReportGroup::Important && v.runtime_risk
            == RiskLevel::High) || (g == ReportGroup::LowPriority && v.runtime_risk
            != RiskLevel::Critical && v.runtime_risk != RiskLevel::High) {
            group_entries(items, g).push(vulnerability_line(v))
        } else {
            group_entries(items, g)
        },
{
    assert(items.push(v).drop_last() =~= items);
}

/// A group's section: its vulnerabilities, or `- None`.
pub open spec fn group_lines(items: Seq<VulnerabilitySummary>, g: ReportGroup) -> Seq<Seq<char>> {
    let entries = group_entries(items, g);
    if entries.len() == 0 {
        seq!["- None"@]
    } else {
        entries
    }
}

fn line_for(v: &VulnerabilitySummary) -> (s: String)
    ensures
        s@ == vulnerability_line(*v),
{
    let mut s = String::from_str("- **");
    s.append(v.vulnerability_id.as_str());
    s.append("** on `");
    s.append(v.affected_service.as_str());
    s.append("`: ");
    s.append(v.runtime_risk.as_str());
    s.append(" risk, ");
    s.append(v.exposed.as_str());
    s.append(" exposure, fix ");
    s.append(v.fix_available.as_str());
    s
}

/// The lines of a report group.
pub fn report_group_lines(items: &[VulnerabilitySummary], group: ReportGroup) -> (lines: Vec<String>)
    ensures
        string_views(lines@) == group_lines(items@, group),
{
    let mut lines: Vec<String> = Vec::new();
    let mut i: usize = 0;
    while i < items.len()
        invariant
            i <= items@.len(),
            string_views(lines@) == group_entries(items@.take(i as int), group),
        decreases items@.len() - i,
    {
        let v = &items[i];
        let ghost before = lines@;
        proof {
            assert(items@.take(i + 1).drop_last() == items@.take(i as int));
            assert(items@.take(i + 1).last() == items@[i as int]);
        }
        let wanted = match group {
            ReportGroup::Urgent => v.runtime_risk.score() == 5,
            ReportGroup::Important => v.runtime_risk.score() == 4,
            ReportGroup::LowPriority => v.runtime_risk.score() < 4,
        };
        if wanted {
            lines.push(line_for(v));
            assert(string_views(lines@) =~= string_views(before).push(vulnerability_line(*v)));
        }
        i = i + 1;
    }
    assert(items@.take(items@.len() as int) == items@);
    if lines.len() == 0 {
        let mut none: Vec<String> = Vec::new();
        none.push(String::from_str("- None"));
        assert(string_views(none@) =~= seq!["- None"@]);
        none
    } else {
        lines
    }
}

/// The report when no scan has been stored yet.
pub open spec fn empty_report() -> Seq<Seq<char>> {
    seq!["# Norn Runtime Security Report"@, ""@, "No scans have been stored yet."@]
}

/// The runtime security report of the latest scan, one line each: its host
/// and time, the summary's counts, and the vulnerabilities in three groups:
/// urgent (critical), important (high) and low priority (the rest).
pub open spec fn report(
    host: Seq<char>,
    generated_at: Seq<char>,
    summary: Summary,
    vulnerabilities: Seq<VulnerabilitySummary>,
) -> Seq<Seq<char>> {
    seq![
        "# Norn Runtime Security Report"@,
        ""@,
        "Generated at: "@ + generated_at,
        "Host: "@ + host,
        ""@,
        "## Summary"@,
        ""@,
    ] + count_lines(summary, "- "@) + seq![""@, "## Urgent"@] + group_lines(
        vulnerabilities,
        ReportGroup::Urgent,
    ) + seq![""@, "## Important"@] + group_lines(vulnerabilities, ReportGroup::Important) + seq![
        ""@,
        "## Low priority"@,
    ] + group_lines(vulnerabilities, ReportGroup::LowPriority)
}

fn push_line(lines: &mut Vec<String>, line: String)
    ensures
        string_views(final(lines)@) == string_views(old(lines)@).push(line@),
{
    lines.push(line);
    assert(string_views(lines@) =~= string_views(old(lines)@).push(line@));
}

fn push_lines(lines: &mut Vec<String>, more: Vec<String>)
    ensures
        string_views(final(lines)@) == string_views(old(lines)@) + string_views(more@),
{
    let mut more = more;
    let ghost added = more@;
    lines.append(&mut more);
    assert(string_views(lines@) =~= string_views(old(lines)@) + string_views(added));
}

pub fn empty_report_lines() -> (lines: Vec<String>)
    ensures
        string_views(lines@) == empty_report(),
{
    let mut lines: Vec<String> = Vec::new();
    push_line(&mut lines, String::from_str("# Norn Runtime Security Report"));
    push_line(&mut lines, String::new());
    push_line(&mut lines, String::from_str("No scans have been stored yet."));
    proof {
        reveal_strlit("");
        assert(string_views(lines@).len() == 3);
        assert(string_views(lines@)[1] == Seq::<char>::empty());
        assert(""@ == Seq::<char>::empty());
        assert(string_views(lines@)[0] == "# Norn Runtime Security Report"@);
        assert(string_views(lines@)[2] == "No scans have been stored yet."@);
    }
    assert(string_views(lines@) =~= empty_report());
    lines
}

/// The lines of the report on `host`, generated at `generated_at`.
pub fn report_lines(
    host: &str,
    generated_at: &str,
    summary: &Summary,
    vulnerabilities: &[VulnerabilitySummary],
) -> (lines: Vec<String>)
    ensures
        string_views(lines@) == report(host@, generated_at@, *summary, vulnerabilities@),
{
    let mut lines: Vec<String> = Vec::new();
    push_line(&mut lines, String::from_str("# Norn Runtime Security Report"));
    push_line(&mut lines, String::new());
    let mut generated = String::from_str("Generated at: ");
    generated.append(generated_at);
    push_line(&mut lines, generated);
    let mut host_line = String::from_str("Host: ");
    host_line.append(host);
    push_line(&mut lines, host_line);
    push_line(&mut lines, String::new());
    push_line(&mut lines, String::from_str("## Summary"));
    push_line(&mut lines, String::new());
    let ghost head = string_views(lines@);
    push_counts(&mut lines, summary, "- ");
    let ghost counted = string_views(lines@);
    push_line(&mut lines, String::new());
    push_line(&mut lines, String::from_str("## Urgent"));
    push_lines(&mut lines, report_group_lines(vulnerabilities, ReportGroup::Urgent));
    let ghost urgent = string_views(lines@);
    push_line(&mut lines, String::new());
    push_line(&mut lines, String::from_str("## Important"));
    push_lines(&mut lines, report_group_lines(vulnerabilities, ReportGroup::Important));
    let ghost important = string_views(lines@);
    push_line(&mut lines, String::new());
    push_line(&mut lines, String::from_str("## Low priority"));
    push_lines(&mut lines, report_group_lines(vulnerabilities, ReportGroup::LowPriority));
    proof {
        reveal_strlit("- ");
        reveal_strlit("");
        assert(head.len() == 7);
        assert(head[0] == "# Norn Runtime Security Report"@);
        assert(head[1] == Seq::<char>::empty());
        assert(head[2] == "Generated at: "@ + generated_at@);
        assert(head[3] == "Host: "@ + host@);
        assert(head[4] == Seq::<char>::empty());
        assert(head[5] == "## Summary"@);
        assert(head[6] == Seq::<char>::empty());
        assert(""@ == Seq::<char>::empty());
        assert(head =~= seq![
            "# Norn Runtime Security Report"@,
            ""@,
            "Generated at: "@ + generated_at@,
            "Host: "@ + host@,
            ""@,
            "## Summary"@,
            ""@,
        ]);
        assert(string_views(lines@) =~= report(host@, generated_at@, *summary, vulnerabilities@));
    }
    lines
}

/// The summary printed after a scan: its host, the counts, and the number of
/// collector and scanner errors when there were any.
pub open spec fn scan_summary(outcome: ScanOutcome) -> Seq<Seq<char>> {
    let errors = outcome.scan.scanner_errors@.len();
    seq!["Scan summary"@, "Host: "@ + outcome.scan.host@] + count_lines(outcome.summary, ""@) + if errors
        == 0 {
        Seq::empty()
    } else {
        seq!["Scanner/collector errors: "@ + decimal(errors)]
    }
}

pub fn scan_summary_lines(outcome: &ScanOutcome) -> (lines: Vec<String>)
    ensures
        string_views(lines@) == scan_summary(*outcome),
{
    let mut lines: Vec<String> = Vec::new();
    push_line(&mut lines, String::from_str("Scan summary"));
    let mut host_line = String::from_str("Host: ");
    host_line.append(outcome.scan.host.as_str());
    push_line(&mut lines, host_line);
    let ghost head = string_views(lines@);
    push_counts(&mut lines, &outcome.summary, "");
    let errors = outcome.scan.scanner_errors.len();
    if errors > 0 {
        push_line(&mut lines, labelled("Scanner/collector errors: ", errors));
    }
    proof {
        reveal_strlit("");
        assert(head =~= seq!["Scan summary"@, "Host: "@ + outcome.scan.host@]);
        assert(string_views(lines@) =~= scan_summary(*outcome));
    }
    lines
}

} // verus!
