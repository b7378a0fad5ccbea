//! Runtime risk: a finding's severity weighed by how exposed the service that
//! runs it is and how the container holding it is configured.
use vstd::prelude::*;

use crate::models::{
    DockerMetadata, Exposure, FixAvailability, InventoryItem, RiskEvaluation, RiskLevel, Severity,
    VulnerabilityFinding,
};
use crate::runtime::{current_time, new_id};
use crate::text::{contains, find_from, join, join_strings, occurs_at, string_views};

verus! {

/// The risk before container configuration is taken into account.
pub open spec fn base_level(severity: Severity, exposure: Exposure) -> RiskLevel {
    if exposure == Exposure::Public {
        match severity {
            Severity::Critical => RiskLevel::Critical,
            Severity::High => RiskLevel::High,
            Severity::Medium => RiskLevel::Medium,
            Severity::Low => RiskLevel::Low,
            _ => RiskLevel::Informational,
        }
    } else {
        match severity {
            Severity::Critical => RiskLevel::High,
            Severity::High => RiskLevel::Medium,
            Severity::Medium => RiskLevel::Medium,
            Severity::Low => RiskLevel::Low,
            _ => RiskLevel::Informational,
        }
    }
}

pub fn base_risk(severity: Severity, exposure: Exposure) -> (r: RiskLevel)
    ensures
        r == base_level(severity, exposure),
{
    match (severity, exposure) {
        (Severity::Critical, Exposure::Public) => RiskLevel::Critical,
        (Severity::High, Exposure::Public) => RiskLevel::High,
        (Severity::Medium, Exposure::Public) => RiskLevel::Medium,
        (Severity::Low, Exposure::Public) => RiskLevel::Low,
        (Severity::Critical, Exposure::Internal | Exposure::Localhost | Exposure::Unknown) => {
            RiskLevel::High
        },
        (Severity::High, Exposure::Internal | Exposure::Localhost | Exposure::Unknown) => {
            RiskLevel::Medium
        },
        (Severity::Medium, Exposure::Internal | Exposure::Localhost | Exposure::Unknown) => {
            RiskLevel::Medium
        },
        (Severity::Low, Exposure::Internal | Exposure::Localhost | Exposure::Unknown) => {
            RiskLevel::Low
        },
        _ => RiskLevel::Informational,
    }
}

/// Whether the container runs privileged.
pub open spec fn is_privileged(docker: Option<DockerMetadata>) -> bool {
    docker matches Some(d) && d.privileged
}

/// Whether the container mounts the Docker socket.
pub open spec fn mounts_socket(docker: Option<DockerMetadata>) -> bool {
    docker matches Some(d) && d.docker_socket_mounted
}

/// The runtime risk: the base risk, raised one level for a privileged
/// container and one more for a container that mounts the Docker socket.
pub open spec fn runtime_level(
    severity: Severity,
    exposure: Exposure,
    docker: Option<DockerMetadata>,
) -> RiskLevel {
    let base = base_level(severity, exposure);
    let after_privileged = if is_privileged(docker) {
        base.raised()
    } else {
        base
    };
    if mounts_socket(docker) {
        after_privileged.raised()
    } else {
        after_privileged
    }
}

/// The text that recommends what to do about a risk.
pub open spec fn action_text(fix_available: FixAvailability, risk: RiskLevel) -> Option<Seq<char>> {
    let urgent = risk == RiskLevel::Critical || risk == RiskLevel::High;
    match fix_available {
        FixAvailability::Available => if urgent {
            Some("Patch or redeploy the affected service as soon as possible."@)
        } else {
            Some("Plan an update for the affected package or image."@)
        },
        FixAvailability::NotAvailable => if urgent {
            Some(
                "No fix is known; reduce exposure, add compensating controls, or replace the component."@,
            )
        } else {
            None
        },
        FixAvailability::Unknown => None,
    }
}

/// An optional string that holds the optional text `t`.
pub open spec fn holds_text(s: Option<String>, t: Option<Seq<char>>) -> bool {
    match (s, t) {
        (Some(x), Some(y)) => x@ == y,
        (None, None) => true,
        _ => false,
    }
}

pub fn recommended_action(fix_available: FixAvailability, risk: RiskLevel) -> (r: Option<String>)
    ensures
        holds_text(r, action_text(fix_available, risk)),
{
    match (fix_available, risk) {
        (FixAvailability::Available, RiskLevel::Critical | RiskLevel::High) => {
            Some(String::from_str("Patch or redeploy the affected service as soon as possible."))
        },
        (FixAvailability::Available, _) => {
            Some(String::from_str("Plan an update for the affected package or image."))
        },
        (FixAvailability::NotAvailable, RiskLevel::Critical | RiskLevel::High) => Some(
            String::from_str(
                "No fix is known; reduce exposure, add compensating controls, or replace the component.",
            ),
        ),
        _ => None,
    }
}

/// The sentences that explain a runtime risk, in order.
pub open spec fn reason_parts(
    severity: Severity,
    exposure: Exposure,
    docker: Option<DockerMetadata>,
) -> Seq<Seq<char>> {
    let first = severity.label() + " vulnerability on "@ + exposure.label() + " service"@;
    let unknown: Seq<Seq<char>> = if exposure == Exposure::Unknown {
        seq!["Unknown exposure; finding is retained for review"@]
    } else {
        seq![]
    };
    let privileged: Seq<Seq<char>> = if is_privileged(docker) {
        seq!["Container is running privileged"@]
    } else {
        seq![]
    };
    let socket: Seq<Seq<char>> = if mounts_socket(docker) {
        seq!["Container mounts the Docker socket"@]
    } else {
        seq![]
    };
    seq![first] + unknown + privileged + socket
}

/// `r` is the evaluation of `finding` on `item`, under a fresh id.
pub open spec fn evaluates(
    r: RiskEvaluation,
    finding: VulnerabilityFinding,
    item: InventoryItem,
) -> bool {
    let risk = runtime_level(finding.severity, item.exposure, item.docker);
    &&& r.id@.len() == 36
    &&& r.finding_id == finding.id
    &&& r.inventory_item_id == item.id
    &&& r.service_name == item.name
    &&& r.vulnerability_id == finding.vulnerability_id
    &&& r.severity == finding.severity
    &&& r.risk == risk
    &&& r.exposure == item.exposure
    &&& r.reason@ == join(reason_parts(finding.severity, item.exposure, item.docker), "; "@)
    &&& holds_text(r.recommended_action, action_text(finding.fix_available, risk))
    &&& r.evaluated_at >= 0
}

pub fn evaluate_finding(finding: &VulnerabilityFinding, inventory_item: &InventoryItem) -> (r:
    RiskEvaluation)
    ensures
        evaluates(r, *finding, *inventory_item),
{
    let mut risk = base_risk(finding.severity, inventory_item.exposure);
    let mut first = String::from_str(finding.severity.as_str());
    first.append(" vulnerability on ");
    first.append(inventory_item.exposure.as_str());
    first.append(" service");
    let mut reasons: Vec<String> = Vec::new();
    reasons.push(first);
    if matches!(inventory_item.exposure, Exposure::Unknown) {
        reasons.push(String::from_str("Unknown exposure; finding is retained for review"));
    }
    if let Some(docker) = &inventory_item.docker {
        if docker.privileged {
            risk = risk.raised_one();
            reasons.push(String::from_str("Container is running privileged"));
        }
        if docker.docker_socket_mounted {
            risk = risk.raised_one();
            reasons.push(String::from_str("Container mounts the Docker socket"));
        }
    }
    assert(string_views(reasons@) == reason_parts(
        finding.severity,
        inventory_item.exposure,
        inventory_item.docker,
    ));
    let recommended_action = recommended_action(finding.fix_available, risk);
    RiskEvaluation {
        id: new_id(),
        finding_id: finding.id.clone(),
        inventory_item_id: inventory_item.id.clone(),
        service_name: inventory_item.name.clone(),
        vulnerability_id: finding.vulnerability_id.clone(),
        severity: finding.severity,
        risk,
        exposure: inventory_item.exposure,
        reason: join_strings(&reasons, "; "),
        recommended_action,
        evaluated_at: current_time(),
    }
}


/// The exposure rules for a service outside a privileged or socket-mounting
/// container: a critical finding on a public service is a critical risk, a
/// high one a high risk; a critical finding on an internal or localhost
/// service is a high risk, a high one a medium risk; medium and low findings
/// off public services stay medium and low.
pub proof fn lemma_exposure_rules(r: RiskEvaluation, finding: VulnerabilityFinding, item: InventoryItem)
    requires
        evaluates(r, finding, item),
        !is_privileged(item.docker),
        !mounts_socket(item.docker),
    ensures
        finding.severity == Severity::Critical && item.exposure == Exposure::Public ==> r.risk
            == RiskLevel::Critical,
        finding.severity == Severity::High && item.exposure == Exposure::Public ==> r.risk
            == RiskLevel::High,
        finding.severity == Severity::Critical && item.exposure != Exposure::Public ==> r.risk
            == RiskLevel::High,
        finding.severity == Severity::High && item.exposure != Exposure::Public ==> r.risk
            == RiskLevel::Medium,
        finding.severity == Severity::Medium && item.exposure != Exposure::Public ==> r.risk
            == RiskLevel::Medium,
        finding.severity == Severity::Low && item.exposure != Exposure::Public ==> r.risk
            == RiskLevel::Low,
        finding.severity == Severity::Medium && item.exposure == Exposure::Public ==> r.risk
            == RiskLevel::Medium,
        finding.severity == Severity::Low && item.exposure == Exposure::Public ==> r.risk
            == RiskLevel::Low,
        finding.severity == Severity::Negligible ==> r.risk == RiskLevel::Informational,
        finding.severity == Severity::Unknown ==> r.risk == RiskLevel::Informational,
{
}

/// On a public service a finding's risk has the name of its severity:
/// critical, high, medium and low findings are critical, high, medium and low
/// risks. Elsewhere the risk is one level below for critical and high
/// findings and the same for medium and low ones.
pub proof fn lemma_public_risk_named_by_severity(severity: Severity, exposure: Exposure)
    requires
        severity != Severity::Negligible,
        severity != Severity::Unknown,
    ensures
        exposure == Exposure::Public ==> base_level(severity, exposure).label()
            == severity.label(),
        exposure == Exposure::Public ==> base_level(severity, exposure).rank() + severity_place(
            severity,
        ) == 6,
        exposure != Exposure::Public && (severity == Severity::Critical || severity
            == Severity::High) ==> base_level(severity, exposure).rank() + severity_place(severity)
            == 5,
        exposure != Exposure::Public && (severity == Severity::Medium || severity
            == Severity::Low) ==> base_level(severity, exposure).rank() + severity_place(severity)
            == 6,
{
    reveal_strlit("Critical");
    reveal_strlit("High");
    reveal_strlit("Medium");
    reveal_strlit("Low");
}

/// The place of a severity from the most severe: critical 1, high 2,
/// medium 3, low 4, and below that 5.
pub open spec fn severity_place(severity: Severity) -> int {
    match severity {
        Severity::Critical => 1,
        Severity::High => 2,
        Severity::Medium => 3,
        Severity::Low => 4,
        _ => 5,
    }
}

/// Raising a risk one level: informational becomes low, low medium, medium
/// high, high critical, and critical stays critical.
pub proof fn lemma_raised_levels(level: RiskLevel)
    ensures
        level == RiskLevel::Informational ==> level.raised() == RiskLevel::Low,
        level == RiskLevel::Low ==> level.raised() == RiskLevel::Medium,
        level == RiskLevel::Medium ==> level.raised() == RiskLevel::High,
        level == RiskLevel::High ==> level.raised() == RiskLevel::Critical,
        level == RiskLevel::Critical ==> level.raised() == RiskLevel::Critical,
{
}

/// A critical finding on a public service is a critical risk, whatever the
/// container's configuration.
pub proof fn lemma_public_critical_is_critical(
    r: RiskEvaluation,
    finding: VulnerabilityFinding,
    item: InventoryItem,
)
    requires
        evaluates(r, finding, item),
        finding.severity == Severity::Critical,
        item.exposure == Exposure::Public,
    ensures
        r.risk == RiskLevel::Critical,
{
}

/// A privileged container raises the risk one level, and a container that
/// mounts the Docker socket one more, up to critical.
pub proof fn lemma_container_raises_risk(r: RiskEvaluation, finding: VulnerabilityFinding, item: InventoryItem)
    requires
        evaluates(r, finding, item),
    ensures
        r.risk.rank() == vstd::math::min(
            5,
            base_level(finding.severity, item.exposure).rank() + (if is_privileged(item.docker) {
                1int
            } else {
                0int
            }) + (if mounts_socket(item.docker) {
                1int
            } else {
                0int
            }),
        ),
{
}

/// Whether a fix is available changes only the recommended action: two
/// findings that differ in nothing else get the same risk and reason.
pub proof fn lemma_fix_changes_only_action(
    r1: RiskEvaluation,
    f1: VulnerabilityFinding,
    r2: RiskEvaluation,
    f2: VulnerabilityFinding,
    item: InventoryItem,
)
    requires
        evaluates(r1, f1, item),
        evaluates(r2, f2, item),
        f1.severity == f2.severity,
        f1.vulnerability_id == f2.vulnerability_id,
    ensures
        r1.risk == r2.risk,
        r1.reason@ == r2.reason@,
        r1.vulnerability_id == r2.vulnerability_id,
        r1.exposure == r2.exposure,
{
}

/// A finding on a service of unknown exposure is kept and marked for review.
pub proof fn lemma_unknown_exposure_marked(r: RiskEvaluation, finding: VulnerabilityFinding, item: InventoryItem)
    requires
        evaluates(r, finding, item),
        item.exposure == Exposure::Unknown,
    ensures
        reason_parts(finding.severity, item.exposure, item.docker)[1]
            == "Unknown exposure; finding is retained for review"@,
        r.reason@ == join(reason_parts(finding.severity, item.exposure, item.docker), "; "@),
{
}


/// `s` holds no `'U'` from index `k` on.
spec fn no_u_from(s: Seq<char>, k: int) -> bool {
    forall|i: int| k <= i < s.len() ==> s[i] != 'U'
}

/// `a` is a prefix of `b`.
spec fn prefix_of(a: Seq<char>, b: Seq<char>) -> bool {
    a.len() <= b.len() && forall|i: int| 0 <= i < a.len() ==> a[i] == b[i]
}

proof fn lemma_find_from(s: Seq<char>, p: Seq<char>, i: int)
    requires
        0 <= i,
    ensures
        (find_from(s, p, i) is Some) <==> exists|j: int| i <= j && occurs_at(s, p, j),
    decreases s.len() + 1 - i,
{
    if i > s.len() || i + p.len() > s.len() {
    } else if occurs_at(s, p, i) {
    } else {
        lemma_find_from(s, p, i + 1);
        if exists|j: int| i <= j && occurs_at(s, p, j) {
            let j = choose|j: int| i <= j && occurs_at(s, p, j);
            assert(j != i);
            assert(i + 1 <= j && occurs_at(s, p, j));
        }
    }
}

proof fn lemma_join_prefix(parts: Seq<Seq<char>>, sep: Seq<char>, k: int)
    requires
        1 <= k <= parts.len(),
    ensures
        prefix_of(join(parts.take(k), sep), join(parts, sep)),
    decreases parts.len(),
{
    if k < parts.len() {
        let rest = parts.drop_last();
        assert(rest.take(k) == parts.take(k));
        lemma_join_prefix(rest, sep, k);
        if parts.len() == 1 {
        } else {
            let whole = join(parts, sep);
            assert(whole == join(rest, sep) + sep + parts.last());
        }
    } else {
        assert(parts.take(k) == parts);
    }
}

proof fn lemma_join_no_u(parts: Seq<Seq<char>>, sep: Seq<char>)
    requires
        parts.len() >= 1,
        no_u_from(parts[0], 1),
        forall|k: int| 1 <= k < parts.len() ==> no_u_from(#[trigger] parts[k], 0),
        no_u_from(sep, 0),
    ensures
        no_u_from(join(parts, sep), 1),
    decreases parts.len(),
{
    if parts.len() > 1 {
        let rest = parts.drop_last();
        assert forall|k: int| 1 <= k < rest.len() implies no_u_from(#[trigger] rest[k], 0) by {
            assert(rest[k] == parts[k]);
        }
        lemma_join_no_u(rest, sep);
        let a = join(rest, sep);
        let whole = a + sep + parts.last();
        assert(join(parts, sep) == whole);
        assert(no_u_from(parts[parts.len() - 1], 0));
        assert forall|i: int| 1 <= i < whole.len() implies whole[i] != 'U' by {
            if i < a.len() {
            } else if i < a.len() + sep.len() {
                assert(whole[i] == sep[i - a.len()]);
            } else {
                assert(whole[i] == parts.last()[i - a.len() - sep.len()]);
            }
        }
    }
}

proof fn lemma_first_reason(severity: Severity, exposure: Exposure)
    ensures
        ({
            let first = severity.label() + " vulnerability on "@ + exposure.label() + " service"@;
            &&& no_u_from(first, 1)
            &&& first.len() > 8
            &&& first[0] == 'U' ==> first[8] == 'v'
        }),
{
    reveal_strlit("Critical");
    reveal_strlit("High");
    reveal_strlit("Medium");
    reveal_strlit("Low");
    reveal_strlit("Negligible");
    reveal_strlit("Unknown");
    reveal_strlit(" vulnerability on ");
    reveal_strlit("public");
    reveal_strlit("internal");
    reveal_strlit("localhost");
    reveal_strlit("unknown");
    reveal_strlit(" service");
    let l = severity.label();
    let mid = " vulnerability on "@;
    let e = exposure.label();
    let tail = " service"@;
    let first = l + mid + e + tail;
    assert(no_u_from(l, 1));
    assert(no_u_from(mid, 0));
    assert(no_u_from(e, 0));
    assert(no_u_from(tail, 0));
    assert forall|i: int| 1 <= i < first.len() implies first[i] != 'U' by {
        if i < l.len() {
        } else if i < l.len() + mid.len() {
            assert(first[i] == mid[i - l.len()]);
        } else if i < l.len() + mid.len() + e.len() {
            assert(first[i] == e[i - l.len() - mid.len()]);
        } else {
            assert(first[i] == tail[i - l.len() - mid.len() - e.len()]);
        }
    }
    assert(first[0] == l[0]);
    if l[0] == 'U' {
        assert(l == "Unknown"@);
        assert(first[8] == mid[1]);
    }
}

/// A risk's reason marks it for review exactly when the exposure of its
/// service is unknown: it names "Unknown exposure" then and only then.
pub proof fn lemma_reason_names_unknown_exposure(
    r: RiskEvaluation,
    finding: VulnerabilityFinding,
    item: InventoryItem,
)
    requires
        evaluates(r, finding, item),
    ensures
        contains(r.reason@, "Unknown exposure"@) <==> item.exposure == Exposure::Unknown,
{
    let p = "Unknown exposure"@;
    let sep = "; "@;
    let parts = reason_parts(finding.severity, item.exposure, item.docker);
    let first = finding.severity.label() + " vulnerability on "@ + item.exposure.label() + " service"@;
    let reason = join(parts, sep);
    reveal_strlit("Unknown exposure");
    reveal_strlit("; ");
    reveal_strlit("Unknown exposure; finding is retained for review");
    reveal_strlit("Container is running privileged");
    reveal_strlit("Container mounts the Docker socket");
    lemma_find_from(reason, p, 0);
    assert(parts[0] == first);
    if item.exposure == Exposure::Unknown {
        let u = "Unknown exposure; finding is retained for review"@;
        assert(parts[1] == u);
        let two = parts.take(2);
        assert(two.len() == 2);
        assert(two.drop_last() == seq![first]);
        assert(two.last() == u);
        assert(join(seq![first], sep) == first);
        assert(join(two, sep) == join(two.drop_last(), sep) + sep + two.last());
        assert(join(two, sep) == first + sep + u);
        lemma_join_prefix(parts, sep, 2);
        let at: int = (first.len() + sep.len()) as int;
        assert(occurs_at(reason, p, at)) by {
            assert forall|m: int| 0 <= m < p.len() implies reason[at + m] == p[m] by {
                assert(reason[at + m] == join(two, sep)[at + m]);
                assert(join(two, sep)[at + m] == u[m]);
            }
            assert(reason.subrange(at, at + p.len() as int) =~= p);
        }
    } else {
        lemma_first_reason(finding.severity, item.exposure);
        assert forall|k: int| 1 <= k < parts.len() implies no_u_from(#[trigger] parts[k], 0) by {
            let q = parts[k];
            assert(q == "Container is running privileged"@ || q == "Container mounts the Docker socket"@);
        }
        lemma_join_no_u(parts, sep);
        lemma_join_prefix(parts, sep, 1);
        assert(parts.take(1) == seq![first]);
        if contains(reason, p) {
            let i = choose|j: int| 0 <= j && occurs_at(reason, p, j);
            assert(reason.subrange(i, i + p.len() as int)[0] == p[0]);
            assert(reason[i] == 'U');
            assert(i == 0);
            assert(reason[0] == first[0]);
            assert(reason.subrange(0, p.len() as int)[8] == p[8]);
            assert(reason[8] == first[8]);
        }
    }
}

} // verus!
