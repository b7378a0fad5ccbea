//! From inventory to scan targets: which items a scanner can act on, how
//! targets that scan the same artifact are grouped so it is scanned once, and
//! how one scan's findings are handed back to every target of its group.
use vstd::prelude::*;

use crate::models::{
    InventoryItem, InventoryKind, ScanTarget, ScannerError, VulnerabilityFinding,
};
use crate::config::CollectorsConfig;
use crate::docker::{container_item_for, ContainerInspect, DockerCollector};
use crate::packages::PackageCollector;
use crate::ports::PortCollector;
use crate::systemd::SystemdCollector;
use crate::text::{chars_of, concat2, concat3, string_of, trim, trim_chars};

verus! {

/// Choices that decide which inventory becomes a scan target.
#[derive(Debug, Clone, Copy, PartialEq, Eq, Structural)]
pub struct ScanTargetOptions {
    /// Whether the host item yields a `dir:/` target for the host filesystem.
    pub scan_host_filesystem: bool,
}

/// The image that a container is scanned by: its Docker image id where that
/// is known and not blank, else its image reference.
pub open spec fn scan_image(item: InventoryItem) -> Option<Seq<char>> {
    if item.docker matches Some(d) && d.image_id matches Some(id) && trim(id@).len() > 0 {
        Some(item.docker.unwrap().image_id.unwrap()@)
    } else if item.image is Some {
        Some(item.image.unwrap()@)
    } else {
        None
    }
}

/// The reference that a scanner is given for a container.
pub open spec fn container_reference(item: InventoryItem) -> Option<Seq<char>> {
    match scan_image(item) {
        Some(image) => Some("docker:"@ + image),
        None => None,
    }
}

pub fn container_scan_reference(item: &InventoryItem) -> (r: Option<String>)
    ensures
        r matches Some(s) ==> container_reference(*item) == Some(s@),
        r is None ==> container_reference(*item) is None,
{
    if let Some(docker) = &item.docker {
        if let Some(image_id) = &docker.image_id {
            let id_chars = chars_of(image_id.as_str());
            let trimmed = trim_chars(id_chars.as_slice());
            if trimmed.len() > 0 {
                return Some(concat2("docker:", image_id.as_str()));
            }
        }
    }
    match &item.image {
        Some(image) => Some(concat2("docker:", image.as_str())),
        None => None,
    }
}

/// The reference an item is scanned by, if it is scanned at all: running
/// containers by their image, the host by its filesystem root when the
/// options ask for it, and nothing else.
pub open spec fn target_reference(item: InventoryItem, options: ScanTargetOptions) -> Option<
    Seq<char>,
> {
    match item.kind {
        InventoryKind::Container => if item.status.runs() {
            container_reference(item)
        } else {
            None
        },
        InventoryKind::Host => if options.scan_host_filesystem {
            Some("dir:/"@)
        } else {
            None
        },
        _ => None,
    }
}

/// The items that yield targets, as pairs of index and reference, in order.
pub open spec fn targeted(items: Seq<InventoryItem>, options: ScanTargetOptions) -> Seq<
    (int, Seq<char>),
>
    decreases items.len(),
{
    if items.len() == 0 {
        seq![]
    } else {
        let rest = targeted(items.drop_last(), options);
        match target_reference(items.last(), options) {
            Some(r) => rest.push((items.len() - 1, r)),
            None => rest,
        }
    }
}

pub proof fn lemma_targeted_indices(items: Seq<InventoryItem>, options: ScanTargetOptions)
    ensures
        forall|k: int|
            0 <= k < targeted(items, options).len() ==> 0 <= #[trigger] targeted(
                items,
                options,
            )[k].0 < items.len(),
    decreases items.len(),
{
    if items.len() > 0 {
        let rest = targeted(items.drop_last(), options);
        lemma_targeted_indices(items.drop_last(), options);
        assert forall|k: int| 0 <= k < targeted(items, options).len() implies 0 <= #[trigger] targeted(
            items,
            options,
        )[k].0 < items.len() by {
            if k < rest.len() {
                assert(targeted(items, options)[k] == rest[k]);
            }
        }
    }
}

/// `targets` holds one fresh target for each item that `targeted` picks, in order.
pub open spec fn targets_for(
    targets: Seq<ScanTarget>,
    items: Seq<InventoryItem>,
    options: ScanTargetOptions,
) -> bool {
    let picked = targeted(items, options);
    &&& targets.len() == picked.len()
    &&& forall|k: int|
        0 <= k < targets.len() ==> #[trigger] targets[k].derived_from(
            &items[picked[k].0],
            picked[k].1,
        )
}

pub fn scan_targets_from_inventory_with_options(
    items: &[InventoryItem],
    options: ScanTargetOptions,
) -> (out: Vec<ScanTarget>)
    ensures
        targets_for(out@, items@, options),
{
    let mut out: Vec<ScanTarget> = Vec::new();
    let mut i: usize = 0;
    while i < items.len()
        invariant
            i <= items@.len(),
            targets_for(out@, items@.take(i as int), options),
        decreases items@.len() - i,
    {
        let item = &items[i];
        let ghost prefix = items@.take(i as int);
        let ghost next = items@.take(i + 1);
        assert(next.drop_last() == prefix);
        assert(next.last() == *item);
        let reference = match item.kind {
            InventoryKind::Container => if item.is_running() {
                container_scan_reference(item)
            } else {
                None
            },
            InventoryKind::Host => if options.scan_host_filesystem {
                Some(String::from_str("dir:/"))
            } else {
                None
            },
            _ => None,
        };
        let ghost before = out@;
        if let Some(reference) = reference {
            let target = ScanTarget::from_inventory(item, reference);
            out.push(target);
        }
        proof {
            let picked = targeted(next, options);
            assert forall|k: int| 0 <= k < out@.len() implies #[trigger] out@[k].derived_from(
                &next[picked[k].0],
                picked[k].1,
            ) by {
                lemma_targeted_indices(prefix, options);
                if k < before.len() {
                    assert(out@[k] == before[k]);
                    assert(picked[k] == targeted(prefix, options)[k]);
                    assert(next[picked[k].0] == prefix[picked[k].0]);
                }
            }
        }
        i = i + 1;
    }
    assert(items@.take(items@.len() as int) == items@);
    out
}

/// Scan targets for every running container and for the host filesystem.
pub fn scan_targets_from_inventory(items: &[InventoryItem]) -> (out: Vec<ScanTarget>)
    ensures
        targets_for(out@, items@, ScanTargetOptions { scan_host_filesystem: true }),
{
    scan_targets_from_inventory_with_options(items, ScanTargetOptions { scan_host_filesystem: true })
}


/// Targets that share one scan reference; the representative is scanned for all.
#[derive(Debug, Clone)]
pub struct ScanTargetGroup {
    pub representative: ScanTarget,
    pub targets: Vec<ScanTarget>,
}

/// The references of `targets`, each once, in the order of first appearance.
pub open spec fn distinct_references(targets: Seq<ScanTarget>) -> Seq<Seq<char>>
    decreases targets.len(),
{
    if targets.len() == 0 {
        seq![]
    } else {
        let seen = distinct_references(targets.drop_last());
        let r = targets.last().reference@;
        if seen.contains(r) {
            seen
        } else {
            seen.push(r)
        }
    }
}

/// The targets that scan `reference`, in order.
pub open spec fn with_reference(targets: Seq<ScanTarget>, reference: Seq<char>) -> Seq<ScanTarget>
    decreases targets.len(),
{
    if targets.len() == 0 {
        seq![]
    } else {
        let rest = with_reference(targets.drop_last(), reference);
        if targets.last().reference@ == reference {
            rest.push(targets.last())
        } else {
            rest
        }
    }
}

/// Element by element, `a` holds the same targets as `b`.
pub open spec fn same_targets(a: Seq<ScanTarget>, b: Seq<ScanTarget>) -> bool {
    &&& a.len() == b.len()
    &&& forall|j: int| 0 <= j < a.len() ==> #[trigger] a[j].same_as(&b[j])
}

/// `groups` holds one group per distinct reference of `targets`, in order of
/// first appearance; each group lists the targets with that reference in
/// order, and its representative is the first of them.
pub open spec fn grouped(groups: Seq<ScanTargetGroup>, targets: Seq<ScanTarget>) -> bool {
    let refs = distinct_references(targets);
    &&& groups.len() == refs.len()
    &&& forall|g: int|
        0 <= g < groups.len() ==> {
            let members = with_reference(targets, refs[g]);
            &&& #[trigger] groups[g].representative.reference@ == refs[g]
            &&& same_targets(groups[g].targets@, members)
            &&& members.len() > 0
            &&& groups[g].representative.same_as(&members[0])
        }
}

proof fn lemma_distinct_references_unique(targets: Seq<ScanTarget>)
    ensures
        forall|a: int, b: int|
            0 <= a < b < distinct_references(targets).len() ==> distinct_references(targets)[a]
                != distinct_references(targets)[b],
    decreases targets.len(),
{
    if targets.len() > 0 {
        let seen = distinct_references(targets.drop_last());
        lemma_distinct_references_unique(targets.drop_last());
        let r = targets.last().reference@;
        if !seen.contains(r) {
            assert forall|a: int, b: int|
                0 <= a < b < distinct_references(targets).len() implies distinct_references(
                targets,
            )[a] != distinct_references(targets)[b] by {
                if b == seen.len() {
                    assert(seen[a] != r);
                } else {
                    assert(seen[a] != seen[b]);
                }
            }
        }
    }
}

proof fn lemma_with_reference_empty(targets: Seq<ScanTarget>, reference: Seq<char>)
    requires
        !distinct_references(targets).contains(reference),
    ensures
        with_reference(targets, reference).len() == 0,
    decreases targets.len(),
{
    if targets.len() > 0 {
        let seen = distinct_references(targets.drop_last());
        if seen.contains(targets.last().reference@) {
            assert(targets.last().reference@ != reference);
        } else {
            assert(seen.push(targets.last().reference@).last() == targets.last().reference@);
        }
        assert forall|x: int| 0 <= x < seen.len() implies seen[x] != reference by {
            assert(distinct_references(targets).contains(seen[x])) by {
                if !seen.contains(targets.last().reference@) {
                    assert(seen.push(targets.last().reference@)[x] == seen[x]);
                }
            }
        }
        lemma_with_reference_empty(targets.drop_last(), reference);
    }
}

proof fn lemma_references_covered(targets: Seq<ScanTarget>)
    ensures
        forall|i: int|
            0 <= i < targets.len() ==> distinct_references(targets).contains(
                (#[trigger] targets[i]).reference@,
            ),
    decreases targets.len(),
{
    if targets.len() > 0 {
        let rest = targets.drop_last();
        lemma_references_covered(rest);
        let seen = distinct_references(rest);
        let all = distinct_references(targets);
        assert forall|i: int| 0 <= i < targets.len() implies all.contains(
            (#[trigger] targets[i]).reference@,
        ) by {
            if i < rest.len() {
                assert(rest[i] == targets[i]);
                let x = choose|x: int| 0 <= x < seen.len() && seen[x] == rest[i].reference@;
                if !seen.contains(targets.last().reference@) {
                    assert(all[x] == seen[x]);
                }
            } else if !seen.contains(targets.last().reference@) {
                assert(all[seen.len() as int] == targets.last().reference@);
            }
        }
    }
}

proof fn lemma_with_reference_members(targets: Seq<ScanTarget>, reference: Seq<char>)
    ensures
        forall|j: int|
            0 <= j < with_reference(targets, reference).len() ==> (#[trigger] with_reference(
                targets,
                reference,
            )[j]).reference@ == reference,
    decreases targets.len(),
{
    if targets.len() > 0 {
        lemma_with_reference_members(targets.drop_last(), reference);
        let rest = with_reference(targets.drop_last(), reference);
        assert forall|j: int| 0 <= j < with_reference(targets, reference).len() implies (
        #[trigger] with_reference(targets, reference)[j]).reference@ == reference by {
            if j < rest.len() {
                assert(with_reference(targets, reference)[j] == rest[j]);
            }
        }
    }
}

/// Each image is scanned once: groups have distinct references, every target
/// is in the group of its reference, and a group holds only targets with its
/// reference.
pub proof fn lemma_groups_scan_each_reference_once(
    groups: Seq<ScanTargetGroup>,
    targets: Seq<ScanTarget>,
)
    requires
        grouped(groups, targets),
    ensures
        forall|g1: int, g2: int|
            0 <= g1 < g2 < groups.len() ==> (#[trigger] groups[g1]).representative.reference@ != (
            #[trigger] groups[g2]).representative.reference@,
        forall|i: int|
            0 <= i < targets.len() ==> exists|g: int|
                0 <= g < groups.len() && (#[trigger] groups[g]).representative.reference@ == (
                #[trigger] targets[i]).reference@,
        forall|g: int, j: int|
            0 <= g < groups.len() && 0 <= j < groups[g].targets@.len() ==> (
            #[trigger] groups[g].targets@[j]).reference@ == groups[g].representative.reference@,
{
    let refs = distinct_references(targets);
    lemma_distinct_references_unique(targets);
    lemma_references_covered(targets);
    assert forall|g1: int, g2: int| 0 <= g1 < g2 < groups.len() implies (
    #[trigger] groups[g1]).representative.reference@ != (
    #[trigger] groups[g2]).representative.reference@ by {
        assert(groups[g1].representative.reference@ == refs[g1]);
        assert(groups[g2].representative.reference@ == refs[g2]);
    }
    assert forall|i: int| 0 <= i < targets.len() implies exists|g: int|
        0 <= g < groups.len() && (#[trigger] groups[g]).representative.reference@ == (
        #[trigger] targets[i]).reference@ by {
        assert(refs.contains(targets[i].reference@));
        let x = choose|x: int| 0 <= x < refs.len() && refs[x] == targets[i].reference@;
        assert(groups[x].representative.reference@ == refs[x]);
    }
    assert forall|g: int, j: int|
        0 <= g < groups.len() && 0 <= j < groups[g].targets@.len() implies (
        #[trigger] groups[g].targets@[j]).reference@ == groups[g].representative.reference@ by {
        let members = with_reference(targets, refs[g]);
        assert(groups[g].representative.reference@ == refs[g]);
        lemma_with_reference_members(targets, refs[g]);
        assert(groups[g].targets@[j].same_as(&members[j]));
    }
}

pub fn unique_scan_target_groups(targets: &[ScanTarget]) -> (groups: Vec<ScanTargetGroup>)
    ensures
        grouped(groups@, targets@),
{
    let mut groups: Vec<ScanTargetGroup> = Vec::new();
    let mut i: usize = 0;
    while i < targets.len()
        invariant
            i <= targets@.len(),
            grouped(groups@, targets@.take(i as int)),
        decreases targets@.len() - i,
    {
        let target = &targets[i];
        let ghost prefix = targets@.take(i as int);
        let ghost next = targets@.take(i + 1);
        let ghost refs = distinct_references(prefix);
        proof {
            assert(next.drop_last() == prefix);
            assert(next.last() == *target);
            lemma_distinct_references_unique(prefix);
        }
        let mut g: usize = 0;
        while g < groups.len() && groups[g].representative.reference != target.reference
            invariant
                g <= groups@.len(),
                groups@.len() == refs.len(),
                forall|h: int| 0 <= h < g ==> refs[h] != target.reference@,
                forall|h: int|
                    0 <= h < groups@.len() ==> #[trigger] groups@[h].representative.reference@
                        == refs[h],
            decreases groups@.len() - g,
        {
            g = g + 1;
        }
        let ghost before = groups@;
        if g < groups.len() {
            let copy = target.duplicate();
            groups[g].targets.push(copy);
            proof {
                assert(refs[g as int] == target.reference@);
                assert(refs.contains(target.reference@));
                assert(distinct_references(next) == refs);
                assert forall|h: int| 0 <= h < groups@.len() implies {
                    let members = with_reference(next, refs[h]);
                    &&& #[trigger] groups@[h].representative.reference@ == refs[h]
                    &&& same_targets(groups@[h].targets@, members)
                    &&& members.len() > 0
                    &&& groups@[h].representative.same_as(&members[0])
                } by {
                    let old_members = with_reference(prefix, refs[h]);
                    assert(with_reference(next, refs[h]) == if target.reference@ == refs[h] {
                        old_members.push(*target)
                    } else {
                        old_members
                    });
                    if h == g {
                        let members = old_members.push(*target);
                        assert(groups@[h].targets@ == before[h].targets@.push(copy));
                        assert(groups@[h].representative == before[h].representative);
                        assert forall|j: int| 0 <= j < members.len() implies #[trigger] groups@[h].targets@[j].same_as(&members[j]) by {
                            if j < old_members.len() {
                                assert(groups@[h].targets@[j] == before[h].targets@[j]);
                                assert(members[j] == old_members[j]);
                            }
                        }
                        assert(members[0] == old_members[0]);
                    } else {
                        assert(refs[h] != refs[g as int]);
                        assert(groups@[h] == before[h]);
                    }
                }
            }
        } else {
            let mut members: Vec<ScanTarget> = Vec::new();
            members.push(target.duplicate());
            groups.push(ScanTargetGroup { representative: target.duplicate(), targets: members });
            proof {
                assert(!refs.contains(target.reference@));
                lemma_with_reference_empty(prefix, target.reference@);
                let new_refs = distinct_references(next);
                assert(new_refs == refs.push(target.reference@));
                assert forall|h: int| 0 <= h < groups@.len() implies {
                    let members = with_reference(next, new_refs[h]);
                    &&& #[trigger] groups@[h].representative.reference@ == new_refs[h]
                    &&& same_targets(groups@[h].targets@, members)
                    &&& members.len() > 0
                    &&& groups@[h].representative.same_as(&members[0])
                } by {
                    if h == refs.len() {
                        let old_members = with_reference(prefix, target.reference@);
                        assert(new_refs[h] == target.reference@);
                        assert(with_reference(next, new_refs[h]) == old_members.push(*target));
                        assert(old_members.push(*target) =~= seq![*target]);
                        let members = with_reference(next, new_refs[h]);
                        assert(groups@[h].targets@.len() == 1);
                        assert(groups@[h].targets@[0].same_as(target));
                        assert(members[0] == *target);
                        assert(same_targets(groups@[h].targets@, members));
                    } else {
                        assert(before[h].representative.reference@ == refs[h]);
                        assert(new_refs[h] == refs[h]);
                        assert(refs[h] != target.reference@);
                        assert(with_reference(next, new_refs[h]) == with_reference(prefix, refs[h]));
                        assert(groups@[h] == before[h]);
                    }
                }
            }
        }
        i = i + 1;
    }
    assert(targets@.take(targets@.len() as int) == targets@);
    groups
}

/// `r` is `finding` as it applies to `target`: unchanged when it was found on
/// that very target, else tied to the target and its inventory item under an
/// id that prefixes the target's id.
pub open spec fn retargeted(
    r: VulnerabilityFinding,
    finding: VulnerabilityFinding,
    target: ScanTarget,
) -> bool {
    if finding.target_id@ == target.id@ && finding.inventory_item_id@ == target.inventory_item_id@ {
        r.same_as(&finding)
    } else {
        &&& r.same_match(&finding)
        &&& r.id@ == target.id@ + ":"@ + finding.id@
        &&& r.target_id == target.id
        &&& r.inventory_item_id == target.inventory_item_id
    }
}

fn finding_for_target(finding: &VulnerabilityFinding, target: &ScanTarget) -> (r:
    VulnerabilityFinding)
    ensures
        retargeted(r, *finding, *target),
{
    if finding.target_id == target.id && finding.inventory_item_id == target.inventory_item_id {
        return finding.duplicate();
    }
    let mut r = finding.duplicate();
    r.id = concat3(target.id.as_str(), ":", finding.id.as_str());
    r.target_id = target.id.clone();
    r.inventory_item_id = target.inventory_item_id.clone();
    r
}

/// `out` holds, for each target in turn, every finding retargeted to it.
pub open spec fn expanded(
    out: Seq<VulnerabilityFinding>,
    findings: Seq<VulnerabilityFinding>,
    targets: Seq<ScanTarget>,
) -> bool {
    &&& out.len() == targets.len() * findings.len()
    &&& forall|t: int, f: int|
        0 <= t < targets.len() && 0 <= f < findings.len() ==> retargeted(
            #[trigger] out[t * findings.len() + f],
            findings[f],
            targets[t],
        )
}

pub fn expand_findings_to_targets(findings: &[VulnerabilityFinding], targets: &[ScanTarget]) -> (out:
    Vec<VulnerabilityFinding>)
    ensures
        expanded(out@, findings@, targets@),
{
    let mut out: Vec<VulnerabilityFinding> = Vec::new();
    let n = findings.len();
    let mut t: usize = 0;
    while t < targets.len()
        invariant
            t <= targets@.len(),
            n == findings@.len(),
            out@.len() == t * n,
            forall|a: int, f: int|
                0 <= a < t && 0 <= f < n ==> retargeted(
                    #[trigger] out@[a * n + f],
                    findings@[f],
                    targets@[a],
                ),
        decreases targets@.len() - t,
    {
        let mut f: usize = 0;
        while f < n
            invariant
                t < targets@.len(),
                f <= n,
                n == findings@.len(),
                out@.len() == t * n + f,
                forall|a: int, b: int|
                    0 <= a < t && 0 <= b < n ==> retargeted(
                        #[trigger] out@[a * n + b],
                        findings@[b],
                        targets@[a],
                    ),
                forall|b: int|
                    0 <= b < f ==> retargeted(#[trigger] out@[t * n + b], findings@[b], targets@[t as int]),
            decreases n - f,
        {
            let ghost before = out@;
            out.push(finding_for_target(&findings[f], &targets[t]));
            proof {
                assert forall|a: int, b: int| 0 <= a < t && 0 <= b < n implies retargeted(
                    #[trigger] out@[a * n + b],
                    findings@[b],
                    targets@[a],
                ) by {
                    assert(a * n + b < t * n) by (nonlinear_arith)
                        requires
                            0 <= a < t,
                            0 <= b < n,
                    ;
                    assert(out@[a * n + b] == before[a * n + b]);
                }
            }
            f = f + 1;
        }
        proof {
            assert forall|a: int, b: int| 0 <= a < t + 1 && 0 <= b < n implies retargeted(
                #[trigger] out@[a * n + b],
                findings@[b],
                targets@[a],
            ) by {
                if a == t {
                }
            }
            assert((t + 1) * n == t * n + n) by (nonlinear_arith);
        }
        t = t + 1;
    }
    out
}

/// Adds what one collector returned to the inventory so far: its items when
/// it succeeded, an error record naming it when it failed.
pub fn record_collection(
    items: &mut Vec<InventoryItem>,
    errors: &mut Vec<ScannerError>,
    collector: &str,
    outcome: Result<Vec<InventoryItem>, String>,
)
    ensures
        match outcome {
            Ok(collected) => {
                &&& final(items)@ == old(items)@ + collected@
                &&& final(errors)@ == old(errors)@
            },
            Err(message) => {
                &&& final(items)@ == old(items)@
                &&& final(errors)@.len() == old(errors)@.len() + 1
                &&& final(errors)@.take(old(errors)@.len() as int) == old(errors)@
                &&& final(errors)@.last().scanner@ == collector@
                &&& final(errors)@.last().target@ == "inventory"@
                &&& final(errors)@.last().message == message
            },
        },
{
    match outcome {
        Ok(mut collected) => items.append(&mut collected),
        Err(message) => {
            errors.push(
                ScannerError {
                    scanner: String::from_str(collector),
                    target: String::from_str("inventory"),
                    message,
                },
            );
            assert(errors@.take(old(errors)@.len() as int) == old(errors)@);
        },
    }
}


/// The error of a host tool that exited with a failure: its name and its
/// trimmed standard error.
pub fn command_failure(tool: &str, stderr: &str) -> (m: String)
    ensures
        m@ == tool@ + " failed: "@ + trim(stderr@),
{
    let err = chars_of(stderr);
    let trimmed = trim_chars(err.as_slice());
    let tail = string_of(trimmed.as_slice());
    concat3(tool, " failed: ", tail.as_str())
}


/// The collectors a configuration turns on.
#[derive(Debug, Clone)]
pub struct CollectorSet {
    pub docker: Option<DockerCollector>,
    pub systemd: Option<SystemdCollector>,
    pub packages: Option<PackageCollector>,
    pub ports: Option<PortCollector>,
}

/// The enabled collectors, each reading its fixture file when one is set.
pub fn collectors_for(config: &CollectorsConfig) -> (set: CollectorSet)
    ensures
        set.docker is Some <==> config.docker.enabled,
        set.docker matches Some(d) ==> d.endpoint() == config.docker.socket && d.fixture()
            == config.docker.fixture_path,
        set.systemd is Some <==> config.systemd.enabled,
        set.systemd matches Some(s) ==> s.fixture() == config.systemd.fixture_path,
        set.packages is Some <==> config.packages.enabled,
        set.packages matches Some(p) ==> p.fixture() == config.packages.fixture_path,
        set.ports is Some <==> config.ports.enabled,
        set.ports matches Some(p) ==> p.fixture() == config.ports.fixture_path,
{
    let docker = if config.docker.enabled {
        match &config.docker.fixture_path {
            Some(path) => Some(DockerCollector::with_fixture(config.docker.socket.clone(), path.clone())),
            None => Some(DockerCollector::new(config.docker.socket.clone())),
        }
    } else {
        None
    };
    let systemd = if config.systemd.enabled {
        match &config.systemd.fixture_path {
            Some(path) => Some(SystemdCollector::with_fixture(path.clone())),
            None => Some(SystemdCollector::new()),
        }
    } else {
        None
    };
    let packages = if config.packages.enabled {
        match &config.packages.fixture_path {
            Some(path) => Some(PackageCollector::with_fixture(path.clone())),
            None => Some(PackageCollector::new()),
        }
    } else {
        None
    };
    let ports = if config.ports.enabled {
        match &config.ports.fixture_path {
            Some(path) => Some(PortCollector::with_fixture(path.clone())),
            None => Some(PortCollector::new()),
        }
    } else {
        None
    };
    CollectorSet { docker, systemd, packages, ports }
}


/// Container images are scanned by their local image ID when Docker reports
/// one: the scan reference of an inspected container names that ID.
pub proof fn lemma_inspected_containers_scan_image_id(item: InventoryItem, c: ContainerInspect)
    requires
        container_item_for(item, c),
        c.image_id matches Some(id) && trim(id@).len() > 0,
    ensures
        container_reference(item) == Some("docker:"@ + c.image_id.unwrap()@),
{
}

} // verus!
