//! Notifications: the Discord message for an event, and the plan of which
//! events one scan sends — new risks at or above the configured level, one
//! per service and vulnerability, hardening alerts for sensitive containers,
//! highest risk first, within the per-scan cap.
use vstd::prelude::*;

use crate::config::{NornConfig, RiskConfig};
use crate::models::{
    str_eq, Exposure, InventoryItem, NotificationEvent, RiskEvaluation, RiskLevel, Severity,
};
use crate::text::{
    chars_lt, chars_of, clone_opt_string, concat2, concat3, decimal, decimal_chars, opt_view,
    string_of, text_lt, trim, trim_chars, lemma_text_lt_asymmetric,
    lemma_text_lt_irreflexive, lemma_text_lt_total, lemma_text_lt_transitive,
};

verus! {

/// One field of a Discord embed.
#[derive(Debug, Clone, PartialEq, Eq)]
pub struct DiscordField {
    pub name: String,
    pub value: String,
    pub inline: bool,
}

/// A Discord webhook message with one embed.
#[derive(Debug, Clone, PartialEq, Eq)]
pub struct DiscordPayload {
    pub username: String,
    pub title: String,
    pub description: String,
    pub color: u32,
    pub fields: Vec<DiscordField>,
}

/// The embed color for a risk score.
pub open spec fn risk_color(score: u8) -> u32 {
    if score == 5 {
        0xd7263d
    } else if score == 4 {
        0xf46036
    } else if score == 3 {
        0xf4b942
    } else if score == 2 {
        0x2e86ab
    } else {
        0x6c757d
    }
}

pub fn color_for_risk(score: u8) -> (c: u32)
    ensures
        c == risk_color(score),
{
    match score {
        5 => 0xd7263d,
        4 => 0xf46036,
        3 => 0xf4b942,
        2 => 0x2e86ab,
        _ => 0x6c757d,
    }
}

/// The title of an event's message.
pub open spec fn event_title(event: NotificationEvent) -> Seq<char> {
    match event.vulnerability_id {
        Some(id) => event.runtime_risk.label() + " runtime risk: "@ + id@,
        None => event.runtime_risk.label() + " runtime risk"@,
    }
}

/// The fields of an event's message: name, value and whether it is inline.
pub open spec fn event_fields(event: NotificationEvent) -> Seq<(Seq<char>, Seq<char>, bool)> {
    let artifact = match event.artifact {
        Some(a) => a@,
        None => "unknown"@,
    };
    let severity = match event.severity {
        Some(s) => s.label(),
        None => "N/A"@,
    };
    let action = match event.recommended_action {
        Some(a) => a@,
        None => "Review the affected runtime asset and reduce exposure where possible."@,
    };
    seq![
        ("Project"@, event.project@, true),
        ("Host"@, event.host@, true),
        ("Service"@, event.service@, true),
        ("Artifact"@, artifact, true),
        ("Severity"@, severity, true),
        ("Runtime risk"@, event.runtime_risk.label(), true),
        ("Exposure"@, event.exposure.label(), true),
        ("Recommended action"@, action, false),
    ]
}

fn field(name: &str, value: &str, inline: bool) -> (f: DiscordField)
    ensures
        f.name@ == name@,
        f.value@ == value@,
        f.inline == inline,
{
    DiscordField { name: String::from_str(name), value: String::from_str(value), inline }
}

/// The Discord message for an event.
pub fn discord_payload(event: &NotificationEvent) -> (p: DiscordPayload)
    ensures
        p.username@ == "Norn"@,
        p.title@ == event_title(*event),
        p.description == event.reason,
        p.color == risk_color(event.runtime_risk.rank()),
        p.fields@.len() == 8,
        forall|i: int|
            0 <= i < 8 ==> {
                &&& (#[trigger] p.fields@[i]).name@ == event_fields(*event)[i].0
                &&& p.fields@[i].value@ == event_fields(*event)[i].1
                &&& p.fields@[i].inline == event_fields(*event)[i].2
            },
{
    let risk = event.runtime_risk.as_str();
    let title = match &event.vulnerability_id {
        Some(id) => {
            let mut t = concat2(risk, " runtime risk: ");
            t.append(id.as_str());
            t
        },
        None => concat2(risk, " runtime risk"),
    };
    let artifact: &str = match &event.artifact {
        Some(a) => a.as_str(),
        None => "unknown",
    };
    let severity: &str = match event.severity {
        Some(s) => s.as_str(),
        None => "N/A",
    };
    let action: &str = match &event.recommended_action {
        Some(a) => a.as_str(),
        None => "Review the affected runtime asset and reduce exposure where possible.",
    };
    let mut fields: Vec<DiscordField> = Vec::new();
    fields.push(field("Project", event.project.as_str(), true));
    fields.push(field("Host", event.host.as_str(), true));
    fields.push(field("Service", event.service.as_str(), true));
    fields.push(field("Artifact", artifact, true));
    fields.push(field("Severity", severity, true));
    fields.push(field("Runtime risk", risk, true));
    fields.push(field("Exposure", event.exposure.as_str(), true));
    fields.push(field("Recommended action", action, false));
    DiscordPayload {
        username: String::from_str("Norn"),
        title,
        description: event.reason.clone(),
        color: color_for_risk(event.runtime_risk.score()),
        fields,
    }
}

/// `a` comes before `b` when texts are optional: none before any.
pub open spec fn opt_text_lt(a: Option<Seq<char>>, b: Option<Seq<char>>) -> bool {
    match (a, b) {
        (None, Some(_)) => true,
        (Some(x), Some(y)) => text_lt(x, y),
        _ => false,
    }
}

/// Two events have the same priority key: risk, service and vulnerability.
pub open spec fn same_key(a: NotificationEvent, b: NotificationEvent) -> bool {
    &&& a.runtime_risk.rank() == b.runtime_risk.rank()
    &&& a.service@ == b.service@
    &&& opt_view(a.vulnerability_id) == opt_view(b.vulnerability_id)
}

/// `a` is sent before `b`: higher risk first, then by service, then by
/// vulnerability id.
pub open spec fn key_lt(a: NotificationEvent, b: NotificationEvent) -> bool {
    ||| a.runtime_risk.rank() > b.runtime_risk.rank()
    ||| (a.runtime_risk.rank() == b.runtime_risk.rank() && text_lt(a.service@, b.service@))
    ||| (a.runtime_risk.rank() == b.runtime_risk.rank() && a.service@ == b.service@
        && opt_text_lt(opt_view(a.vulnerability_id), opt_view(b.vulnerability_id)))
}

/// Event `a` at index `i` goes before event `b` at index `j` in a stable sort
/// by priority key.
pub open spec fn precedes(a: NotificationEvent, i: int, b: NotificationEvent, j: int) -> bool {
    key_lt(a, b) || (same_key(a, b) && i < j)
}

pub proof fn lemma_key_lt_irreflexive(a: NotificationEvent)
    ensures
        !key_lt(a, a),
{
    lemma_text_lt_irreflexive(a.service@);
    if a.vulnerability_id is Some {
        lemma_text_lt_irreflexive(a.vulnerability_id.unwrap()@);
    }
}

pub proof fn lemma_key_lt_transitive(a: NotificationEvent, b: NotificationEvent, c: NotificationEvent)
    requires
        key_lt(a, b),
        key_lt(b, c),
    ensures
        key_lt(a, c),
{
    if a.runtime_risk.rank() == b.runtime_risk.rank() && b.runtime_risk.rank()
        == c.runtime_risk.rank() {
        if text_lt(a.service@, b.service@) && text_lt(b.service@, c.service@) {
            lemma_text_lt_transitive(a.service@, b.service@, c.service@);
        }
        let (x, y, z) = (
            opt_view(a.vulnerability_id),
            opt_view(b.vulnerability_id),
            opt_view(c.vulnerability_id),
        );
        if opt_text_lt(x, y) && opt_text_lt(y, z) && x is Some {
            lemma_text_lt_transitive(x.unwrap(), y.unwrap(), z.unwrap());
        }
    }
}

pub proof fn lemma_key_total(a: NotificationEvent, b: NotificationEvent)
    ensures
        key_lt(a, b) || key_lt(b, a) || same_key(a, b),
{
    lemma_text_lt_total(a.service@, b.service@);
    let (x, y) = (opt_view(a.vulnerability_id), opt_view(b.vulnerability_id));
    if x is Some && y is Some {
        lemma_text_lt_total(x.unwrap(), y.unwrap());
    }
}

pub proof fn lemma_key_lt_not_same(a: NotificationEvent, b: NotificationEvent)
    requires
        key_lt(a, b),
    ensures
        !same_key(a, b),
        !key_lt(b, a),
{
    if same_key(a, b) {
        lemma_text_lt_irreflexive(a.service@);
        if a.vulnerability_id is Some {
            lemma_text_lt_irreflexive(a.vulnerability_id.unwrap()@);
        }
    }
    if key_lt(b, a) {
        lemma_key_lt_transitive(a, b, a);
        lemma_key_lt_irreflexive(a);
    }
}

proof fn lemma_precedes_transitive(
    a: NotificationEvent,
    i: int,
    b: NotificationEvent,
    j: int,
    c: NotificationEvent,
    k: int,
)
    requires
        precedes(a, i, b, j),
        precedes(b, j, c, k),
    ensures
        precedes(a, i, c, k),
{
    if key_lt(a, b) && key_lt(b, c) {
        lemma_key_lt_transitive(a, b, c);
    }
}

proof fn lemma_precedes_total(a: NotificationEvent, i: int, b: NotificationEvent, j: int)
    requires
        i != j,
    ensures
        precedes(a, i, b, j) || precedes(b, j, a, i),
{
    lemma_key_total(a, b);
}

fn opt_chars_lt(a: &Option<String>, b: &Option<String>) -> (r: bool)
    ensures
        r == opt_text_lt(opt_view(*a), opt_view(*b)),
{
    match (a, b) {
        (None, Some(_)) => true,
        (Some(x), Some(y)) => {
            let xc = chars_of(x.as_str());
            let yc = chars_of(y.as_str());
            chars_lt(xc.as_slice(), yc.as_slice())
        },
        _ => false,
    }
}

fn opt_text_eq(a: &Option<String>, b: &Option<String>) -> (r: bool)
    ensures
        r == (opt_view(*a) == opt_view(*b)),
{
    match (a, b) {
        (None, None) => true,
        (Some(x), Some(y)) => str_eq(x.as_str(), y.as_str()),
        _ => false,
    }
}

fn event_precedes(a: &NotificationEvent, i: usize, b: &NotificationEvent, j: usize) -> (r: bool)
    ensures
        r == precedes(*a, i as int, *b, j as int),
{
    let ra = a.runtime_risk.score();
    let rb = b.runtime_risk.score();
    if ra != rb {
        return ra > rb;
    }
    let sa = chars_of(a.service.as_str());
    let sb = chars_of(b.service.as_str());
    if chars_lt(sa.as_slice(), sb.as_slice()) {
        return true;
    }
    if a.service != b.service {
        proof {
            lemma_text_lt_total(a.service@, b.service@);
            lemma_text_lt_asymmetric(b.service@, a.service@);
        }
        return false;
    }
    if opt_chars_lt(&a.vulnerability_id, &b.vulnerability_id) {
        return true;
    }
    opt_text_eq(&a.vulnerability_id, &b.vulnerability_id) && i < j
}

/// `order` holds the index `x`.
pub open spec fn lists(order: Seq<usize>, x: int) -> bool {
    exists|k: int| 0 <= k < order.len() && #[trigger] order[k] == x
}

/// `order` lists the indices of `events` in stable priority order.
pub open spec fn stable_order(order: Seq<usize>, events: Seq<NotificationEvent>) -> bool {
    &&& order.len() == events.len()
    &&& forall|k: int| 0 <= k < order.len() ==> #[trigger] order[k] < events.len()
    &&& forall|x: int| 0 <= x < events.len() ==> #[trigger] lists(order, x)
    &&& forall|k1: int, k2: int|
        0 <= k1 < k2 < order.len() ==> precedes(
            events[order[k1] as int],
            order[k1] as int,
            events[order[k2] as int],
            order[k2] as int,
        )
}

fn priority_order(events: &Vec<NotificationEvent>) -> (order: Vec<usize>)
    ensures
        stable_order(order@, events@),
{
    let mut order: Vec<usize> = Vec::new();
    let mut j: usize = 0;
    while j < events.len()
        invariant
            j <= events@.len(),
            order@.len() == j,
            forall|k: int| 0 <= k < order@.len() ==> #[trigger] order@[k] < j,
            forall|x: int| 0 <= x < j ==> #[trigger] lists(order@, x),
            forall|k1: int, k2: int|
                0 <= k1 < k2 < order@.len() ==> precedes(
                    events@[order@[k1] as int],
                    order@[k1] as int,
                    events@[order@[k2] as int],
                    order@[k2] as int,
                ),
        decreases events@.len() - j,
    {
        let mut pos: usize = order.len();
        while pos > 0 && event_precedes(&events[j], j, &events[order[pos - 1]], order[pos - 1])
            invariant
                j < events@.len(),
                pos <= order@.len(),
                order@.len() == j,
                forall|k: int| 0 <= k < order@.len() ==> #[trigger] order@[k] < j,
                forall|m: int|
                    pos <= m < order@.len() ==> precedes(
                        events@[j as int],
                        j as int,
                        events@[#[trigger] order@[m] as int],
                        order@[m] as int,
                    ),
            decreases pos,
        {
            pos = pos - 1;
        }
        let ghost before = order@;
        proof {
            if pos > 0 {
                let p = before[pos - 1] as int;
                lemma_precedes_total(events@[j as int], j as int, events@[p], p);
            }
            assert forall|k: int| 0 <= k < pos implies precedes(
                events@[before[k] as int],
                before[k] as int,
                events@[j as int],
                j as int,
            ) by {
                let p = before[pos - 1] as int;
                if k < pos - 1 {
                    lemma_precedes_transitive(
                        events@[before[k] as int],
                        before[k] as int,
                        events@[p],
                        p,
                        events@[j as int],
                        j as int,
                    );
                }
            }
        }
        order.insert(pos, j);
        proof {
            assert(order@ == before.insert(pos as int, j));
            assert forall|k1: int, k2: int| 0 <= k1 < k2 < order@.len() implies precedes(
                events@[order@[k1] as int],
                order@[k1] as int,
                events@[order@[k2] as int],
                order@[k2] as int,
            ) by {
                if k1 < pos && k2 == pos {
                } else if k1 == pos {
                    assert(order@[k2] == before[k2 - 1]);
                } else if k2 < pos {
                    assert(order@[k1] == before[k1] && order@[k2] == before[k2]);
                } else if k1 < pos {
                    assert(order@[k1] == before[k1] && order@[k2] == before[k2 - 1]);
                } else {
                    assert(order@[k1] == before[k1 - 1] && order@[k2] == before[k2 - 1]);
                }
            }
            assert forall|x: int| 0 <= x < j + 1 implies #[trigger] lists(order@, x) by {
                if x == j {
                    assert(order@[pos as int] == j);
                } else {
                    assert(lists(before, x));
                    let k = choose|k: int| 0 <= k < before.len() && #[trigger] before[k] == x;
                    if k < pos {
                        assert(order@[k] == x);
                    } else {
                        assert(order@[k + 1] == x);
                    }
                }
            }
            assert forall|k: int| 0 <= k < order@.len() implies #[trigger] order@[k] < j + 1 by {
                if k < pos {
                    assert(order@[k] == before[k]);
                } else if k > pos {
                    assert(order@[k] == before[k - 1]);
                }
            }
        }
        j = j + 1;
    }
    order
}

/// A copy of an event.
pub fn duplicate_event(e: &NotificationEvent) -> (r: NotificationEvent)
    ensures
        r == *e,
{
    NotificationEvent {
        project: e.project.clone(),
        host: e.host.clone(),
        service: e.service.clone(),
        artifact: clone_opt_string(&e.artifact),
        vulnerability_id: clone_opt_string(&e.vulnerability_id),
        severity: e.severity,
        runtime_risk: e.runtime_risk,
        exposure: e.exposure,
        reason: e.reason.clone(),
        recommended_action: clone_opt_string(&e.recommended_action),
    }
}

/// `sorted` holds the events of `events` in stable priority order: highest
/// risk first, then by service and vulnerability id, ties in their order.
pub open spec fn sorted_by_priority(sorted: Seq<NotificationEvent>, events: Seq<NotificationEvent>) -> bool {
    exists|order: Seq<usize>|
        #![trigger stable_order(order, events)]
        stable_order(order, events) && sorted.len() == events.len() && (forall|k: int|
            0 <= k < sorted.len() ==> #[trigger] sorted[k] == events[order[k] as int])
}

/// The events in stable priority order.
pub fn sort_events(events: &Vec<NotificationEvent>) -> (sorted: Vec<NotificationEvent>)
    ensures
        sorted_by_priority(sorted@, events@),
{
    let order = priority_order(events);
    let mut sorted: Vec<NotificationEvent> = Vec::new();
    let mut k: usize = 0;
    while k < order.len()
        invariant
            stable_order(order@, events@),
            k <= order@.len(),
            sorted@.len() == k,
            forall|m: int| 0 <= m < k ==> #[trigger] sorted@[m] == events@[order@[m] as int],
        decreases order@.len() - k,
    {
        assert(order@[k as int] < events@.len());
        sorted.push(duplicate_event(&events[order[k]]));
        k = k + 1;
    }
    assert(stable_order(order@, events@));
    sorted
}

/// Earlier notifications, as (vulnerability id, service) keys, hold the key.
pub open spec fn notified(
    prior: Seq<(Option<String>, String)>,
    vulnerability_id: Seq<char>,
    service: Seq<char>,
) -> bool {
    exists|i: int|
        0 <= i < prior.len() && opt_view(#[trigger] prior[i].0) == Some(vulnerability_id)
            && prior[i].1@ == service
}

fn was_notified(prior: &[(Option<String>, String)], vulnerability_id: &str, service: &str) -> (b:
    bool)
    ensures
        b == notified(prior@, vulnerability_id@, service@),
{
    let mut i: usize = 0;
    while i < prior.len()
        invariant
            i <= prior@.len(),
            forall|j: int|
                0 <= j < i ==> !(opt_view(#[trigger] prior@[j].0) == Some(vulnerability_id@)
                    && prior@[j].1@ == service@),
        decreases prior@.len() - i,
    {
        let key = &prior[i];
        let same_vulnerability = match &key.0 {
            Some(v) => str_eq(v.as_str(), vulnerability_id),
            None => false,
        };
        if same_vulnerability && str_eq(key.1.as_str(), service) {
            return true;
        }
        i = i + 1;
    }
    false
}

/// The index of the last inventory item with id `id`, the one a lookup table
/// built from the inventory keeps.
pub open spec fn last_with_id(inventory: Seq<InventoryItem>, id: Seq<char>) -> Option<int>
    decreases inventory.len(),
{
    if inventory.len() == 0 {
        None
    } else if inventory.last().id@ == id {
        Some(inventory.len() - 1)
    } else {
        last_with_id(inventory.drop_last(), id)
    }
}

pub fn find_item(inventory: &[InventoryItem], id: &str) -> (r: Option<usize>)
    ensures
        match last_with_id(inventory@, id@) {
            Some(k) => r == Some(k as usize) && 0 <= k < inventory@.len(),
            None => r is None,
        },
{
    let mut n: usize = inventory.len();
    assert(inventory@.take(n as int) == inventory@);
    while n > 0
        invariant
            n <= inventory@.len(),
            last_with_id(inventory@, id@) == last_with_id(inventory@.take(n as int), id@),
        decreases n,
    {
        let ghost t = inventory@.take(n as int);
        assert(t.last() == inventory@[n - 1]);
        if str_eq(inventory[n - 1].id.as_str(), id) {
            return Some(n - 1);
        }
        assert(t.drop_last() == inventory@.take(n - 1));
        n = n - 1;
    }
    None
}

/// What a notification names as the affected artifact: the item's image, else
/// its package.
pub open spec fn artifact_of(item: InventoryItem) -> Option<Seq<char>> {
    if item.image is Some {
        opt_view(item.image)
    } else {
        opt_view(item.package_name)
    }
}

/// The artifact of the inventory item a risk belongs to, if it is known.
pub open spec fn risk_artifact(inventory: Seq<InventoryItem>, risk: RiskEvaluation) -> Option<Seq<char>> {
    match last_with_id(inventory, risk.inventory_item_id@) {
        Some(k) => artifact_of(inventory[k]),
        None => None,
    }
}

/// `risk` is at least the level that notifications start at.
pub open spec fn notifiable_level(risk: RiskEvaluation, minimum: RiskLevel) -> bool {
    risk.risk.rank() >= minimum.rank()
}

/// Risk `j` is a stronger candidate for the same service and vulnerability
/// than risk `k`: a higher level, or the same level and earlier.
pub open spec fn outranks(risks: Seq<RiskEvaluation>, minimum: RiskLevel, j: int, k: int) -> bool {
    &&& 0 <= j < risks.len()
    &&& j != k
    &&& notifiable_level(risks[j], minimum)
    &&& risks[j].service_name@ == risks[k].service_name@
    &&& risks[j].vulnerability_id@ == risks[k].vulnerability_id@
    &&& (risks[j].risk.rank() > risks[k].risk.rank() || (risks[j].risk.rank()
        == risks[k].risk.rank() && j < k))
}

/// Risk `k` is the one notification candidate for its service and
/// vulnerability, and that key has not been notified before.
pub open spec fn risk_to_notify(
    risks: Seq<RiskEvaluation>,
    minimum: RiskLevel,
    prior: Seq<(Option<String>, String)>,
    k: int,
) -> bool {
    &&& 0 <= k < risks.len()
    &&& notifiable_level(risks[k], minimum)
    &&& !exists|j: int| #[trigger] outranks(risks, minimum, j, k)
    &&& !notified(prior, risks[k].vulnerability_id@, risks[k].service_name@)
}

/// `e` is the notification of `risk` on `host`.
pub open spec fn risk_event(
    e: NotificationEvent,
    risk: RiskEvaluation,
    artifact: Option<Seq<char>>,
    host: Seq<char>,
) -> bool {
    &&& e.project@ == "Norn"@
    &&& e.host@ == host
    &&& e.service == risk.service_name
    &&& opt_view(e.artifact) == artifact
    &&& e.vulnerability_id == Some(risk.vulnerability_id)
    &&& e.severity == Some(risk.severity)
    &&& e.runtime_risk == risk.risk
    &&& e.exposure == risk.exposure
    &&& e.reason == risk.reason
    &&& e.recommended_action == risk.recommended_action
}

/// How many of the first `n` risks are to be notified.
pub open spec fn count_to_notify(
    risks: Seq<RiskEvaluation>,
    minimum: RiskLevel,
    prior: Seq<(Option<String>, String)>,
    n: int,
) -> nat
    decreases n,
{
    if n <= 0 {
        0
    } else {
        count_to_notify(risks, minimum, prior, n - 1) + if risk_to_notify(risks, minimum, prior, n - 1) {
            1nat
        } else {
            0nat
        }
    }
}

/// `events` notifies each risk that is to be notified exactly once, in strict
/// priority order.
pub open spec fn risk_events_for(
    events: Seq<NotificationEvent>,
    inventory: Seq<InventoryItem>,
    risks: Seq<RiskEvaluation>,
    minimum: RiskLevel,
    prior: Seq<(Option<String>, String)>,
    host: Seq<char>,
) -> bool {
    &&& exists|picked: Seq<int>|
        #![trigger picked.len()]
        {
            &&& picked.len() == events.len()
            &&& forall|k: int|
                0 <= k < events.len() ==> risk_to_notify(risks, minimum, prior, #[trigger] picked[k])
                    && risk_event(
                    events[k],
                    risks[picked[k]],
                    risk_artifact(inventory, risks[picked[k]]),
                    host,
                )
            &&& forall|i: int|
                #![trigger risk_to_notify(risks, minimum, prior, i)]
                risk_to_notify(risks, minimum, prior, i) ==> exists|k: int|
                    0 <= k < picked.len() && #[trigger] picked[k] == i
        }
    &&& forall|k1: int, k2: int| 0 <= k1 < k2 < events.len() ==> key_lt(events[k1], events[k2])
    &&& events.len() == count_to_notify(risks, minimum, prior, risks.len() as int)
}

proof fn lemma_candidates_distinct(
    risks: Seq<RiskEvaluation>,
    minimum: RiskLevel,
    prior: Seq<(Option<String>, String)>,
    a: int,
    b: int,
)
    requires
        risk_to_notify(risks, minimum, prior, a),
        risk_to_notify(risks, minimum, prior, b),
        a != b,
    ensures
        risks[a].service_name@ != risks[b].service_name@ || risks[a].vulnerability_id@
            != risks[b].vulnerability_id@,
{
    if risks[a].service_name@ == risks[b].service_name@ && risks[a].vulnerability_id@
        == risks[b].vulnerability_id@ {
        if risks[a].risk.rank() > risks[b].risk.rank() || (risks[a].risk.rank()
            == risks[b].risk.rank() && a < b) {
            assert(outranks(risks, minimum, a, b));
        } else {
            assert(outranks(risks, minimum, b, a));
        }
    }
}

fn risk_is_candidate(risks: &[RiskEvaluation], minimum: RiskLevel, k: usize) -> (b: bool)
    requires
        k < risks@.len(),
    ensures
        b == (notifiable_level(risks@[k as int], minimum) && !exists|j: int|
            #[trigger] outranks(risks@, minimum, j, k as int)),
{
    let risk = &risks[k];
    if !risk.risk.at_least(minimum) {
        return false;
    }
    let mut j: usize = 0;
    while j < risks.len()
        invariant
            k < risks@.len(),
            j <= risks@.len(),
            forall|m: int| 0 <= m < j ==> !#[trigger] outranks(risks@, minimum, m, k as int),
        decreases risks@.len() - j,
    {
        let risk = &risks[k];
        let other = &risks[j];
        if j != k && other.risk.at_least(minimum) && str_eq(
            other.service_name.as_str(),
            risk.service_name.as_str(),
        ) && str_eq(other.vulnerability_id.as_str(), risk.vulnerability_id.as_str()) && (
        other.risk.score()
            > risk.risk.score() || (other.risk.score() == risk.risk.score() && j < k)) {
            assert(outranks(risks@, minimum, j as int, k as int));
            return false;
        }
        j = j + 1;
    }
    true
}

fn artifact_for(inventory: &[InventoryItem], risk: &RiskEvaluation) -> (a: Option<String>)
    ensures
        opt_view(a) == risk_artifact(inventory@, *risk),
{
    match find_item(inventory, risk.inventory_item_id.as_str()) {
        Some(k) => {
            let item = &inventory[k];
            match &item.image {
                Some(image) => Some(image.clone()),
                None => clone_opt_string(&item.package_name),
            }
        },
        None => None,
    }
}

fn event_for_risk(inventory: &[InventoryItem], risk: &RiskEvaluation, host: &String) -> (e:
    NotificationEvent)
    ensures
        risk_event(e, *risk, risk_artifact(inventory@, *risk), host@),
{
    NotificationEvent {
        project: String::from_str("Norn"),
        host: host.clone(),
        service: risk.service_name.clone(),
        artifact: artifact_for(inventory, risk),
        vulnerability_id: Some(risk.vulnerability_id.clone()),
        severity: Some(risk.severity),
        runtime_risk: risk.risk,
        exposure: risk.exposure,
        reason: risk.reason.clone(),
        recommended_action: clone_opt_string(&risk.recommended_action),
    }
}

/// Notifications for new risks at or above `minimum`: one per service and
/// vulnerability (from its highest risk, the earliest among equals), none
/// for a key notified before, highest priority first.
pub fn notification_events_for_risks(
    inventory: &[InventoryItem],
    risks: &[RiskEvaluation],
    minimum: RiskLevel,
    prior: &[(Option<String>, String)],
    host: &String,
) -> (events: Vec<NotificationEvent>)
    ensures
        risk_events_for(events@, inventory@, risks@, minimum, prior@, host@),
{
    let mut picked: Vec<usize> = Vec::new();
    let mut raw: Vec<NotificationEvent> = Vec::new();
    let mut i: usize = 0;
    while i < risks.len()
        invariant
            i <= risks@.len(),
            raw@.len() == picked@.len(),
            picked@.len() == count_to_notify(risks@, minimum, prior@, i as int),
            forall|k: int|
                0 <= k < picked@.len() ==> #[trigger] picked@[k] < i && risk_to_notify(
                    risks@,
                    minimum,
                    prior@,
                    picked@[k] as int,
                ) && risk_event(
                    raw@[k],
                    risks@[picked@[k] as int],
                    risk_artifact(inventory@, risks@[picked@[k] as int]),
                    host@,
                ),
            forall|k1: int, k2: int|
                0 <= k1 < k2 < picked@.len() ==> picked@[k1] < picked@[k2],
            forall|x: int|
                0 <= x < i && risk_to_notify(risks@, minimum, prior@, x) ==> exists|k: int|
                    0 <= k < picked@.len() && #[trigger] picked@[k] == x,
        decreases risks@.len() - i,
    {
        let risk = &risks[i];
        if risk_is_candidate(risks, minimum, i) && !was_notified(
            prior,
            risk.vulnerability_id.as_str(),
            risk.service_name.as_str(),
        ) {
            let ghost before = picked@;
            picked.push(i);
            raw.push(event_for_risk(inventory, risk, host));
            proof {
                assert forall|x: int|
                    0 <= x < i + 1 && risk_to_notify(risks@, minimum, prior@, x) implies exists|k: int|
                    0 <= k < picked@.len() && #[trigger] picked@[k] == x by {
                    if x == i {
                        assert(picked@[before.len() as int] == i);
                    } else {
                        let k = choose|k: int| 0 <= k < before.len() && #[trigger] before[k] == x;
                        assert(picked@[k] == x);
                    }
                }
            }
        }
        i = i + 1;
    }
    let events = sort_events(&raw);
    proof {
        let order = choose|order: Seq<usize>|
            #![trigger stable_order(order, raw@)]
            stable_order(order, raw@) && events@.len() == raw@.len() && (forall|k: int|
                0 <= k < events@.len() ==> #[trigger] events@[k] == raw@[order[k] as int]);
        let sorted_picks = Seq::new(order.len(), |k: int| picked@[order[k] as int] as int);
        assert forall|k: int| 0 <= k < events@.len() implies risk_to_notify(
            risks@,
            minimum,
            prior@,
            #[trigger] sorted_picks[k],
        ) && risk_event(
            events@[k],
            risks@[sorted_picks[k]],
            risk_artifact(inventory@, risks@[sorted_picks[k]]),
            host@,
        ) by {
            assert(order[k] < raw@.len());
            assert(events@[k] == raw@[order[k] as int]);
        }
        assert forall|x: int|
            #![trigger risk_to_notify(risks@, minimum, prior@, x)]
            risk_to_notify(risks@, minimum, prior@, x) implies exists|k: int|
            0 <= k < sorted_picks.len() && #[trigger] sorted_picks[k] == x by {
            let m = choose|m: int| 0 <= m < picked@.len() && #[trigger] picked@[m] == x;
            assert(lists(order, m));
            let k = choose|k: int| 0 <= k < order.len() && #[trigger] order[k] == m;
            assert(sorted_picks[k] == x);
        }
        assert forall|k1: int, k2: int| 0 <= k1 < k2 < events@.len() implies key_lt(
            events@[k1],
            events@[k2],
        ) by {
            let (a, b) = (order[k1] as int, order[k2] as int);
            assert(precedes(raw@[a], a, raw@[b], b));
            assert(events@[k1] == raw@[a] && events@[k2] == raw@[b]);
            if a == b {
                lemma_key_lt_irreflexive(raw@[a]);
            } else {
                lemma_candidates_distinct(risks@, minimum, prior@, picked@[a] as int, picked@[b] as int);
            }
        }
        assert(sorted_picks.len() == events@.len());
    }
    events
}


/// The alert key of a privileged container.
pub open spec fn privileged_key() -> Seq<char> {
    "NORN-PRIVILEGED-CONTAINER"@
}

/// The alert key of a container that mounts the Docker socket.
pub open spec fn socket_key() -> Seq<char> {
    "NORN-DOCKER-SOCKET-MOUNT"@
}

/// The hardening alerts one inventory item raises, by key: for a running
/// container, privileged first, then the socket mount, each unless it was
/// notified for the item before.
pub open spec fn item_alerts(item: InventoryItem, prior: Seq<(Option<String>, String)>) -> Seq<Seq<char>> {
    match item.docker {
        Some(d) => if !item.status.runs() {
            Seq::empty()
        } else {
            let p = if d.privileged && !notified(prior, privileged_key(), item.name@) {
                seq![privileged_key()]
            } else {
                Seq::empty()
            };
            let s = if d.docker_socket_mounted && !notified(prior, socket_key(), item.name@) {
                seq![socket_key()]
            } else {
                Seq::empty()
            };
            p + s
        },
        None => Seq::empty(),
    }
}

/// The hardening alerts of an inventory, in inventory order, each as the index
/// of its item and its key.
pub open spec fn container_alerts(inventory: Seq<InventoryItem>, prior: Seq<(Option<String>, String)>) -> Seq<(int, Seq<char>)>
    decreases inventory.len(),
{
    if inventory.len() == 0 {
        Seq::empty()
    } else {
        let n = inventory.len() - 1;
        container_alerts(inventory.drop_last(), prior) + item_alerts(inventory.last(), prior).map_values(
            |key: Seq<char>| (n, key),
        )
    }
}

/// The runtime risk an alert is sent with.
pub open spec fn alert_risk(key: Seq<char>) -> RiskLevel {
    if key == privileged_key() {
        RiskLevel::High
    } else {
        RiskLevel::Critical
    }
}

/// The reason an alert gives.
pub open spec fn alert_reason(key: Seq<char>) -> Seq<char> {
    if key == privileged_key() {
        "Container is running with privileged=true"@
    } else {
        "Container mounts /var/run/docker.sock"@
    }
}

/// The action an alert recommends.
pub open spec fn alert_action(key: Seq<char>) -> Seq<char> {
    if key == privileged_key() {
        "Remove privileged mode or isolate this workload."@
    } else {
        "Remove the Docker socket mount or place it behind a restricted socket proxy."@
    }
}

/// `e` is the alert `key` for `item` on `host`.
pub open spec fn alert_event(e: NotificationEvent, item: InventoryItem, key: Seq<char>, host: Seq<char>) -> bool {
    &&& e.project@ == "Norn"@
    &&& e.host@ == host
    &&& e.service@ == item.name@
    &&& opt_view(e.artifact) == opt_view(item.image)
    &&& opt_view(e.vulnerability_id) == Some(key)
    &&& e.severity is None
    &&& e.runtime_risk == alert_risk(key)
    &&& e.exposure == item.exposure
    &&& e.reason@ == alert_reason(key)
    &&& opt_view(e.recommended_action) == Some(alert_action(key))
}

/// `events` are the hardening alerts of `inventory`, in order.
pub open spec fn alert_events_for(
    events: Seq<NotificationEvent>,
    inventory: Seq<InventoryItem>,
    prior: Seq<(Option<String>, String)>,
    host: Seq<char>,
) -> bool {
    let alerts = container_alerts(inventory, prior);
    &&& events.len() == alerts.len()
    &&& forall|k: int|
        0 <= k < events.len() ==> 0 <= #[trigger] alerts[k].0 < inventory.len() && alert_event(
            events[k],
            inventory[alerts[k].0],
            alerts[k].1,
            host,
        )
}

fn alert_for(item: &InventoryItem, privileged: bool, host: &String) -> (e: NotificationEvent)
    ensures
        alert_event(e, *item, if privileged { privileged_key() } else { socket_key() }, host@),
{
    proof {
        reveal_strlit("NORN-PRIVILEGED-CONTAINER");
        reveal_strlit("NORN-DOCKER-SOCKET-MOUNT");
        assert(privileged_key()[5] != socket_key()[5]);
    }
    let (key, risk, reason, action) = if privileged {
        (
            String::from_str("NORN-PRIVILEGED-CONTAINER"),
            RiskLevel::High,
            String::from_str("Container is running with privileged=true"),
            String::from_str("Remove privileged mode or isolate this workload."),
        )
    } else {
        (
            String::from_str("NORN-DOCKER-SOCKET-MOUNT"),
            RiskLevel::Critical,
            String::from_str("Container mounts /var/run/docker.sock"),
            String::from_str(
                "Remove the Docker socket mount or place it behind a restricted socket proxy.",
            ),
        )
    };
    NotificationEvent {
        project: String::from_str("Norn"),
        host: host.clone(),
        service: item.name.clone(),
        artifact: clone_opt_string(&item.image),
        vulnerability_id: Some(key),
        severity: None,
        runtime_risk: risk,
        exposure: item.exposure,
        reason,
        recommended_action: Some(action),
    }
}

/// Hardening alerts for running privileged containers and running containers
/// that mount the Docker socket, each once per container name across scans.
pub fn notification_events_for_sensitive_containers(
    inventory: &[InventoryItem],
    prior: &[(Option<String>, String)],
    host: &String,
) -> (events: Vec<NotificationEvent>)
    ensures
        alert_events_for(events@, inventory@, prior@, host@),
{
    let mut events: Vec<NotificationEvent> = Vec::new();
    let mut i: usize = 0;
    while i < inventory.len()
        invariant
            i <= inventory@.len(),
            alert_events_for(events@, inventory@.take(i as int), prior@, host@),
        decreases inventory@.len() - i,
    {
        let ghost before = events@;
        let item = &inventory[i];
        let ghost alerts_before = container_alerts(inventory@.take(i as int), prior@);
        proof {
            assert(inventory@.take(i + 1).drop_last() == inventory@.take(i as int));
            assert(inventory@.take(i + 1).last() == inventory@[i as int]);
        }
        match &item.docker {
            Some(docker) if item.is_running() => {
                if docker.privileged && !was_notified(
                    prior,
                    "NORN-PRIVILEGED-CONTAINER",
                    item.name.as_str(),
                ) {
                    events.push(alert_for(item, true, host));
                }
                if docker.docker_socket_mounted && !was_notified(
                    prior,
                    "NORN-DOCKER-SOCKET-MOUNT",
                    item.name.as_str(),
                ) {
                    events.push(alert_for(item, false, host));
                }
            },
            _ => {},
        }
        proof {
            let all = container_alerts(inventory@.take(i + 1), prior@);
            let added = item_alerts(inventory@[i as int], prior@);
            assert(all == alerts_before + added.map_values(|key: Seq<char>| (i as int, key)));
            assert(events@.len() == before.len() + added.len());
            assert forall|k: int| 0 <= k < events@.len() implies 0 <= #[trigger] all[k].0 < inventory@.take(
                i + 1,
            ).len() && alert_event(
                events@[k],
                inventory@.take(i + 1)[all[k].0],
                all[k].1,
                host@,
            ) by {
                if k < before.len() {
                    assert(all[k] == alerts_before[k]);
                    assert(events@[k] == before[k]);
                    assert(inventory@.take(i + 1)[all[k].0] == inventory@.take(i as int)[all[k].0]);
                } else {
                    assert(all[k] == (i as int, added[k - before.len()]));
                }
            }
        }
        i = i + 1;
    }
    assert(inventory@.take(inventory@.len() as int) == inventory@);
    events
}


/// The key of the message that summarizes what a scan's cap held back.
pub open spec fn summary_key() -> Seq<char> {
    "NORN-NOTIFICATION-SUMMARY"@
}

/// The reason the summary message gives.
pub open spec fn summary_reason(sent: nat, suppressed: nat) -> Seq<char> {
    "Norn found more new notification candidates than the configured per-scan cap. Sent "@
        + decimal(sent) + " individual notifications and summarized "@ + decimal(suppressed)
        + " additional candidates."@
}

/// The action the summary message recommends.
pub open spec fn summary_action(cap: nat) -> Seq<char> {
    "Review the dashboard or report for the full scan. Increase risk.max_notifications_per_scan above "@
        + decimal(cap) + " if you want more individual alerts."@
}

/// `e` is the summary message of a scan on `host` that sent `sent` individual
/// notifications, held back `suppressed` candidates, under cap `cap`.
pub open spec fn summary_event(e: NotificationEvent, host: Seq<char>, sent: nat, suppressed: nat, cap: nat) -> bool {
    &&& e.project@ == "Norn"@
    &&& e.host@ == host
    &&& e.service@ == "scan-summary"@
    &&& e.artifact is None
    &&& opt_view(e.vulnerability_id) == Some(summary_key())
    &&& e.severity is None
    &&& e.runtime_risk == RiskLevel::High
    &&& e.exposure == Exposure::Unknown
    &&& e.reason@ == summary_reason(sent, suppressed)
    &&& opt_view(e.recommended_action) == Some(summary_action(cap))
}

fn decimal_string(n: usize) -> (s: String)
    ensures
        s@ == decimal(n as nat),
{
    let cs = decimal_chars(n as u64);
    string_of(cs.as_slice())
}

/// The summary message for a scan that hit its notification cap.
pub fn notification_summary_event(host: &String, sent: usize, suppressed: usize, cap: usize) -> (e:
    NotificationEvent)
    ensures
        summary_event(e, host@, sent as nat, suppressed as nat, cap as nat),
{
    let sent_text = decimal_string(sent);
    let suppressed_text = decimal_string(suppressed);
    let cap_text = decimal_string(cap);
    let head = concat3(
        "Norn found more new notification candidates than the configured per-scan cap. Sent ",
        sent_text.as_str(),
        " individual notifications and summarized ",
    );
    let reason = concat3(head.as_str(), suppressed_text.as_str(), " additional candidates.");
    let action = concat3(
        "Review the dashboard or report for the full scan. Increase risk.max_notifications_per_scan above ",
        cap_text.as_str(),
        " if you want more individual alerts.",
    );
    NotificationEvent {
        project: String::from_str("Norn"),
        host: host.clone(),
        service: String::from_str("scan-summary"),
        artifact: None,
        vulnerability_id: Some(String::from_str("NORN-NOTIFICATION-SUMMARY")),
        severity: None,
        runtime_risk: RiskLevel::High,
        exposure: Exposure::Unknown,
        reason,
        recommended_action: Some(action),
    }
}

/// The notifications one scan sends, and how many candidates the cap held
/// back.
#[derive(Debug, Clone, PartialEq, Eq)]
pub struct NotificationBatch {
    pub events: Vec<NotificationEvent>,
    pub suppressed: usize,
}

/// `batch` sends the candidates `sorted` (in priority order) within `limit`
/// messages: all of them when they fit; none when the limit is 0; else the
/// first `limit - 1` and a summary of the rest.
pub open spec fn capped(batch: NotificationBatch, sorted: Seq<NotificationEvent>, limit: nat, host: Seq<char>) -> bool {
    if sorted.len() <= limit {
        batch.events@ == sorted && batch.suppressed == 0
    } else if limit == 0 {
        batch.events@.len() == 0 && batch.suppressed == sorted.len()
    } else {
        let kept = limit - 1;
        &&& batch.suppressed == sorted.len() - kept
        &&& batch.events@.len() == limit
        &&& batch.events@.take(kept) == sorted.take(kept)
        &&& summary_event(batch.events@[kept], host, kept as nat, batch.suppressed as nat, limit)
    }
}

/// Applies the per-scan cap to candidates in priority order.
pub fn cap_notifications(sorted: Vec<NotificationEvent>, limit: usize, host: &String) -> (batch:
    NotificationBatch)
    ensures
        capped(batch, sorted@, limit as nat, host@),
{
    let total = sorted.len();
    if total <= limit {
        return NotificationBatch { events: sorted, suppressed: 0 };
    }
    if limit == 0 {
        return NotificationBatch { events: Vec::new(), suppressed: total };
    }
    let kept = limit - 1;
    let mut events = sorted;
    events.truncate(kept);
    let suppressed = total - kept;
    let summary = notification_summary_event(host, kept, suppressed, limit);
    let ghost before = events@;
    events.push(summary);
    assert(events@.take(kept as int) == before);
    NotificationBatch { events, suppressed }
}

/// How many new notification candidates a scan has: risks to notify and
/// hardening alerts.
pub open spec fn candidate_total(
    inventory: Seq<InventoryItem>,
    risks: Seq<RiskEvaluation>,
    minimum: RiskLevel,
    prior: Seq<(Option<String>, String)>,
) -> nat {
    count_to_notify(risks, minimum, prior, risks.len() as int) + container_alerts(inventory, prior).len()
}

/// `batch` is the capped, priority-ordered plan of the risk notifications
/// `risk_events` and hardening alerts `alert_events`, sorted into `sorted`.
pub open spec fn batch_from(
    batch: NotificationBatch,
    risk_events: Seq<NotificationEvent>,
    alert_events: Seq<NotificationEvent>,
    sorted: Seq<NotificationEvent>,
    inventory: Seq<InventoryItem>,
    risks: Seq<RiskEvaluation>,
    minimum: RiskLevel,
    limit: nat,
    prior: Seq<(Option<String>, String)>,
    host: Seq<char>,
) -> bool {
    &&& risk_events_for(risk_events, inventory, risks, minimum, prior, host)
    &&& alert_events_for(alert_events, inventory, prior, host)
    &&& sorted_by_priority(sorted, risk_events + alert_events)
    &&& capped(batch, sorted, limit, host)
}

/// `batch` is what a scan notifies: its new risk notifications and hardening
/// alerts, highest priority first, within the cap.
pub open spec fn prepared_batch(
    batch: NotificationBatch,
    inventory: Seq<InventoryItem>,
    risks: Seq<RiskEvaluation>,
    minimum: RiskLevel,
    limit: nat,
    prior: Seq<(Option<String>, String)>,
    host: Seq<char>,
) -> bool {
    exists|r: Seq<NotificationEvent>, a: Seq<NotificationEvent>, s: Seq<NotificationEvent>|
        #[trigger] batch_from(batch, r, a, s, inventory, risks, minimum, limit, prior, host)
}

/// The notifications of one scan: new risks at or above the configured
/// minimum and new hardening alerts, deduplicated against `prior` (the keys
/// of notifications sent before), highest priority first, capped at the
/// configured number of messages with a summary of the rest.
pub fn prepare_notification_batch(
    inventory: &[InventoryItem],
    risks: &[RiskEvaluation],
    prior: &[(Option<String>, String)],
    risk_config: &RiskConfig,
    host: &String,
) -> (batch: NotificationBatch)
    ensures
        prepared_batch(
            batch,
            inventory@,
            risks@,
            risk_config.notify_minimum,
            risk_config.max_notifications_per_scan as nat,
            prior@,
            host@,
        ),
{
    let risk_events = notification_events_for_risks(
        inventory,
        risks,
        risk_config.notify_minimum,
        prior,
        host,
    );
    let mut alerts = notification_events_for_sensitive_containers(inventory, prior, host);
    let ghost r = risk_events@;
    let ghost a = alerts@;
    let mut all = risk_events;
    all.append(&mut alerts);
    let sorted = sort_events(&all);
    let ghost s = sorted@;
    let batch = cap_notifications(sorted, risk_config.max_notifications_per_scan, host);
    assert(batch_from(
        batch,
        r,
        a,
        s,
        inventory@,
        risks@,
        risk_config.notify_minimum,
        risk_config.max_notifications_per_scan as nat,
        prior@,
        host@,
    ));
    batch
}


/// The cap on notifications: a scan sends at most `limit` messages; all its
/// candidates when they fit, with nothing held back; none when the limit is 0,
/// holding all back; else `limit - 1` individual notifications and one summary
/// that counts the rest, so that sent and held back add up to all candidates.
pub proof fn lemma_batch_respects_cap(
    batch: NotificationBatch,
    inventory: Seq<InventoryItem>,
    risks: Seq<RiskEvaluation>,
    minimum: RiskLevel,
    limit: nat,
    prior: Seq<(Option<String>, String)>,
    host: Seq<char>,
)
    requires
        prepared_batch(batch, inventory, risks, minimum, limit, prior, host),
    ensures
        batch.events@.len() <= limit,
        candidate_total(inventory, risks, minimum, prior) <= limit ==> batch.suppressed == 0
            && batch.events@.len() == candidate_total(inventory, risks, minimum, prior),
        limit == 0 ==> batch.events@.len() == 0 && batch.suppressed == candidate_total(
            inventory,
            risks,
            minimum,
            prior,
        ),
        0 < limit < candidate_total(inventory, risks, minimum, prior) ==> {
            &&& batch.events@.len() == limit
            &&& batch.suppressed + (limit - 1) == candidate_total(inventory, risks, minimum, prior)
            &&& summary_event(
                batch.events@[limit - 1],
                host,
                (limit - 1) as nat,
                batch.suppressed as nat,
                limit,
            )
        },
{
    let (r, a, s) = choose|r: Seq<NotificationEvent>, a: Seq<NotificationEvent>, s: Seq<NotificationEvent>|
        #[trigger] batch_from(batch, r, a, s, inventory, risks, minimum, limit, prior, host);
    assert(s.len() == (r + a).len());
}

/// Every container alert names an item of the inventory and a key not
/// notified before for that item.
proof fn lemma_alerts_are_new(inventory: Seq<InventoryItem>, prior: Seq<(Option<String>, String)>)
    ensures
        forall|k: int|
            0 <= k < container_alerts(inventory, prior).len() ==> {
                let (i, key) = #[trigger] container_alerts(inventory, prior)[k];
                &&& 0 <= i < inventory.len()
                &&& !notified(prior, key, inventory[i].name@)
            },
    decreases inventory.len(),
{
    if inventory.len() > 0 {
        let rest = inventory.drop_last();
        lemma_alerts_are_new(rest, prior);
        let n = inventory.len() - 1;
        let added = item_alerts(inventory.last(), prior);
        let all = container_alerts(inventory, prior);
        let before = container_alerts(rest, prior);
        assert(all == before + added.map_values(|key: Seq<char>| (n, key)));
        assert forall|k: int| 0 <= k < all.len() implies {
            let (i, key) = #[trigger] all[k];
            &&& 0 <= i < inventory.len()
            &&& !notified(prior, key, inventory[i].name@)
        } by {
            if k < before.len() {
                assert(all[k] == before[k]);
                assert(inventory[before[k].0] == rest[before[k].0]);
            } else {
                assert(all[k] == (n, added[k - before.len()]));
            }
        }
    }
}

/// `e` names a vulnerability id that was not notified before for its service.
pub open spec fn is_new(e: NotificationEvent, prior: Seq<(Option<String>, String)>) -> bool {
    match opt_view(e.vulnerability_id) {
        Some(id) => !notified(prior, id, e.service@),
        None => false,
    }
}

/// Notifications are not repeated across scans: every message of a batch but
/// the summary is for a service and vulnerability (or alert) not notified
/// before.
pub proof fn lemma_batch_sends_only_new(
    batch: NotificationBatch,
    inventory: Seq<InventoryItem>,
    risks: Seq<RiskEvaluation>,
    minimum: RiskLevel,
    limit: nat,
    prior: Seq<(Option<String>, String)>,
    host: Seq<char>,
)
    requires
        prepared_batch(batch, inventory, risks, minimum, limit, prior, host),
    ensures
        forall|k: int|
            0 <= k < batch.events@.len() && (batch.suppressed == 0 || k < batch.events@.len() - 1)
                ==> is_new(#[trigger] batch.events@[k], prior),
{
    let (r, a, s) = choose|r: Seq<NotificationEvent>, a: Seq<NotificationEvent>, s: Seq<NotificationEvent>|
        #[trigger] batch_from(batch, r, a, s, inventory, risks, minimum, limit, prior, host);
    let all = r + a;
    let order = choose|order: Seq<usize>|
        #![trigger stable_order(order, all)]
        stable_order(order, all) && s.len() == all.len() && (forall|k: int|
            0 <= k < s.len() ==> #[trigger] s[k] == all[order[k] as int]);
    lemma_alerts_are_new(inventory, prior);
    let picked = choose|picked: Seq<int>|
        #![trigger picked.len()]
        {
            &&& picked.len() == r.len()
            &&& forall|k: int|
                0 <= k < r.len() ==> risk_to_notify(risks, minimum, prior, #[trigger] picked[k])
                    && risk_event(
                    r[k],
                    risks[picked[k]],
                    risk_artifact(inventory, risks[picked[k]]),
                    host,
                )
            &&& forall|i: int|
                #![trigger risk_to_notify(risks, minimum, prior, i)]
                risk_to_notify(risks, minimum, prior, i) ==> exists|k: int|
                    0 <= k < picked.len() && #[trigger] picked[k] == i
        };
    assert forall|k: int|
        0 <= k < batch.events@.len() && (batch.suppressed == 0 || k < batch.events@.len() - 1)
            implies is_new(#[trigger] batch.events@[k], prior) by {
        if s.len() > limit && limit > 0 {
            assert(batch.events@.take(limit - 1)[k] == s.take(limit - 1)[k]);
        }
        assert(batch.events@[k] == s[k]);
        let j = order[k] as int;
        assert(s[k] == all[j]);
        if j < r.len() {
            assert(all[j] == r[j]);
            assert(risk_to_notify(risks, minimum, prior, picked[j]));
        } else {
            let m = j - r.len();
            assert(all[j] == a[m]);
            let alerts = container_alerts(inventory, prior);
            assert(alert_event(a[m], inventory[alerts[m].0], alerts[m].1, host));
        }
    }
}

/// Higher risks are notified first: among the individual messages of a batch,
/// runtime risk never rises from one message to a later one.
pub proof fn lemma_batch_highest_risk_first(
    batch: NotificationBatch,
    inventory: Seq<InventoryItem>,
    risks: Seq<RiskEvaluation>,
    minimum: RiskLevel,
    limit: nat,
    prior: Seq<(Option<String>, String)>,
    host: Seq<char>,
)
    requires
        prepared_batch(batch, inventory, risks, minimum, limit, prior, host),
    ensures
        forall|k1: int, k2: int|
            0 <= k1 < k2 < batch.events@.len() && (batch.suppressed == 0 || k2 < batch.events@.len()
                - 1) ==> (#[trigger] batch.events@[k1]).runtime_risk.rank() >= (
            #[trigger] batch.events@[k2]).runtime_risk.rank(),
{
    let (r, a, s) = choose|r: Seq<NotificationEvent>, a: Seq<NotificationEvent>, s: Seq<NotificationEvent>|
        #[trigger] batch_from(batch, r, a, s, inventory, risks, minimum, limit, prior, host);
    let all = r + a;
    let order = choose|order: Seq<usize>|
        #![trigger stable_order(order, all)]
        stable_order(order, all) && s.len() == all.len() && (forall|k: int|
            0 <= k < s.len() ==> #[trigger] s[k] == all[order[k] as int]);
    assert forall|k1: int, k2: int|
        0 <= k1 < k2 < batch.events@.len() && (batch.suppressed == 0 || k2 < batch.events@.len()
            - 1) implies (#[trigger] batch.events@[k1]).runtime_risk.rank() >= (
        #[trigger] batch.events@[k2]).runtime_risk.rank() by {
        if s.len() > limit && limit > 0 {
            assert(batch.events@.take(limit - 1)[k1] == s.take(limit - 1)[k1]);
            assert(batch.events@.take(limit - 1)[k2] == s.take(limit - 1)[k2]);
        }
        assert(batch.events@[k1] == s[k1] && batch.events@[k2] == s[k2]);
        assert(precedes(
            all[order[k1] as int],
            order[k1] as int,
            all[order[k2] as int],
            order[k2] as int,
        ));
    }
}

/// Within a scan, one notification per service and vulnerability id.
pub proof fn lemma_risk_events_one_per_key(
    events: Seq<NotificationEvent>,
    inventory: Seq<InventoryItem>,
    risks: Seq<RiskEvaluation>,
    minimum: RiskLevel,
    prior: Seq<(Option<String>, String)>,
    host: Seq<char>,
)
    requires
        risk_events_for(events, inventory, risks, minimum, prior, host),
    ensures
        forall|k1: int, k2: int|
            0 <= k1 < k2 < events.len() ==> (#[trigger] events[k1]).service@ != (
            #[trigger] events[k2]).service@ || opt_view(events[k1].vulnerability_id) != opt_view(
                events[k2].vulnerability_id,
            ),
{
    let picked = choose|picked: Seq<int>|
        #![trigger picked.len()]
        {
            &&& picked.len() == events.len()
            &&& forall|k: int|
                0 <= k < events.len() ==> risk_to_notify(risks, minimum, prior, #[trigger] picked[k])
                    && risk_event(
                    events[k],
                    risks[picked[k]],
                    risk_artifact(inventory, risks[picked[k]]),
                    host,
                )
            &&& forall|i: int|
                #![trigger risk_to_notify(risks, minimum, prior, i)]
                risk_to_notify(risks, minimum, prior, i) ==> exists|k: int|
                    0 <= k < picked.len() && #[trigger] picked[k] == i
        };
    assert forall|k1: int, k2: int| 0 <= k1 < k2 < events.len() implies (
    #[trigger] events[k1]).service@ != (#[trigger] events[k2]).service@ || opt_view(
        events[k1].vulnerability_id,
    ) != opt_view(events[k2].vulnerability_id) by {
        let (p1, p2) = (picked[k1], picked[k2]);
        assert(risk_to_notify(risks, minimum, prior, p1));
        assert(risk_to_notify(risks, minimum, prior, p2));
        assert(key_lt(events[k1], events[k2]));
        if p1 == p2 {
            lemma_key_lt_not_same(events[k1], events[k2]);
        } else {
            lemma_candidates_distinct(risks, minimum, prior, p1, p2);
        }
    }
}

/// Only risks at or above the configured minimum are notified.
pub proof fn lemma_risk_events_meet_minimum(
    events: Seq<NotificationEvent>,
    inventory: Seq<InventoryItem>,
    risks: Seq<RiskEvaluation>,
    minimum: RiskLevel,
    prior: Seq<(Option<String>, String)>,
    host: Seq<char>,
)
    requires
        risk_events_for(events, inventory, risks, minimum, prior, host),
    ensures
        forall|k: int|
            0 <= k < events.len() ==> (#[trigger] events[k]).runtime_risk.rank() >= minimum.rank(),
{
    let picked = choose|picked: Seq<int>|
        #![trigger picked.len()]
        {
            &&& picked.len() == events.len()
            &&& forall|k: int|
                0 <= k < events.len() ==> risk_to_notify(risks, minimum, prior, #[trigger] picked[k])
                    && risk_event(
                    events[k],
                    risks[picked[k]],
                    risk_artifact(inventory, risks[picked[k]]),
                    host,
                )
            &&& forall|i: int|
                #![trigger risk_to_notify(risks, minimum, prior, i)]
                risk_to_notify(risks, minimum, prior, i) ==> exists|k: int|
                    0 <= k < picked.len() && #[trigger] picked[k] == i
        };
    assert forall|k: int| 0 <= k < events.len() implies (#[trigger] events[k]).runtime_risk.rank()
        >= minimum.rank() by {
        assert(risk_to_notify(risks, minimum, prior, picked[k]));
    }
}


/// A notifier that posts to a Discord webhook.
#[derive(Debug, Clone, PartialEq, Eq)]
pub struct DiscordNotifier {
    pub webhook_url: String,
}

impl DiscordNotifier {
    pub fn new(webhook_url: String) -> (n: Self)
        ensures
            n.webhook_url == webhook_url,
    {
        DiscordNotifier { webhook_url }
    }

    /// The notifier's name in logs.
    pub fn name(&self) -> (s: &'static str)
        ensures
            s@ == "discord"@,
    {
        "discord"
    }

    /// What a send checks before it posts: a blank webhook URL is an error.
    pub fn check_webhook(&self) -> (r: Result<(), String>)
        ensures
            r is Ok <==> trim(self.webhook_url@).len() > 0,
            r matches Err(message) ==> message@ == "Discord webhook URL is empty"@,
    {
        let url = chars_of(self.webhook_url.as_str());
        let trimmed = trim_chars(url.as_slice());
        if trimmed.len() > 0 {
            Ok(())
        } else {
            Err(String::from_str("Discord webhook URL is empty"))
        }
    }
}

/// The notifier a configuration asks for: Discord, when it is enabled and
/// its webhook URL is not blank.
pub fn build_notifier(config: &NornConfig) -> (r: Option<DiscordNotifier>)
    ensures
        match r {
            Some(n) => config.notifications.discord.enabled && trim(
                config.notifications.discord.webhook_url@,
            ).len() > 0 && n.webhook_url == config.notifications.discord.webhook_url,
            None => !config.notifications.discord.enabled || trim(
                config.notifications.discord.webhook_url@,
            ).len() == 0,
        },
{
    let url = chars_of(config.notifications.discord.webhook_url.as_str());
    let trimmed = trim_chars(url.as_slice());
    if config.notifications.discord.enabled && trimmed.len() > 0 {
        Some(DiscordNotifier::new(config.notifications.discord.webhook_url.clone()))
    } else {
        None
    }
}


/// Over the cap, the individual notifications sent are the highest-priority
/// candidates: every candidate held back ranks no higher than any one sent.
pub proof fn lemma_cap_keeps_highest_priority(
    batch: NotificationBatch,
    risk_events: Seq<NotificationEvent>,
    alert_events: Seq<NotificationEvent>,
    sorted: Seq<NotificationEvent>,
    inventory: Seq<InventoryItem>,
    risks: Seq<RiskEvaluation>,
    minimum: RiskLevel,
    limit: nat,
    prior: Seq<(Option<String>, String)>,
    host: Seq<char>,
)
    requires
        batch_from(batch, risk_events, alert_events, sorted, inventory, risks, minimum, limit, prior, host),
        0 < limit < sorted.len(),
    ensures
        forall|k: int| 0 <= k < limit - 1 ==> #[trigger] batch.events@[k] == sorted[k],
        forall|k: int, h: int|
            0 <= k < limit - 1 <= h < sorted.len() ==> (#[trigger] sorted[k]).runtime_risk.rank() >= (
            #[trigger] sorted[h]).runtime_risk.rank(),
{
    let all = risk_events + alert_events;
    let order = choose|order: Seq<usize>|
        #![trigger stable_order(order, all)]
        stable_order(order, all) && sorted.len() == all.len() && (forall|k: int|
            0 <= k < sorted.len() ==> #[trigger] sorted[k] == all[order[k] as int]);
    assert forall|k: int| 0 <= k < limit - 1 implies #[trigger] batch.events@[k] == sorted[k] by {
        assert(batch.events@.take(limit - 1)[k] == sorted.take(limit - 1)[k]);
    }
    assert forall|k: int, h: int|
        0 <= k < limit - 1 <= h < sorted.len() implies (#[trigger] sorted[k]).runtime_risk.rank() >= (
        #[trigger] sorted[h]).runtime_risk.rank() by {
        assert(precedes(
            all[order[k] as int],
            order[k] as int,
            all[order[h] as int],
            order[h] as int,
        ));
    }
}

} // verus!
