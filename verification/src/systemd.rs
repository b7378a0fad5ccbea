//! Active services, read from `systemctl list-units` output.
use vstd::prelude::*;

use crate::models::{Exposure, InventoryItem, InventoryKind, InventorySource, RuntimeStatus};
use crate::text::{
    chars_of, concat2, contains, find_in, has_prefix, is_text, lines, split_lines, split_words,
    starts_with, string_of, strip_suffixes, strip_suffixes_chars, trim, trim_chars, views, words,
};

verus! {

/// Collects running systemd services; a fixture file, when set, is read in
/// place of `systemctl`.
#[derive(Debug, Clone, Default)]
pub struct SystemdCollector {
    fixture_path: Option<String>,
}

impl SystemdCollector {
    /// The fixture file the collector reads, if any.
    pub closed spec fn fixture(&self) -> Option<String> {
        self.fixture_path
    }

    pub fn new() -> (c: Self)
        ensures
            c.fixture() is None,
    {
        SystemdCollector { fixture_path: None }
    }

    /// The collector's name in errors.
    pub fn name(&self) -> (s: &'static str)
        ensures
            s@ == "systemd"@,
    {
        "systemd"
    }

    pub fn with_fixture(path: String) -> (c: Self)
        ensures
            c.fixture() == Some(path),
    {
        SystemdCollector { fixture_path: Some(path) }
    }

    pub fn fixture_path(&self) -> (p: &Option<String>)
        ensures
            *p == self.fixture(),
    {
        &self.fixture_path
    }
}

/// The unit and its active state that a line of `systemctl list-units`
/// output names, if it is a service line with at least four columns.
pub open spec fn unit_entry(line: Seq<char>) -> Option<(Seq<char>, Seq<char>)> {
    let t = trim(line);
    let fields = words(t);
    if t.len() == 0 || starts_with(t, "UNIT "@) || !contains(t, ".service"@) || fields.len() < 4 {
        None
    } else {
        Some((fields[0], fields[2]))
    }
}

/// The units of a listing whose active state is `active`, in order.
pub open spec fn active_units(ls: Seq<Seq<char>>) -> Seq<Seq<char>>
    decreases ls.len(),
{
    if ls.len() == 0 {
        seq![]
    } else {
        let rest = active_units(ls.drop_last());
        match unit_entry(ls.last()) {
            Some(e) => if e.1 == "active"@ {
                rest.push(e.0)
            } else {
                rest
            },
            None => rest,
        }
    }
}

/// `item` is the inventory record of a service unit in the given state.
pub open spec fn service_item_for(item: InventoryItem, unit: Seq<char>, status: RuntimeStatus) -> bool {
    &&& item.id@ == "systemd:"@ + unit
    &&& item.name@ == strip_suffixes(unit, ".service"@)
    &&& item.source == InventorySource::Systemd
    &&& item.kind == InventoryKind::Service
    &&& item.status == status
    &&& item.image is None
    &&& item.package_name is None
    &&& item.package_version is None
    &&& item.binary_path is None
    &&& item.labels@.len() == 0
    &&& item.endpoints@.len() == 0
    &&& item.exposure == Exposure::Unknown
    &&& item.docker is None
    &&& item.collected_at >= 0
}

fn parse_systemd_line(line: &[char]) -> (r: Option<InventoryItem>)
    ensures
        match unit_entry(line@) {
            Some(e) => r matches Some(item) && service_item_for(
                item,
                e.0,
                if e.1 == "active"@ {
                    RuntimeStatus::Active
                } else {
                    RuntimeStatus::Stopped
                },
            ),
            None => r is None,
        },
{
    let trimmed = trim_chars(line);
    let unit_header = chars_of("UNIT ");
    let service = chars_of(".service");
    if trimmed.len() == 0 || has_prefix(trimmed.as_slice(), unit_header.as_slice()) || find_in(
        trimmed.as_slice(),
        service.as_slice(),
    ).is_none() {
        return None;
    }
    let parts = split_words(trimmed.as_slice());
    if parts.len() < 4 {
        return None;
    }
    assert(parts@[0]@ == views(parts@)[0]);
    assert(parts@[2]@ == views(parts@)[2]);
    let unit = parts[0].as_slice();
    let name = strip_suffixes_chars(unit, service.as_slice());
    let unit_text = string_of(unit);
    let mut item = InventoryItem::new(
        concat2("systemd:", unit_text.as_str()),
        string_of(name.as_slice()),
        InventorySource::Systemd,
        InventoryKind::Service,
    );
    item.status = if is_text(parts[2].as_slice(), "active") {
        RuntimeStatus::Active
    } else {
        RuntimeStatus::Stopped
    };
    item.exposure = Exposure::Unknown;
    Some(item)
}

/// `items` holds one active service record per unit, in order.
pub open spec fn services_listed(items: Seq<InventoryItem>, units: Seq<Seq<char>>) -> bool {
    &&& items.len() == units.len()
    &&& forall|k: int|
        0 <= k < items.len() ==> #[trigger] service_item_for(
            items[k],
            units[k],
            RuntimeStatus::Active,
        )
}

/// The active services of a `systemctl list-units` listing.
pub fn parse_systemd_units(input: &str) -> (out: Vec<InventoryItem>)
    ensures
        services_listed(out@, active_units(lines(input@))),
{
    let text = chars_of(input);
    let ls = split_lines(text.as_slice());
    let ghost lv = views(ls@);
    let mut out: Vec<InventoryItem> = Vec::new();
    let mut i: usize = 0;
    while i < ls.len()
        invariant
            i <= ls@.len(),
            lv == views(ls@),
            services_listed(out@, active_units(lv.take(i as int))),
        decreases ls@.len() - i,
    {
        let r = parse_systemd_line(ls[i].as_slice());
        proof {
            assert(lv.take(i + 1).drop_last() == lv.take(i as int));
            assert(lv.take(i + 1).last() == ls@[i as int]@);
        }
        let ghost before = out@;
        if let Some(item) = r {
            if matches!(item.status, RuntimeStatus::Active) {
                out.push(item);
            }
        }
        proof {
            let units = active_units(lv.take(i + 1));
            assert forall|k: int| 0 <= k < out@.len() implies #[trigger] service_item_for(
                out@[k],
                units[k],
                RuntimeStatus::Active,
            ) by {
                if k < before.len() {
                    assert(out@[k] == before[k]);
                    assert(units[k] == active_units(lv.take(i as int))[k]);
                }
            }
        }
        i = i + 1;
    }
    assert(lv.take(ls@.len() as int) == lv);
    out
}

} // verus!
