//! Installed packages, read from `dpkg` status listings and `dpkg-query` output.
use vstd::prelude::*;

use crate::models::{Exposure, InventoryItem, InventoryKind, InventorySource, RuntimeStatus};
use crate::text::{
    chars_of, has_prefix, index_of, is_ws, lemma_index_of, lemma_index_of_unique, lemma_word_len, lines,
    split_char, trim_end, trim_start, word_len, split_lines, split_on, split_words, starts_with,
    string_of, trim, trim_chars, views, words,
};

verus! {

/// Collects installed dpkg packages; a fixture file, when set, is read in
/// place of the package database.
#[derive(Debug, Clone, Default)]
pub struct PackageCollector {
    fixture_path: Option<String>,
}

impl PackageCollector {
    /// The fixture file the collector reads, if any.
    pub closed spec fn fixture(&self) -> Option<String> {
        self.fixture_path
    }

    pub fn new() -> (c: Self)
        ensures
            c.fixture() is None,
    {
        PackageCollector { fixture_path: None }
    }

    pub fn with_fixture(path: String) -> (c: Self)
        ensures
            c.fixture() == Some(path),
    {
        PackageCollector { fixture_path: Some(path) }
    }

    pub fn fixture_path(&self) -> (p: &Option<String>)
        ensures
            *p == self.fixture(),
    {
        &self.fixture_path
    }
}

/// `item` is the inventory record of an installed package.
pub open spec fn package_item_for(item: InventoryItem, name: Seq<char>, version: Seq<char>) -> bool {
    &&& item.id@ == "package:"@ + name
    &&& item.name@ == name
    &&& item.source == InventorySource::PackageManager
    &&& item.kind == InventoryKind::Package
    &&& item.status == RuntimeStatus::Installed
    &&& item.image is None
    &&& (item.package_name matches Some(n) && n@ == name)
    &&& (item.package_version matches Some(v) && v@ == version)
    &&& item.binary_path is None
    &&& item.labels@.len() == 0
    &&& item.endpoints@.len() == 0
    &&& item.exposure == Exposure::Unknown
    &&& item.docker is None
    &&& item.collected_at >= 0
}

fn package_item(name: &[char], version: &[char]) -> (item: InventoryItem)
    ensures
        package_item_for(item, name@, version@),
{
    let mut id = String::from_str("package:");
    let name_text = string_of(name);
    id.append(name_text.as_str());
    let mut item = InventoryItem::new(
        id,
        string_of(name),
        InventorySource::PackageManager,
        InventoryKind::Package,
    );
    item.status = RuntimeStatus::Installed;
    item.package_name = Some(name_text);
    item.package_version = Some(string_of(version));
    item.exposure = Exposure::Unknown;
    item
}

/// `items` holds one package record per (name, version) entry, in order.
pub open spec fn packages_listed(
    items: Seq<InventoryItem>,
    entries: Seq<(Seq<char>, Seq<char>)>,
) -> bool {
    &&& items.len() == entries.len()
    &&& forall|k: int|
        0 <= k < items.len() ==> #[trigger] package_item_for(items[k], entries[k].0, entries[k].1)
}

/// The package that a line of `dpkg -l` output names, if it is installed
/// (its status begins with `ii`).
pub open spec fn dpkg_status_entry(line: Seq<char>) -> Option<(Seq<char>, Seq<char>)> {
    let t = trim(line);
    let fields = words(t);
    if starts_with(t, "ii "@) && fields.len() >= 3 {
        Some((fields[1], fields[2]))
    } else {
        None
    }
}

/// The installed packages of a `dpkg -l` listing, line by line.
pub open spec fn dpkg_status_packages(ls: Seq<Seq<char>>) -> Seq<(Seq<char>, Seq<char>)>
    decreases ls.len(),
{
    if ls.len() == 0 {
        seq![]
    } else {
        let rest = dpkg_status_packages(ls.drop_last());
        match dpkg_status_entry(ls.last()) {
            Some(e) => rest.push(e),
            None => rest,
        }
    }
}

fn parse_dpkg_status_line(line: &[char]) -> (r: Option<InventoryItem>)
    ensures
        match dpkg_status_entry(line@) {
            Some(e) => r matches Some(item) && package_item_for(item, e.0, e.1),
            None => r is None,
        },
{
    let trimmed = trim_chars(line);
    let prefix = chars_of("ii ");
    if !has_prefix(trimmed.as_slice(), prefix.as_slice()) {
        return None;
    }
    let fields = split_words(trimmed.as_slice());
    if fields.len() < 3 {
        return None;
    }
    assert(fields@[1]@ == views(fields@)[1]);
    assert(fields@[2]@ == views(fields@)[2]);
    Some(package_item(fields[1].as_slice(), fields[2].as_slice()))
}

/// The installed packages of a `dpkg -l` listing.
pub fn parse_dpkg_list(input: &str) -> (out: Vec<InventoryItem>)
    ensures
        packages_listed(out@, dpkg_status_packages(lines(input@))),
{
    let text = chars_of(input);
    let ls = split_lines(text.as_slice());
    let ghost lv = views(ls@);
    let mut out: Vec<InventoryItem> = Vec::new();
    let mut i: usize = 0;
    while i < ls.len()
        invariant
            i <= ls@.len(),
            lv == views(ls@),
            packages_listed(out@, dpkg_status_packages(lv.take(i as int))),
        decreases ls@.len() - i,
    {
        let r = parse_dpkg_status_line(ls[i].as_slice());
        proof {
            assert(lv.take(i + 1).drop_last() == lv.take(i as int));
            assert(lv.take(i + 1).last() == ls@[i as int]@);
        }
        let ghost before = out@;
        if let Some(item) = r {
            out.push(item);
        }
        proof {
            let entries = dpkg_status_packages(lv.take(i + 1));
            assert forall|k: int| 0 <= k < out@.len() implies #[trigger] package_item_for(
                out@[k],
                entries[k].0,
                entries[k].1,
            ) by {
                if k < before.len() {
                    assert(out@[k] == before[k]);
                    assert(entries[k] == dpkg_status_packages(lv.take(i as int))[k]);
                }
            }
        }
        i = i + 1;
    }
    assert(lv.take(ls@.len() as int) == lv);
    out
}

/// The package that a line of `dpkg-query` output names: its first two
/// tab-separated fields.
pub open spec fn dpkg_query_entry(line: Seq<char>) -> Option<(Seq<char>, Seq<char>)> {
    let fields = split_on(line, '\t');
    if fields.len() >= 2 {
        Some((fields[0], fields[1]))
    } else {
        None
    }
}

/// The packages of `dpkg-query` output, line by line.
pub open spec fn dpkg_query_packages(ls: Seq<Seq<char>>) -> Seq<(Seq<char>, Seq<char>)>
    decreases ls.len(),
{
    if ls.len() == 0 {
        seq![]
    } else {
        let rest = dpkg_query_packages(ls.drop_last());
        match dpkg_query_entry(ls.last()) {
            Some(e) => rest.push(e),
            None => rest,
        }
    }
}

/// The packages of `dpkg-query -W` output with name and version tab-separated.
pub fn parse_dpkg_query(input: &str) -> (out: Vec<InventoryItem>)
    ensures
        packages_listed(out@, dpkg_query_packages(lines(input@))),
{
    let text = chars_of(input);
    let ls = split_lines(text.as_slice());
    let ghost lv = views(ls@);
    let mut out: Vec<InventoryItem> = Vec::new();
    let mut i: usize = 0;
    while i < ls.len()
        invariant
            i <= ls@.len(),
            lv == views(ls@),
            packages_listed(out@, dpkg_query_packages(lv.take(i as int))),
        decreases ls@.len() - i,
    {
        let fields = split_char(ls[i].as_slice(), '\t');
        proof {
            assert(lv.take(i + 1).drop_last() == lv.take(i as int));
            assert(lv.take(i + 1).last() == ls@[i as int]@);
        }
        let ghost before = out@;
        if fields.len() >= 2 {
            assert(fields@[0]@ == views(fields@)[0]);
            assert(fields@[1]@ == views(fields@)[1]);
            out.push(package_item(fields[0].as_slice(), fields[1].as_slice()));
        }
        proof {
            let entries = dpkg_query_packages(lv.take(i + 1));
            assert forall|k: int| 0 <= k < out@.len() implies #[trigger] package_item_for(
                out@[k],
                entries[k].0,
                entries[k].1,
            ) by {
                if k < before.len() {
                    assert(out@[k] == before[k]);
                    assert(entries[k] == dpkg_query_packages(lv.take(i as int))[k]);
                }
            }
        }
        i = i + 1;
    }
    assert(lv.take(ls@.len() as int) == lv);
    out
}

/// `item` is the synthetic record of the host filesystem, which makes the
/// host a scan target of its own.
pub open spec fn is_host_item(item: InventoryItem) -> bool {
    &&& item.id@ == "host:localhost"@
    &&& item.name@ == "host"@
    &&& item.source == InventorySource::Host
    &&& item.kind == InventoryKind::Host
    &&& item.status == RuntimeStatus::Running
    &&& item.image is None
    &&& item.package_name is None
    &&& item.package_version is None
    &&& item.binary_path is None
    &&& item.labels@.len() == 0
    &&& item.endpoints@.len() == 0
    &&& item.exposure == Exposure::Unknown
    &&& item.docker is None
    &&& item.collected_at >= 0
}

/// A synthetic inventory item for the host filesystem, so that the host's
/// installed packages are scanned through one `dir:/` target.
pub fn host_item() -> (item: InventoryItem)
    ensures
        is_host_item(item),
{
    let mut item = InventoryItem::new(
        String::from_str("host:localhost"),
        String::from_str("host"),
        InventorySource::Host,
        InventoryKind::Host,
    );
    item.status = RuntimeStatus::Running;
    item.exposure = Exposure::Unknown;
    item
}


impl PackageCollector {
    /// The collector's name in errors.
    pub fn name(&self) -> (s: &'static str)
        ensures
            s@ == "packages"@,
    {
        "packages"
    }

    /// The inventory from a package listing: the packages it lists (a dpkg
    /// status file when read from the fixture, else `dpkg-query` output), then
    /// the host itself, so that the host filesystem can be scanned.
    pub fn inventory_from_listing(&self, listing: &str) -> (items: Vec<InventoryItem>)
        ensures
            items@.len() >= 1,
            is_host_item(items@.last()),
            packages_listed(
                items@.drop_last(),
                if self.fixture() is Some {
                    dpkg_status_packages(lines(listing@))
                } else {
                    dpkg_query_packages(lines(listing@))
                },
            ),
    {
        let mut items = if self.fixture_path.is_some() {
            parse_dpkg_list(listing)
        } else {
            parse_dpkg_query(listing)
        };
        let ghost listed = items@;
        items.push(host_item());
        assert(items@.drop_last() == listed);
        items
    }
}


proof fn lemma_split_after_field(field: Seq<char>, rest: Seq<char>, c: char)
    requires
        !field.contains(c),
    ensures
        split_on(field + seq![c] + rest, c) == seq![field] + split_on(rest, c),
{
    let s = field + seq![c] + rest;
    assert forall|k: int| 0 <= k < field.len() implies s[k] != c by {
        assert(s[k] == field[k]);
        if s[k] == c {
            assert(field.contains(c));
        }
    }
    lemma_index_of_unique(s, c, field.len() as int);
    assert(s.take(field.len() as int) =~= field);
    assert(s.skip(field.len() + 1int) =~= rest);
}

/// A line of `dpkg-query` output names the package of its first field at the
/// version of its second, whatever fields follow: for a name and a version
/// without tabs, `name\tversion` and `name\tversion\trest` both give
/// (name, version), and a line with no tab at all names no package.
pub proof fn lemma_dpkg_query_takes_name_and_version(
    name: Seq<char>,
    version: Seq<char>,
    rest: Seq<char>,
)
    requires
        !name.contains('\t'),
        !version.contains('\t'),
    ensures
        dpkg_query_entry(name + "\t"@ + version) == Some((name, version)),
        dpkg_query_entry(name + "\t"@ + version + "\t"@ + rest) == Some((name, version)),
        dpkg_query_entry(name) is None,
{
    lemma_index_of(name, '\t');
    if index_of(name, '\t') < name.len() {
        assert(name.contains('\t'));
    }
    reveal_strlit("\t");
    assert("\t"@ =~= seq!['\t']);
    lemma_split_after_field(name, version, '\t');
    lemma_index_of(version, '\t');
    if index_of(version, '\t') < version.len() {
        assert(version.contains('\t'));
    }
    assert(split_on(version, '\t') == seq![version]);
    assert(split_on(name + "\t"@ + version, '\t') =~= seq![name, version]);
    let tail = version + "\t"@ + rest;
    assert(name + "\t"@ + version + "\t"@ + rest =~= name + seq!['\t'] + tail);
    lemma_split_after_field(name, tail, '\t');
    assert(tail =~= version + seq!['\t'] + rest);
    lemma_split_after_field(version, rest, '\t');
    let fields = split_on(name + "\t"@ + version + "\t"@ + rest, '\t');
    assert(fields == seq![name] + (seq![version] + split_on(rest, '\t')));
    assert(fields[0] == name);
    assert(fields[1] == version);
}


proof fn lemma_words_after_word(w: Seq<char>, rest: Seq<char>)
    requires
        w.len() > 0,
        forall|k: int| 0 <= k < w.len() ==> !is_ws(#[trigger] w[k]),
        rest.len() == 0 || is_ws(rest[0]),
    ensures
        words(w + rest) == seq![w] + words(rest),
{
    let s = w + rest;
    assert(s[0] == w[0]);
    assert forall|k: int| 0 <= k < w.len() implies !is_ws(#[trigger] s[k]) by {
        assert(s[k] == w[k]);
    }
    lemma_word_len(s);
    let k = word_len(s);
    if k < w.len() {
        assert(!is_ws(s[k]));
    }
    if k > w.len() {
        assert(!is_ws(s[w.len() as int]));
        assert(s[w.len() as int] == rest[0]);
    }
    assert(k == w.len());
    assert(s.take(k) =~= w);
    assert(s.skip(k) =~= rest);
}

proof fn lemma_words_after_space(c: char, rest: Seq<char>)
    requires
        is_ws(c),
    ensures
        words(seq![c] + rest) == words(rest),
{
    assert((seq![c] + rest).drop_first() =~= rest);
}

proof fn lemma_trim_end_after(p: Seq<char>, q: Seq<char>)
    requires
        p.len() > 0,
        !is_ws(p.last()),
    ensures
        trim_end(p + q) == p + trim_end(q),
        trim_end(q).len() <= q.len(),
        trim_end(q) == q.take(trim_end(q).len() as int),
    decreases q.len(),
{
    if q.len() == 0 {
        assert(p + q =~= p);
        assert(q.take(0) =~= q);
    } else if is_ws(q.last()) {
        assert((p + q).drop_last() =~= p + q.drop_last());
        lemma_trim_end_after(p, q.drop_last());
        assert(trim_end(q) == trim_end(q.drop_last()));
        assert(q.drop_last().take(trim_end(q).len() as int) =~= q.take(trim_end(q).len() as int));
    } else {
        assert((p + q).last() == q.last());
        assert(q.take(q.len() as int) =~= q);
    }
}

/// A line of a `dpkg -l` listing that begins `ii ` names the installed
/// package of its second word at the version of its third, whatever
/// follows: for a name and a version without whitespace, `ii name version`
/// followed by nothing or by whitespace and anything gives (name, version).
pub proof fn lemma_dpkg_status_takes_name_and_version(
    name: Seq<char>,
    version: Seq<char>,
    tail: Seq<char>,
)
    requires
        name.len() > 0,
        version.len() > 0,
        forall|k: int| 0 <= k < name.len() ==> !is_ws(#[trigger] name[k]),
        forall|k: int| 0 <= k < version.len() ==> !is_ws(#[trigger] version[k]),
        tail.len() == 0 || is_ws(tail[0]),
    ensures
        dpkg_status_entry("ii "@ + name + " "@ + version + tail) == Some((name, version)),
{
    reveal_strlit("ii ");
    reveal_strlit(" ");
    let ii = seq!['i', 'i'];
    let sp = seq![' '];
    assert("ii "@ =~= ii + sp);
    assert(" "@ =~= sp);
    let line = "ii "@ + name + " "@ + version + tail;
    let head = ii + sp + name + sp + version;
    assert(line =~= head + tail);
    assert(trim_start(line) == line);
    assert(head.last() == version.last());
    lemma_trim_end_after(head, tail);
    let t = trim(line);
    let te = trim_end(tail);
    assert(t == head + te);
    assert(te.len() == 0 || is_ws(te[0])) by {
        if te.len() > 0 {
            assert(te.len() <= tail.len());
            assert(te[0] == tail.take(te.len() as int)[0]);
            assert(te[0] == tail[0]);
        }
    }
    assert(starts_with(t, "ii "@)) by {
        assert(t.take(3) =~= "ii "@);
    }
    assert forall|k: int| 0 <= k < ii.len() implies !is_ws(#[trigger] ii[k]) by {}
    assert(t =~= ii + (sp + (name + (sp + (version + te)))));
    lemma_words_after_word(ii, sp + (name + (sp + (version + te))));
    lemma_words_after_space(' ', name + (sp + (version + te)));
    lemma_words_after_word(name, sp + (version + te));
    lemma_words_after_space(' ', version + te);
    lemma_words_after_word(version, te);
    let fields = words(t);
    assert(fields == seq![ii] + (seq![name] + (seq![version] + words(te))));
    assert(fields[1] == name);
    assert(fields[2] == version);
}

} // verus!
