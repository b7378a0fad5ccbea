//! Listening sockets, read from `ss -ltnup` output.
use vstd::prelude::*;

use crate::models::{
    Exposure, InventoryItem, InventoryKind, InventorySource, NetworkEndpoint, RuntimeStatus,
};
use crate::text::{
    chars_of, copy_range, decimal, decimal_chars, find, find_in, occurs_at, has_prefix, index_from, index_of,
    is_text, last_index, last_index_of, lines, opt_view, parse_unsigned, parse_unsigned_chars,
    split_lines, split_words, starts_with, string_of, trim, trim_chars, views, words,
};

verus! {

/// Collects listening sockets; a fixture file, when set, is read in place of `ss`.
#[derive(Debug, Clone, Default)]
pub struct PortCollector {
    fixture_path: Option<String>,
}

impl PortCollector {
    /// The fixture file the collector reads, if any.
    pub closed spec fn fixture(&self) -> Option<String> {
        self.fixture_path
    }

    pub fn new() -> (c: Self)
        ensures
            c.fixture() is None,
    {
        PortCollector { fixture_path: None }
    }

    /// The collector's name in errors.
    pub fn name(&self) -> (s: &'static str)
        ensures
            s@ == "ports"@,
    {
        "ports"
    }

    pub fn with_fixture(path: String) -> (c: Self)
        ensures
            c.fixture() == Some(path),
    {
        PortCollector { fixture_path: Some(path) }
    }

    pub fn fixture_path(&self) -> (p: &Option<String>)
        ensures
            *p == self.fixture(),
    {
        &self.fixture_path
    }
}

/// The address and port of a local socket column: `[address]:port` for IPv6,
/// else the text before and after the last `:`.
pub open spec fn address_port(local: Seq<char>) -> Option<(Seq<char>, u16)> {
    let n = trim(local);
    if n.len() > 0 && n[0] == '[' {
        let rest = n.drop_first();
        match find(rest, "]:"@) {
            Some(i) => match parse_unsigned(rest.skip(i + 2), 65535) {
                Some(p) => Some((rest.take(i), p as u16)),
                None => None,
            },
            None => None,
        }
    } else {
        match last_index_of(n, ':') {
            Some(i) => match parse_unsigned(n.skip(i + 1), 65535) {
                Some(p) => Some((n.take(i), p as u16)),
                None => None,
            },
            None => None,
        }
    }
}

fn split_chars_port(local: &[char]) -> (r: Option<(Vec<char>, u16)>)
    ensures
        match address_port(local@) {
            Some((a, p)) => r matches Some((ra, rp)) && ra@ == a && rp == p,
            None => r is None,
        },
{
    let n = trim_chars(local);
    if n.len() > 0 && n[0] == '[' {
        let rest = copy_range(n.as_slice(), 1, n.len());
        assert(rest@ == n@.drop_first());
        let sep = chars_of("]:");
        proof {
            reveal_strlit("]:");
        }
        match find_in(rest.as_slice(), sep.as_slice()) {
            Some(i) => {
                let port_text = copy_range(rest.as_slice(), i + 2, rest.len());
                assert(port_text@ == rest@.skip(i + 2));
                match parse_unsigned_chars(port_text.as_slice(), 65535) {
                    Some(p) => {
                        let address = copy_range(rest.as_slice(), 0, i);
                        assert(address@ == rest@.take(i as int));
                        Some((address, p as u16))
                    },
                    None => None,
                }
            },
            None => None,
        }
    } else {
        match last_index(n.as_slice(), ':') {
            Some(i) => {
                let port_text = copy_range(n.as_slice(), i + 1, n.len());
                assert(port_text@ == n@.skip(i + 1));
                match parse_unsigned_chars(port_text.as_slice(), 65535) {
                    Some(p) => {
                        let address = copy_range(n.as_slice(), 0, i);
                        assert(address@ == n@.take(i as int));
                        Some((address, p as u16))
                    },
                    None => None,
                }
            },
            None => None,
        }
    }
}

/// The address and port of an `ss` local address such as `0.0.0.0:80` or
/// `[::1]:53`.
pub fn split_address_port(local: &str) -> (r: Option<(String, u16)>)
    ensures
        match address_port(local@) {
            Some((a, p)) => r matches Some((ra, rp)) && ra@ == a && rp == p,
            None => r is None,
        },
{
    let chars = chars_of(local);
    match split_chars_port(chars.as_slice()) {
        Some((address, port)) => Some((string_of(address.as_slice()), port)),
        None => None,
    }
}

/// The process name in an `ss` line: the text between `(("` and the next `"`.
pub open spec fn process_name(line: Seq<char>) -> Option<Seq<char>> {
    match find(line, "((\""@) {
        Some(i) => {
            let rest = line.skip(i + 3);
            let end = index_of(rest, '"');
            if end < rest.len() {
                Some(rest.take(end))
            } else {
                None
            }
        },
        None => None,
    }
}

fn process_of_chars(line: &[char]) -> (r: Option<Vec<char>>)
    ensures
        match process_name(line@) {
            Some(p) => r matches Some(rp) && rp@ == p,
            None => r is None,
        },
{
    let open = chars_of("((\"");
    proof {
        reveal_strlit("((\"");
        assert(open@.len() == 3);
    }
    match find_in(line, open.as_slice()) {
        Some(i) => {
            assert(occurs_at(line@, open@, i as int));
            assert(line@.len() == line.len());
            let start = i + 3;
            let end = index_from(line, start, '"');
            if end < line.len() {
                let name = copy_range(line, start, end);
                assert(name@ == line@.skip(start as int).take(end - start));
                Some(name)
            } else {
                None
            }
        },
        None => None,
    }
}

/// The process name an `ss` line shows.
pub fn extract_process(line: &str) -> (r: Option<String>)
    ensures
        match process_name(line@) {
            Some(p) => r matches Some(rp) && rp@ == p,
            None => r is None,
        },
{
    let chars = chars_of(line);
    match process_of_chars(chars.as_slice()) {
        Some(name) => Some(string_of(name.as_slice())),
        None => None,
    }
}

/// How exposed a socket bound to `address` is.
pub open spec fn listen_exposure(address: Seq<char>) -> Exposure {
    if address == "0.0.0.0"@ || address == "::"@ || address == "*"@ {
        Exposure::Public
    } else if address == "127.0.0.1"@ || address == "::1"@ || address == "localhost"@ {
        Exposure::Localhost
    } else {
        Exposure::Internal
    }
}

fn exposure_for_chars(address: &[char]) -> (e: Exposure)
    ensures
        e == listen_exposure(address@),
{
    if is_text(address, "0.0.0.0") || is_text(address, "::") || is_text(address, "*") {
        Exposure::Public
    } else if is_text(address, "127.0.0.1") || is_text(address, "::1") || is_text(
        address,
        "localhost",
    ) {
        Exposure::Localhost
    } else {
        Exposure::Internal
    }
}

/// A listening socket as one line of `ss` output describes it.
pub struct SocketEntry {
    pub protocol: Seq<char>,
    pub address: Seq<char>,
    pub port: u16,
    pub process: Option<Seq<char>>,
}

/// How exposed a socket bound to `address` is.
pub fn exposure_for_address(address: &str) -> (e: Exposure)
    ensures
        e == listen_exposure(address@),
{
    let chars = chars_of(address);
    exposure_for_chars(chars.as_slice())
}

/// The listening or bound socket that a line of `ss` output describes.
pub open spec fn socket_entry(line: Seq<char>) -> Option<SocketEntry> {
    let t = trim(line);
    let parts = words(t);
    if t.len() == 0 || starts_with(t, "Netid"@) || parts.len() < 5 || (parts[1] != "LISTEN"@
        && parts[1] != "UNCONN"@) {
        None
    } else {
        match address_port(parts[4]) {
            Some((address, port)) => Some(
                SocketEntry { protocol: parts[0], address, port, process: process_name(t) },
            ),
            None => None,
        }
    }
}

/// `item` is the inventory record of a listening socket.
pub open spec fn port_item_for(item: InventoryItem, s: SocketEntry) -> bool {
    let port_text = decimal(s.port as nat);
    let exposure = listen_exposure(s.address);
    &&& item.id@ == "port:"@ + s.protocol + ":"@ + s.address + ":"@ + port_text
    &&& item.name@ == match s.process {
        Some(p) => p,
        None => s.protocol + ":"@ + port_text,
    }
    &&& item.source == InventorySource::Ports
    &&& item.kind == InventoryKind::ListeningPort
    &&& item.status == RuntimeStatus::Running
    &&& item.image is None
    &&& item.package_name is None
    &&& item.package_version is None
    &&& item.binary_path is None
    &&& item.labels@.len() == 0
    &&& item.exposure == exposure
    &&& item.docker is None
    &&& item.collected_at >= 0
    &&& item.endpoints@.len() == 1
    &&& item.endpoints@[0].protocol@ == s.protocol
    &&& item.endpoints@[0].address@ == s.address
    &&& item.endpoints@[0].port == s.port
    &&& item.endpoints@[0].exposure == exposure
    &&& opt_view(item.endpoints@[0].process) == s.process
}

fn parse_ss_line(line: &[char]) -> (r: Option<InventoryItem>)
    ensures
        match socket_entry(line@) {
            Some(s) => r matches Some(item) && port_item_for(item, s),
            None => r is None,
        },
{
    let trimmed = trim_chars(line);
    let header = chars_of("Netid");
    if trimmed.len() == 0 || has_prefix(trimmed.as_slice(), header.as_slice()) {
        return None;
    }
    let parts = split_words(trimmed.as_slice());
    if parts.len() < 5 {
        return None;
    }
    assert(parts@[0]@ == views(parts@)[0]);
    assert(parts@[1]@ == views(parts@)[1]);
    assert(parts@[4]@ == views(parts@)[4]);
    if !is_text(parts[1].as_slice(), "LISTEN") && !is_text(parts[1].as_slice(), "UNCONN") {
        return None;
    }
    let (address, port) = match split_chars_port(parts[4].as_slice()) {
        Some(found) => found,
        None => return None,
    };
    let process = process_of_chars(trimmed.as_slice());
    let exposure = exposure_for_chars(address.as_slice());
    let protocol = string_of(parts[0].as_slice());
    let address_text = string_of(address.as_slice());
    let port_chars = decimal_chars(port as u64);
    let port_text = string_of(port_chars.as_slice());
    let name = match &process {
        Some(p) => string_of(p.as_slice()),
        None => {
            let mut n = protocol.clone();
            n.append(":");
            n.append(port_text.as_str());
            n
        },
    };
    let mut id = String::from_str("port:");
    id.append(protocol.as_str());
    id.append(":");
    id.append(address_text.as_str());
    id.append(":");
    id.append(port_text.as_str());
    let mut item = InventoryItem::new(
        id,
        name,
        InventorySource::Ports,
        InventoryKind::ListeningPort,
    );
    item.status = RuntimeStatus::Running;
    item.exposure = exposure;
    let process_text = match &process {
        Some(p) => Some(string_of(p.as_slice())),
        None => None,
    };
    item.endpoints.push(
        NetworkEndpoint {
            protocol,
            address: address_text,
            port,
            exposure,
            process: process_text,
        },
    );
    Some(item)
}

/// `items` holds one record per listening socket, in order.
pub open spec fn ports_listed(items: Seq<InventoryItem>, sockets: Seq<SocketEntry>) -> bool {
    &&& items.len() == sockets.len()
    &&& forall|k: int| 0 <= k < items.len() ==> #[trigger] port_item_for(items[k], sockets[k])
}

/// The sockets of an `ss` listing, line by line.
pub open spec fn listening_sockets(ls: Seq<Seq<char>>) -> Seq<SocketEntry>
    decreases ls.len(),
{
    if ls.len() == 0 {
        seq![]
    } else {
        let rest = listening_sockets(ls.drop_last());
        match socket_entry(ls.last()) {
            Some(e) => rest.push(e),
            None => rest,
        }
    }
}

/// The listening sockets of `ss -ltnup` output.
pub fn parse_ss_listening(input: &str) -> (out: Vec<InventoryItem>)
    ensures
        ports_listed(out@, listening_sockets(lines(input@))),
{
    let text = chars_of(input);
    let ls = split_lines(text.as_slice());
    let ghost lv = views(ls@);
    let mut out: Vec<InventoryItem> = Vec::new();
    let mut i: usize = 0;
    while i < ls.len()
        invariant
            i <= ls@.len(),
            lv == views(ls@),
            ports_listed(out@, listening_sockets(lv.take(i as int))),
        decreases ls@.len() - i,
    {
        let r = parse_ss_line(ls[i].as_slice());
        proof {
            assert(lv.take(i + 1).drop_last() == lv.take(i as int));
            assert(lv.take(i + 1).last() == ls@[i as int]@);
        }
        let ghost before = out@;
        if let Some(item) = r {
            out.push(item);
        }
        proof {
            let sockets = listening_sockets(lv.take(i + 1));
            assert forall|k: int| 0 <= k < out@.len() implies #[trigger] port_item_for(
                out@[k],
                sockets[k],
            ) by {
                if k < before.len() {
                    assert(out@[k] == before[k]);
                    assert(sockets[k] == listening_sockets(lv.take(i as int))[k]);
                }
            }
        }
        i = i + 1;
    }
    assert(lv.take(ls@.len() as int) == lv);
    out
}

} // verus!
