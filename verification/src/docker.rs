//! Containers, read from what the Docker API reports when a container is
//! inspected: name, image, labels, published ports, privileged mode and
//! Docker socket mounts.
use std::collections::BTreeMap;
use vstd::prelude::*;

use crate::models::{
    DockerMetadata, Exposure, InventoryItem, InventoryKind, InventorySource, NetworkEndpoint,
    RuntimeStatus,
};
use crate::text::{
    chars_of, concat2, contains, copy_range, find, find_in, has_prefix, is_text, opt_view,
    parse_unsigned, parse_unsigned_chars, split_char, split_on, starts_with, string_of,
    strip_brackets, strip_brackets_chars, strip_leading, strip_leading_chars, trim, trim_chars,
    views, chars_lt, clone_opt_string, concat3, lemma_text_lt_total, lemma_text_lt_transitive,
    strip_suffixes, strip_suffixes_chars, text_lt,
};

verus! {

/// Collects containers from the Docker API at `socket` (a Unix socket path or
/// an `http://`/`https://` socket proxy); a fixture file of inspect output,
/// when set, is read in its place.
#[derive(Debug, Clone)]
pub struct DockerCollector {
    socket: String,
    fixture_path: Option<String>,
}

impl DockerCollector {
    /// Where the Docker API is reached.
    pub closed spec fn endpoint(&self) -> String {
        self.socket
    }

    /// The fixture file the collector reads, if any.
    pub closed spec fn fixture(&self) -> Option<String> {
        self.fixture_path
    }

    pub fn new(socket: String) -> (c: Self)
        ensures
            c.endpoint() == socket,
            c.fixture() is None,
    {
        DockerCollector { socket, fixture_path: None }
    }

    /// The collector's name in errors.
    pub fn name(&self) -> (s: &'static str)
        ensures
            s@ == "docker"@,
    {
        "docker"
    }

    pub fn with_fixture(socket: String, fixture_path: String) -> (c: Self)
        ensures
            c.endpoint() == socket,
            c.fixture() == Some(fixture_path),
    {
        DockerCollector { socket, fixture_path: Some(fixture_path) }
    }

    pub fn socket(&self) -> (s: &String)
        ensures
            *s == self.endpoint(),
    {
        &self.socket
    }

    pub fn fixture_path(&self) -> (p: &Option<String>)
        ensures
            *p == self.fixture(),
    {
        &self.fixture_path
    }

    /// Whether the API is reached over HTTP rather than a Unix socket.
    pub fn uses_http(&self) -> (b: bool)
        ensures
            b == (starts_with(self.endpoint()@, "http://"@) || starts_with(
                self.endpoint()@,
                "https://"@,
            )),
    {
        let s = chars_of(self.socket.as_str());
        let http = chars_of("http://");
        let https = chars_of("https://");
        has_prefix(s.as_slice(), http.as_slice()) || has_prefix(s.as_slice(), https.as_slice())
    }
}

/// One host binding of a published container port.
#[derive(Debug, Clone, PartialEq, Eq)]
pub struct PortBinding {
    pub host_ip: String,
    pub host_port: String,
}

/// A container port (such as `80/tcp`) and the host bindings it has, if any.
#[derive(Debug, Clone, PartialEq, Eq)]
pub struct PortMapping {
    pub container_port: String,
    pub bindings: Option<Vec<PortBinding>>,
}

/// Container ports in strictly ascending order, so each appears once.
pub open spec fn ports_ordered(ms: Seq<PortMapping>) -> bool {
    forall|i: int, j: int|
        0 <= i < j < ms.len() ==> text_lt(ms[i].container_port@, ms[j].container_port@)
}

/// The index of the first mapping from `i` on whose container port is not
/// below `key`.
pub open spec fn slot_from(ms: Seq<PortMapping>, key: Seq<char>, i: int) -> int
    decreases ms.len() - i,
{
    if i < 0 || i >= ms.len() || !text_lt(ms[i].container_port@, key) {
        i
    } else {
        slot_from(ms, key, i + 1)
    }
}

/// `ms` with `m` put in its place by container port: replacing the mapping of
/// the same port, else inserted before the first port above it.
pub open spec fn with_mapping(ms: Seq<PortMapping>, m: PortMapping) -> Seq<PortMapping> {
    let p = slot_from(ms, m.container_port@, 0);
    if p < ms.len() && ms[p].container_port@ == m.container_port@ {
        ms.update(p, m)
    } else {
        ms.insert(p, m)
    }
}

/// A container's ports and their host bindings, keyed and ordered by
/// container port as Docker's JSON object of ports reads into an ordered map.
#[derive(Debug, PartialEq, Eq)]
pub struct PortTable {
    entries: Vec<PortMapping>,
}

fn port_below(m: &PortMapping, key: &[char]) -> (b: bool)
    ensures
        b == text_lt(m.container_port@, key@),
{
    let here = chars_of(m.container_port.as_str());
    chars_lt(here.as_slice(), key)
}

impl PortTable {
    #[verifier::type_invariant]
    spec fn ordered(self) -> bool {
        ports_ordered(self.entries@)
    }

    /// The mappings, in ascending order of container port.
    pub closed spec fn mappings(self) -> Seq<PortMapping> {
        self.entries@
    }

    pub fn new() -> (t: Self)
        ensures
            t.mappings().len() == 0,
    {
        PortTable { entries: Vec::new() }
    }

    /// The mappings, in ascending order of container port, each port once.
    pub fn entries(&self) -> (r: &Vec<PortMapping>)
        ensures
            r@ == self.mappings(),
            ports_ordered(r@),
    {
        proof {
            use_type_invariant(self);
        }
        &self.entries
    }

    /// Sets the bindings of a container port, replacing what it had.
    pub fn insert(&mut self, container_port: String, bindings: Option<Vec<PortBinding>>)
        ensures
            final(self).mappings() == with_mapping(
                old(self).mappings(),
                PortMapping { container_port, bindings },
            ),
            ports_ordered(final(self).mappings()),
    {
        proof {
            use_type_invariant(&*self);
        }
        let ghost key = container_port@;
        let ghost ms = self.entries@;
        let key_chars = chars_of(container_port.as_str());
        let mut p: usize = 0;
        while p < self.entries.len() && port_below(&self.entries[p], key_chars.as_slice())
            invariant
                ms == self.entries@,
                key_chars@ == key,
                p <= ms.len(),
                slot_from(ms, key, 0) == slot_from(ms, key, p as int),
                forall|i: int| 0 <= i < p ==> text_lt(#[trigger] ms[i].container_port@, key),
            decreases ms.len() - p,
        {
            p = p + 1;
        }
        assert(slot_from(ms, key, p as int) == p);
        let m = PortMapping { container_port, bindings };
        let same = p < self.entries.len() && crate::models::str_eq(
            self.entries[p].container_port.as_str(),
            m.container_port.as_str(),
        );
        let mut entries = Vec::new();
        std::mem::swap(&mut entries, &mut self.entries);
        if same {
            entries.set(p, m);
        } else {
            entries.insert(p, m);
        }
        proof {
            let out = entries@;
            assert forall|i: int, j: int| 0 <= i < j < out.len() implies text_lt(
                out[i].container_port@,
                out[j].container_port@,
            ) by {
                if same {
                    if i == p as int {
                        assert(text_lt(ms[i].container_port@, ms[j].container_port@));
                    } else if j == p as int {
                        assert(text_lt(ms[i].container_port@, ms[j].container_port@));
                    }
                } else {
                    let pp = p as int;
                    if j == pp {
                        assert(text_lt(ms[i].container_port@, key));
                    } else if i == pp {
                        assert(out[j] == ms[j - 1]);
                        if pp < ms.len() {
                            lemma_text_lt_total(ms[pp].container_port@, key);
                            assert(text_lt(key, ms[pp].container_port@));
                            if j - 1 > pp {
                                lemma_text_lt_transitive(
                                    key,
                                    ms[pp].container_port@,
                                    ms[j - 1].container_port@,
                                );
                            }
                        }
                    } else if i < pp && j > pp {
                        assert(out[i] == ms[i] && out[j] == ms[j - 1]);
                    } else if i > pp {
                        assert(out[i] == ms[i - 1] && out[j] == ms[j - 1]);
                    } else {
                        assert(out[i] == ms[i] && out[j] == ms[j]);
                    }
                }
            }
        }
        self.entries = entries;
    }
}

#[derive(Debug, Clone, PartialEq, Eq)]
pub struct ContainerConfig {
    pub image: String,
    pub labels: Option<BTreeMap<String, String>>,
}

#[derive(Debug, Clone, PartialEq, Eq)]
pub struct ContainerState {
    pub running: Option<bool>,
}

#[derive(Debug, PartialEq, Eq)]
pub struct HostConfig {
    pub privileged: Option<bool>,
    pub binds: Option<Vec<String>>,
    pub port_bindings: Option<PortTable>,
}

#[derive(Debug, Clone, PartialEq, Eq)]
pub struct Mount {
    pub source: String,
    pub destination: String,
}

#[derive(Debug, PartialEq, Eq)]
pub struct NetworkSettings {
    pub ports: Option<PortTable>,
}

/// What the Docker API reports when a container is inspected, as far as the
/// inventory needs it.
#[derive(Debug, PartialEq, Eq)]
pub struct ContainerInspect {
    pub id: String,
    pub name: String,
    /// The local image ID (the record's top-level `Image`), when reported.
    pub image_id: Option<String>,
    pub config: ContainerConfig,
    pub state: ContainerState,
    pub host_config: HostConfig,
    pub mounts: Vec<Mount>,
    pub network_settings: NetworkSettings,
}

/// A network endpoint as plain values.
pub struct EndpointView {
    pub protocol: Seq<char>,
    pub address: Seq<char>,
    pub port: u16,
    pub exposure: Exposure,
    pub process: Option<Seq<char>>,
}

pub open spec fn endpoint_view(e: NetworkEndpoint) -> EndpointView {
    EndpointView {
        protocol: e.protocol@,
        address: e.address@,
        port: e.port,
        exposure: e.exposure,
        process: opt_view(e.process),
    }
}

pub open spec fn endpoint_views(es: Seq<NetworkEndpoint>) -> Seq<EndpointView> {
    Seq::new(es.len(), |i: int| endpoint_view(es[i]))
}

/// How exposed a port bound to `address` on the host is; brackets around an
/// IPv6 address are ignored and an empty address binds every interface.
pub open spec fn binding_exposure(address: Seq<char>) -> Exposure {
    let a = strip_brackets(address);
    if a == "0.0.0.0"@ || a == "::"@ || a == "*"@ || a.len() == 0 {
        Exposure::Public
    } else if a == "127.0.0.1"@ || a == "::1"@ || a == "localhost"@ {
        Exposure::Localhost
    } else {
        Exposure::Internal
    }
}

fn exposure_for_chars(address: &[char]) -> (e: Exposure)
    ensures
        e == binding_exposure(address@),
{
    let a = strip_brackets_chars(address);
    let a = a.as_slice();
    if is_text(a, "0.0.0.0") || is_text(a, "::") || is_text(a, "*") || a.len() == 0 {
        Exposure::Public
    } else if is_text(a, "127.0.0.1") || is_text(a, "::1") || is_text(a, "localhost") {
        Exposure::Localhost
    } else {
        Exposure::Internal
    }
}

/// How exposed a port published on host address `address` is.
pub fn exposure_for_address(address: &str) -> (e: Exposure)
    ensures
        e == binding_exposure(address@),
{
    let chars = chars_of(address);
    exposure_for_chars(chars.as_slice())
}

/// The port number and protocol of a container port such as `80/tcp`: the
/// number before the first `/` (0 when it is not one), the protocol after it
/// (`tcp` when there is none).
pub open spec fn container_port_parts(value: Seq<char>) -> (u16, Seq<char>) {
    let parts = split_on(value, '/');
    let port = match parse_unsigned(parts[0], 65535) {
        Some(p) => p as u16,
        None => 0,
    };
    let protocol = if parts.len() > 1 {
        parts[1]
    } else {
        "tcp"@
    };
    (port, protocol)
}

proof fn lemma_split_on_nonempty(s: Seq<char>, c: char)
    ensures
        split_on(s, c).len() >= 1,
{
    crate::text::lemma_index_of(s, c);
}

pub fn parse_container_port(value: &str) -> (r: (u16, String))
    ensures
        r.0 == container_port_parts(value@).0,
        r.1@ == container_port_parts(value@).1,
{
    let chars = chars_of(value);
    let parts = split_char(chars.as_slice(), '/');
    proof {
        lemma_split_on_nonempty(value@, '/');
    }
    assert(parts@[0]@ == views(parts@)[0]);
    let port = match parse_unsigned_chars(parts[0].as_slice(), 65535) {
        Some(p) => p as u16,
        None => 0,
    };
    let protocol = if parts.len() > 1 {
        assert(parts@[1]@ == views(parts@)[1]);
        string_of(parts[1].as_slice())
    } else {
        String::from_str("tcp")
    };
    (port, protocol)
}

/// The endpoints that the host bindings of one container port give.
pub open spec fn binding_endpoints(
    bindings: Seq<PortBinding>,
    port: u16,
    protocol: Seq<char>,
    process: Seq<char>,
) -> Seq<EndpointView>
    decreases bindings.len(),
{
    if bindings.len() == 0 {
        seq![]
    } else {
        let b = bindings.last();
        let address = if trim(b.host_ip@).len() == 0 {
            "0.0.0.0"@
        } else {
            b.host_ip@
        };
        let host_port = match parse_unsigned(b.host_port@, 65535) {
            Some(p) => p as u16,
            None => port,
        };
        binding_endpoints(bindings.drop_last(), port, protocol, process).push(
            EndpointView {
                protocol,
                address,
                port: host_port,
                exposure: binding_exposure(address),
                process: Some(process),
            },
        )
    }
}

/// The endpoints of one container port: one per host binding, or a single
/// container-network endpoint when it is not published.
pub open spec fn mapping_endpoints(m: PortMapping, process: Seq<char>) -> Seq<EndpointView> {
    let (port, protocol) = container_port_parts(m.container_port@);
    if m.bindings matches Some(bs) && bs@.len() > 0 {
        binding_endpoints(m.bindings.unwrap()@, port, protocol, process)
    } else {
        seq![
            EndpointView {
                protocol,
                address: "container-network"@,
                port,
                exposure: Exposure::Internal,
                process: Some(process),
            },
        ]
    }
}

/// The endpoints of a sequence of container ports, in order.
pub open spec fn mappings_endpoints(ms: Seq<PortMapping>, process: Seq<char>) -> Seq<EndpointView>
    decreases ms.len(),
{
    if ms.len() == 0 {
        seq![]
    } else {
        mappings_endpoints(ms.drop_last(), process) + mapping_endpoints(ms.last(), process)
    }
}

/// The container's name without its leading slashes.
pub open spec fn container_name(c: ContainerInspect) -> Seq<char> {
    strip_leading(c.name@, '/')
}

/// The port table the inventory reads: the published ports when Docker
/// reports them, else the configured port bindings.
pub open spec fn port_table(c: ContainerInspect) -> Option<PortTable> {
    if c.network_settings.ports is Some {
        c.network_settings.ports
    } else {
        c.host_config.port_bindings
    }
}

/// The network endpoints of a container.
pub open spec fn container_endpoints(c: ContainerInspect) -> Seq<EndpointView> {
    match port_table(c) {
        Some(t) => mappings_endpoints(t.mappings(), container_name(c)),
        None => seq![],
    }
}

fn push_mapping_endpoints(
    endpoints: &mut Vec<NetworkEndpoint>,
    mapping: &PortMapping,
    process: &String,
)
    ensures
        endpoint_views(final(endpoints)@) == endpoint_views(old(endpoints)@) + mapping_endpoints(
            *mapping,
            process@,
        ),
{
    let (port, protocol) = parse_container_port(mapping.container_port.as_str());
    let ghost start = endpoint_views(endpoints@);
    match &mapping.bindings {
        Some(bindings) if bindings.len() > 0 => {
            let mut i: usize = 0;
            while i < bindings.len()
                invariant
                    i <= bindings@.len(),
                    protocol@ == container_port_parts(mapping.container_port@).1,
                    port == container_port_parts(mapping.container_port@).0,
                    endpoint_views(endpoints@) == start + binding_endpoints(
                        bindings@.take(i as int),
                        port,
                        protocol@,
                        process@,
                    ),
                decreases bindings@.len() - i,
            {
                let binding = &bindings[i];
                let port_chars = chars_of(binding.host_port.as_str());
                let host_port = match parse_unsigned_chars(port_chars.as_slice(), 65535) {
                    Some(p) => p as u16,
                    None => port,
                };
                let ip_chars = chars_of(binding.host_ip.as_str());
                let trimmed = trim_chars(ip_chars.as_slice());
                let address = if trimmed.len() == 0 {
                    String::from_str("0.0.0.0")
                } else {
                    binding.host_ip.clone()
                };
                let address_chars = chars_of(address.as_str());
                let exposure = exposure_for_chars(address_chars.as_slice());
                let ghost before = endpoints@;
                endpoints.push(
                    NetworkEndpoint {
                        protocol: protocol.clone(),
                        exposure,
                        address,
                        port: host_port,
                        process: Some(process.clone()),
                    },
                );
                proof {
                    let next = bindings@.take(i + 1);
                    assert(next.drop_last() == bindings@.take(i as int));
                    assert(next.last() == *binding);
                    assert(endpoint_views(endpoints@) == endpoint_views(before).push(
                        endpoint_view(endpoints@.last()),
                    ));
                }
                i = i + 1;
            }
            assert(bindings@.take(bindings@.len() as int) == bindings@);
        },
        _ => {
            let ghost before = endpoints@;
            endpoints.push(
                NetworkEndpoint {
                    protocol,
                    address: String::from_str("container-network"),
                    port,
                    exposure: Exposure::Internal,
                    process: Some(process.clone()),
                },
            );
            assert(endpoint_views(endpoints@) == endpoint_views(before).push(
                endpoint_view(endpoints@.last()),
            ));
        },
    }
}

fn endpoints_with_process(container: &ContainerInspect, process: &String) -> (endpoints: Vec<
    NetworkEndpoint,
>)
    requires
        process@ == container_name(*container),
    ensures
        endpoint_views(endpoints@) == container_endpoints(*container),
{
    let mut endpoints: Vec<NetworkEndpoint> = Vec::new();
    let ports = match &container.network_settings.ports {
        Some(ports) => Some(ports),
        None => container.host_config.port_bindings.as_ref(),
    };
    if let Some(table) = ports {
        let ports = table.entries();
        let mut i: usize = 0;
        while i < ports.len()
            invariant
                i <= ports@.len(),
                endpoint_views(endpoints@) == mappings_endpoints(ports@.take(i as int), process@),
            decreases ports@.len() - i,
        {
            push_mapping_endpoints(&mut endpoints, &ports[i], process);
            proof {
                let next = ports@.take(i + 1);
                assert(next.drop_last() == ports@.take(i as int));
                assert(next.last() == ports@[i as int]);
            }
            i = i + 1;
        }
        assert(ports@.take(ports@.len() as int) == ports@);
    }
    assert(endpoint_views(endpoints@) == container_endpoints(*container));
    endpoints
}

/// The strongest exposure among endpoints: public over internal over

/// The endpoints a container publishes, each named after the container.
pub fn extract_endpoints(container: &ContainerInspect) -> (endpoints: Vec<NetworkEndpoint>)
    ensures
        endpoint_views(endpoints@) == container_endpoints(*container),
{
    let name_chars = chars_of(container.name.as_str());
    let name_stripped = strip_leading_chars(name_chars.as_slice(), '/');
    let name = string_of(name_stripped.as_slice());
    endpoints_with_process(container, &name)
}

/// localhost; unknown when there are none of these.
pub open spec fn strongest(es: Seq<EndpointView>) -> Exposure {
    if exists|i: int| 0 <= i < es.len() && es[i].exposure == Exposure::Public {
        Exposure::Public
    } else if exists|i: int| 0 <= i < es.len() && es[i].exposure == Exposure::Internal {
        Exposure::Internal
    } else if exists|i: int| 0 <= i < es.len() && es[i].exposure == Exposure::Localhost {
        Exposure::Localhost
    } else {
        Exposure::Unknown
    }
}

fn any_exposure(endpoints: &Vec<NetworkEndpoint>, wanted: Exposure) -> (b: bool)
    ensures
        b == exists|i: int|
            0 <= i < endpoint_views(endpoints@).len() && endpoint_views(endpoints@)[i].exposure
                == wanted,
{
    let mut i: usize = 0;
    while i < endpoints.len()
        invariant
            i <= endpoints@.len(),
            forall|j: int| 0 <= j < i ==> endpoints@[j].exposure != wanted,
        decreases endpoints@.len() - i,
    {
        if endpoints[i].exposure == wanted {
            assert(endpoint_views(endpoints@)[i as int].exposure == wanted);
            return true;
        }
        i = i + 1;
    }
    assert forall|j: int| 0 <= j < endpoint_views(endpoints@).len() implies endpoint_views(
        endpoints@,
    )[j].exposure != wanted by {
        assert(endpoint_views(endpoints@)[j].exposure == endpoints@[j].exposure);
    }
    false
}

pub fn strongest_exposure(endpoints: &Vec<NetworkEndpoint>) -> (e: Exposure)
    ensures
        e == strongest(endpoint_views(endpoints@)),
{
    if any_exposure(endpoints, Exposure::Public) {
        Exposure::Public
    } else if any_exposure(endpoints, Exposure::Internal) {
        Exposure::Internal
    } else if any_exposure(endpoints, Exposure::Localhost) {
        Exposure::Localhost
    } else {
        Exposure::Unknown
    }
}

/// Whether a path names the Docker socket.
pub open spec fn names_socket(path: Seq<char>) -> bool {
    contains(path, "/var/run/docker.sock"@)
}

/// Whether the container mounts or bind-mounts the Docker socket.
pub open spec fn socket_mounted(c: ContainerInspect) -> bool {
    ||| exists|i: int|
        0 <= i < c.mounts@.len() && (names_socket(c.mounts@[i].source@) || names_socket(
            c.mounts@[i].destination@,
        ))
    ||| (c.host_config.binds matches Some(binds) && exists|i: int|
        0 <= i < binds@.len() && names_socket(binds@[i]@))
}

fn mentions_socket(path: &String) -> (b: bool)
    ensures
        b == names_socket(path@),
{
    let chars = chars_of(path.as_str());
    let socket = chars_of("/var/run/docker.sock");
    find_in(chars.as_slice(), socket.as_slice()).is_some()
}

pub fn docker_socket_mounted(container: &ContainerInspect) -> (b: bool)
    ensures
        b == socket_mounted(*container),
{
    let mut mounted = false;
    let mut i: usize = 0;
    while i < container.mounts.len()
        invariant
            i <= container.mounts@.len(),
            mounted == exists|j: int|
                0 <= j < i && (names_socket(container.mounts@[j].source@) || names_socket(
                    container.mounts@[j].destination@,
                )),
        decreases container.mounts@.len() - i,
    {
        let m = &container.mounts[i];
        if mentions_socket(&m.source) || mentions_socket(&m.destination) {
            mounted = true;
        }
        i = i + 1;
    }
    let mut bound = false;
    if let Some(binds) = &container.host_config.binds {
        let mut k: usize = 0;
        while k < binds.len()
            invariant
                k <= binds@.len(),
                bound == exists|j: int| 0 <= j < k && names_socket(binds@[j]@),
            decreases binds@.len() - k,
        {
            if mentions_socket(&binds[k]) {
                bound = true;
            }
            k = k + 1;
        }
    }
    mounted || bound
}

/// The labels a container reports, none when it reports no label table.
pub open spec fn container_labels(c: ContainerInspect) -> Map<String, String> {
    match c.config.labels {
        Some(m) => m@,
        None => Map::empty(),
    }
}

fn labels_of(container: &ContainerInspect) -> (m: BTreeMap<String, String>)
    ensures
        m@ == container_labels(*container),
{
    match &container.config.labels {
        Some(labels) => labels.clone(),
        None => BTreeMap::new(),
    }
}

/// The first twelve characters of the container id (all of it if shorter).
pub open spec fn short_container_id(c: ContainerInspect) -> Seq<char> {
    if c.id@.len() <= 12 {
        c.id@
    } else {
        c.id@.take(12)
    }
}

/// `item` is the inventory record of an inspected container.
pub open spec fn container_item_for(item: InventoryItem, c: ContainerInspect) -> bool {
    &&& item.id@ == "docker:"@ + short_container_id(c)
    &&& item.name@ == container_name(c)
    &&& item.source == InventorySource::Docker
    &&& item.kind == InventoryKind::Container
    &&& item.status == (if c.state.running == Some(true) {
        RuntimeStatus::Running
    } else {
        RuntimeStatus::Stopped
    })
    &&& item.image == Some(c.config.image)
    &&& item.package_name is None
    &&& item.package_version is None
    &&& item.binary_path is None
    &&& item.labels@ == container_labels(c)
    &&& endpoint_views(item.endpoints@) == container_endpoints(c)
    &&& item.exposure == strongest(container_endpoints(c))
    &&& item.collected_at >= 0
    &&& item.docker matches Some(d) && {
        &&& d.container_id == c.id
        &&& d.image == c.config.image
        &&& d.image_id == c.image_id
        &&& d.privileged == (c.host_config.privileged == Some(true))
        &&& d.docker_socket_mounted == socket_mounted(c)
        &&& d.labels@ == container_labels(c)
    }
}

fn inventory_item_from_inspect(container: &ContainerInspect) -> (item: InventoryItem)
    ensures
        container_item_for(item, *container),
{
    let name_chars = chars_of(container.name.as_str());
    let name_stripped = strip_leading_chars(name_chars.as_slice(), '/');
    let name = string_of(name_stripped.as_slice());
    let id_chars = chars_of(container.id.as_str());
    let short_len = if id_chars.len() <= 12 {
        id_chars.len()
    } else {
        12
    };
    let short_id = copy_range(id_chars.as_slice(), 0, short_len);
    let short_text = string_of(short_id.as_slice());
    assert(short_text@ == short_container_id(*container)) by {
        if id_chars@.len() <= 12 {
            assert(id_chars@.subrange(0, id_chars@.len() as int) == id_chars@);
        } else {
            assert(id_chars@.subrange(0, 12) == id_chars@.take(12));
        }
    }
    let endpoints = endpoints_with_process(container, &name);
    let exposure = strongest_exposure(&endpoints);
    let docker_socket_mounted = docker_socket_mounted(container);
    let privileged = match container.host_config.privileged {
        Some(p) => p,
        None => false,
    };
    let image = container.config.image.clone();
    let mut item = InventoryItem::new(
        concat2("docker:", short_text.as_str()),
        name,
        InventorySource::Docker,
        InventoryKind::Container,
    );
    item.status = if container.state.running == Some(true) {
        RuntimeStatus::Running
    } else {
        RuntimeStatus::Stopped
    };
    item.image = Some(image.clone());
    item.labels = labels_of(container);
    item.endpoints = endpoints;
    item.exposure = exposure;
    item.docker = Some(
        DockerMetadata {
            container_id: container.id.clone(),
            image,
            image_id: clone_opt_string(&container.image_id),
            privileged,
            docker_socket_mounted,
            labels: labels_of(container),
        },
    );
    item
}

/// The inventory records of inspected containers, one per container in order.
pub fn parse_docker_inspect_json(inspections: &[ContainerInspect]) -> (items: Vec<InventoryItem>)
    ensures
        items@.len() == inspections@.len(),
        forall|k: int| 0 <= k < items@.len() ==> #[trigger] container_item_for(items@[k], inspections@[k]),
{
    let mut items: Vec<InventoryItem> = Vec::new();
    let mut i: usize = 0;
    while i < inspections.len()
        invariant
            i <= inspections@.len(),
            items@.len() == i,
            forall|k: int| 0 <= k < i ==> #[trigger] container_item_for(items@[k], inspections@[k]),
        decreases inspections@.len() - i,
    {
        items.push(inventory_item_from_inspect(&inspections[i]));
        i = i + 1;
    }
    items
}

/// The body of a Docker API reply, or why it was refused: a reply without a
/// blank line after its head is invalid, and one whose status is not 200 failed.
pub open spec fn response_body(response: Seq<char>, path: Seq<char>) -> Result<Seq<char>, Seq<char>> {
    match find(response, "\r\n\r\n"@) {
        Some(i) => {
            let head = response.take(i);
            if starts_with(head, "HTTP/1.1 200"@) || starts_with(head, "HTTP/1.0 200"@) {
                Ok(response.skip(i + 4))
            } else {
                Err("Docker API request "@ + path + " failed: "@ + head)
            }
        },
        None => Err("invalid Docker API HTTP response"@),
    }
}

/// Splits a raw HTTP reply of the Docker API into its body, or says why not.
pub fn docker_response_body(response: &str, path: &str) -> (r: Result<String, String>)
    ensures
        match r {
            Ok(body) => response_body(response@, path@) == Ok::<Seq<char>, Seq<char>>(body@),
            Err(message) => response_body(response@, path@) == Err::<Seq<char>, Seq<char>>(
                message@,
            ),
        },
{
    let chars = chars_of(response);
    let blank = chars_of("\r\n\r\n");
    proof {
        reveal_strlit("\r\n\r\n");
    }
    match find_in(chars.as_slice(), blank.as_slice()) {
        Some(i) => {
            assert(chars@.len() == chars.len());
            let head = copy_range(chars.as_slice(), 0, i);
            let ok11 = chars_of("HTTP/1.1 200");
            let ok10 = chars_of("HTTP/1.0 200");
            if has_prefix(head.as_slice(), ok11.as_slice()) || has_prefix(
                head.as_slice(),
                ok10.as_slice(),
            ) {
                let body = copy_range(chars.as_slice(), i + 4, chars.len());
                assert(body@ == chars@.skip(i + 4));
                Ok(string_of(body.as_slice()))
            } else {
                let mut message = String::from_str("Docker API request ");
                message.append(path);
                message.append(" failed: ");
                let head_text = string_of(head.as_slice());
                message.append(head_text.as_str());
                Err(message)
            }
        },
        None => Err(String::from_str("invalid Docker API HTTP response")),
    }
}


/// The HTTP request for a Docker API path over the Unix socket.
pub fn docker_request(path: &str) -> (r: String)
    ensures
        r@ == "GET "@ + path@ + " HTTP/1.1\r\nHost: docker\r\nConnection: close\r\n\r\n"@,
{
    concat3("GET ", path, " HTTP/1.1\r\nHost: docker\r\nConnection: close\r\n\r\n")
}

/// The API path that inspects container `id`.
pub open spec fn inspect_path_of(id: Seq<char>) -> Seq<char> {
    "/containers/"@ + id + "/json"@
}

pub fn inspect_path(id: &str) -> (p: String)
    ensures
        p@ == inspect_path_of(id@),
{
    concat3("/containers/", id, "/json")
}

/// The base URL of a Docker API over HTTP: without trailing slashes.
pub fn api_base(url: &str) -> (b: String)
    ensures
        b@ == strip_suffixes(url@, "/"@),
{
    let chars = chars_of(url);
    let slash = chars_of("/");
    let stripped = strip_suffixes_chars(chars.as_slice(), slash.as_slice());
    string_of(stripped.as_slice())
}

/// The URL of an API path under a base URL.
pub fn api_url(base: &str, path: &str) -> (u: String)
    ensures
        u@ == base@ + path@,
{
    concat2(base, path)
}

} // verus!
