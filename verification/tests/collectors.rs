use std::collections::BTreeMap;

use norn::docker::{
    api_base, api_url, docker_request, docker_response_body, docker_socket_mounted,
    exposure_for_address, extract_endpoints, inspect_path, parse_container_port,
    parse_docker_inspect_json, strongest_exposure, ContainerConfig, ContainerInspect,
    ContainerState, DockerCollector, HostConfig, Mount, NetworkSettings, PortBinding, PortMapping,
    PortTable,
};
use norn::inventory::command_failure;
use norn::models::{Exposure, InventoryKind, InventorySource, RuntimeStatus};
use norn::packages::{host_item, parse_dpkg_list, parse_dpkg_query, PackageCollector};
use norn::ports::{extract_process, parse_ss_listening, split_address_port, PortCollector};
use norn::systemd::{parse_systemd_units, SystemdCollector};

fn binding(ip: &str, port: &str) -> PortBinding {
    PortBinding {
        host_ip: ip.to_string(),
        host_port: port.to_string(),
    }
}

fn mapping(port: &str, bindings: Option<Vec<PortBinding>>) -> PortMapping {
    PortMapping {
        container_port: port.to_string(),
        bindings,
    }
}

fn container(
    id: &str,
    name: &str,
    image: &str,
    labels: Option<BTreeMap<String, String>>,
    privileged: bool,
    mounts: Vec<Mount>,
    ports: Option<Vec<PortMapping>>,
) -> ContainerInspect {
    ContainerInspect {
        id: id.to_string(),
        name: name.to_string(),
        image_id: Some(format!("sha256:{id}")),
        config: ContainerConfig {
            image: image.to_string(),
            labels,
        },
        state: ContainerState {
            running: Some(true),
        },
        host_config: HostConfig {
            privileged: Some(privileged),
            binds: None,
            port_bindings: None,
        },
        mounts,
        network_settings: NetworkSettings {
            ports: ports.map(table),
        },
    }
}

fn table(mappings: Vec<PortMapping>) -> PortTable {
    let mut table = PortTable::new();
    for m in mappings {
        table.insert(m.container_port, m.bindings);
    }
    table
}

/// The four containers of the Docker inspect fixture.
fn fixture() -> Vec<ContainerInspect> {
    let mut labels = BTreeMap::new();
    labels.insert("norn.service".to_string(), "edge".to_string());
    vec![
        container(
            "0123456789abcdef0123",
            "/norn-nginx",
            "nginx:1.25.3",
            Some(labels),
            false,
            Vec::new(),
            Some(vec![mapping("80/tcp", Some(vec![binding("0.0.0.0", "8080")]))]),
        ),
        container(
            "1123456789abcdef0123",
            "/norn-postgres",
            "postgres:16",
            None,
            false,
            Vec::new(),
            Some(vec![mapping("5432/tcp", None)]),
        ),
        container(
            "2123456789abcdef0123",
            "/norn-privileged-worker",
            "busybox:1.36",
            None,
            true,
            Vec::new(),
            None,
        ),
        container(
            "3123456789abcdef0123",
            "/norn-build-agent",
            "docker:24-cli",
            None,
            false,
            vec![Mount {
                source: "/var/run/docker.sock".to_string(),
                destination: "/var/run/docker.sock".to_string(),
            }],
            Some(vec![mapping("9000/tcp", Some(vec![binding("127.0.0.1", "9000")]))]),
        ),
    ]
}

#[test]
fn parses_docker_inspect_fixture() {
    let items = parse_docker_inspect_json(&fixture());

    assert_eq!(items.len(), 4);
    assert_eq!(items[0].name, "norn-nginx");
    assert_eq!(items[0].image.as_deref(), Some("nginx:1.25.3"));
    assert_eq!(items[0].labels.get("norn.service").unwrap(), "edge");
}

#[test]
fn detects_public_and_internal_exposure() {
    let items = parse_docker_inspect_json(&fixture());
    let nginx = items.iter().find(|item| item.name == "norn-nginx").unwrap();
    let postgres = items
        .iter()
        .find(|item| item.name == "norn-postgres")
        .unwrap();

    assert_eq!(nginx.exposure, Exposure::Public);
    assert!(nginx.endpoints.iter().any(|endpoint| endpoint.port == 8080));
    assert_eq!(postgres.exposure, Exposure::Internal);
}

#[test]
fn detects_privileged_container() {
    let items = parse_docker_inspect_json(&fixture());
    let worker = items
        .iter()
        .find(|item| item.name == "norn-privileged-worker")
        .unwrap();

    assert!(worker.docker.as_ref().unwrap().privileged);
}

#[test]
fn detects_docker_socket_mount() {
    let items = parse_docker_inspect_json(&fixture());
    let agent = items
        .iter()
        .find(|item| item.name == "norn-build-agent")
        .unwrap();

    assert!(agent.docker.as_ref().unwrap().docker_socket_mounted);
    assert_eq!(agent.exposure, Exposure::Localhost);
}

const DPKG_STATUS: &str = "\
Desired=Unknown/Install/Remove/Purge/Hold
| Status=Not/Inst/Conf-files/Unpacked/halF-conf/Half-inst/trig-aWait/Trig-pend
||/ Name           Version            Architecture Description
+++-==============-==================-============-=================================
ii  libc6          2.36-9+deb12u4     amd64        GNU C Library: Shared libraries
ii  nginx          1.22.1-9           amd64        small, powerful, scalable web/proxy server
ii  openssl        3.0.11-1~deb12u2   amd64        Secure Sockets Layer toolkit
rc  oldpkg         0.1.0-1            amd64        removed package with leftover config
";

#[test]
fn parses_installed_dpkg_packages() {
    let packages = parse_dpkg_list(DPKG_STATUS);

    assert_eq!(packages.len(), 3);
    assert!(packages.iter().any(|package| {
        package.package_name.as_deref() == Some("openssl")
            && package.package_version.as_deref() == Some("3.0.11-1~deb12u2")
    }));
    assert!(!packages
        .iter()
        .any(|package| package.package_name.as_deref() == Some("oldpkg")));
}

#[test]
fn collect_includes_host_item() {
    let mut items = parse_dpkg_list(DPKG_STATUS);
    items.push(host_item());

    let host = items.iter().find(|i| i.kind == InventoryKind::Host);
    assert!(host.is_some(), "host item should be present");
    let host = host.unwrap();
    assert_eq!(host.id, "host:localhost");
    assert_eq!(host.source, InventorySource::Host);
}

const SS_LISTENING: &str = "\
Netid State  Recv-Q Send-Q Local Address:Port  Peer Address:Port Process
tcp   LISTEN 0      511          0.0.0.0:80         0.0.0.0:*     users:((\"nginx\",pid=812,fd=6))
tcp   LISTEN 0      244        127.0.0.1:5432       0.0.0.0:*     users:((\"postgres\",pid=901,fd=5))
udp   UNCONN 0      0        192.168.1.10:5353      0.0.0.0:*     users:((\"mdns\",pid=455,fd=12))
tcp   LISTEN 0      128             [::]:22            [::]:*     users:((\"sshd\",pid=700,fd=4))
tcp   ESTAB  0      0          10.0.0.5:22        10.0.0.9:51000
";

#[test]
fn parses_listening_ports() {
    let ports = parse_ss_listening(SS_LISTENING);

    assert_eq!(ports.len(), 4);
    assert!(ports
        .iter()
        .any(|item| item.name == "nginx" && item.exposure == Exposure::Public));
    assert!(ports
        .iter()
        .any(|item| item.name == "postgres" && item.exposure == Exposure::Localhost));
    assert!(ports
        .iter()
        .any(|item| item.name == "mdns" && item.exposure == Exposure::Internal));
}

const SYSTEMD_UNITS: &str = "\
UNIT                     LOAD   ACTIVE   SUB     DESCRIPTION
nginx.service            loaded active   running A high performance web server
postgresql.service       loaded active   running PostgreSQL RDBMS
ssh.service              loaded active   running OpenBSD Secure Shell server
inactive-example.service loaded inactive dead    An example that is not running
docker.service           loaded active   running Docker Application Container Engine
";

#[test]
fn parses_active_systemd_services() {
    let services = parse_systemd_units(SYSTEMD_UNITS);

    assert_eq!(services.len(), 4);
    assert!(services.iter().any(|service| service.name == "nginx"));
    assert!(!services
        .iter()
        .any(|service| service.name == "inactive-example"));
}

#[test]
fn systemd_items_are_active_services() {
    let services = parse_systemd_units(SYSTEMD_UNITS);
    let nginx = services.iter().find(|s| s.name == "nginx").unwrap();
    assert_eq!(nginx.id, "systemd:nginx.service");
    assert_eq!(nginx.status, RuntimeStatus::Active);
    assert_eq!(nginx.kind, InventoryKind::Service);
    assert_eq!(nginx.source, InventorySource::Systemd);
}

#[test]
fn ss_items_carry_their_endpoint() {
    let ports = parse_ss_listening(SS_LISTENING);
    let ssh = ports.iter().find(|item| item.name == "sshd").unwrap();
    assert_eq!(ssh.id, "port:tcp::::22");
    assert_eq!(ssh.exposure, Exposure::Public);
    assert_eq!(ssh.endpoints.len(), 1);
    assert_eq!(ssh.endpoints[0].port, 22);
    assert_eq!(ssh.endpoints[0].address, "::");
    assert_eq!(ssh.endpoints[0].process.as_deref(), Some("sshd"));
}

#[test]
fn ss_line_without_process_is_named_by_protocol_and_port() {
    let ports = parse_ss_listening("tcp LISTEN 0 10 10.1.2.3:8443 0.0.0.0:*\n");
    assert_eq!(ports.len(), 1);
    assert_eq!(ports[0].name, "tcp:8443");
    assert_eq!(ports[0].exposure, Exposure::Internal);
}

#[test]
fn splits_addresses_and_ports() {
    assert_eq!(
        split_address_port("0.0.0.0:80"),
        Some(("0.0.0.0".to_string(), 80))
    );
    assert_eq!(split_address_port("[::1]:53"), Some(("::1".to_string(), 53)));
    assert_eq!(split_address_port("*:5353"), Some(("*".to_string(), 5353)));
    assert_eq!(split_address_port("localhost"), None);
    assert_eq!(split_address_port("0.0.0.0:http"), None);
    assert_eq!(split_address_port("0.0.0.0:70000"), None);
}

#[test]
fn extracts_process_names() {
    assert_eq!(
        extract_process("users:((\"nginx\",pid=1,fd=6))").as_deref(),
        Some("nginx")
    );
    assert_eq!(extract_process("no process here"), None);
    assert_eq!(extract_process("users:((\"unterminated"), None);
}

#[test]
fn port_address_exposure() {
    assert_eq!(norn::ports::exposure_for_address("0.0.0.0"), Exposure::Public);
    assert_eq!(norn::ports::exposure_for_address("*"), Exposure::Public);
    assert_eq!(norn::ports::exposure_for_address("::1"), Exposure::Localhost);
    assert_eq!(norn::ports::exposure_for_address("10.0.0.1"), Exposure::Internal);
}

#[test]
fn docker_binding_exposure() {
    assert_eq!(exposure_for_address(""), Exposure::Public);
    assert_eq!(exposure_for_address("[::]"), Exposure::Public);
    assert_eq!(exposure_for_address("127.0.0.1"), Exposure::Localhost);
    assert_eq!(exposure_for_address("192.168.0.2"), Exposure::Internal);
}

#[test]
fn parses_container_ports() {
    assert_eq!(parse_container_port("80/tcp"), (80, "tcp".to_string()));
    assert_eq!(parse_container_port("53/udp"), (53, "udp".to_string()));
    assert_eq!(parse_container_port("8080"), (8080, "tcp".to_string()));
    assert_eq!(parse_container_port("web/tcp"), (0, "tcp".to_string()));
}

#[test]
fn container_endpoints_and_strongest_exposure() {
    let containers = fixture();
    let endpoints = extract_endpoints(&containers[0]);
    assert_eq!(endpoints.len(), 1);
    assert_eq!(endpoints[0].port, 8080);
    assert_eq!(endpoints[0].address, "0.0.0.0");
    assert_eq!(endpoints[0].process.as_deref(), Some("norn-nginx"));
    assert_eq!(strongest_exposure(&endpoints), Exposure::Public);

    let internal = extract_endpoints(&containers[1]);
    assert_eq!(internal[0].address, "container-network");
    assert_eq!(internal[0].port, 5432);
    assert_eq!(strongest_exposure(&internal), Exposure::Internal);
    assert_eq!(strongest_exposure(&Vec::new()), Exposure::Unknown);
    assert!(docker_socket_mounted(&containers[3]));
    assert!(!docker_socket_mounted(&containers[0]));
}

#[test]
fn docker_api_requests_and_responses() {
    assert_eq!(
        docker_request("/containers/json"),
        "GET /containers/json HTTP/1.1\r\nHost: docker\r\nConnection: close\r\n\r\n"
    );
    assert_eq!(inspect_path("abc"), "/containers/abc/json");
    assert_eq!(api_base("http://proxy:2375//"), "http://proxy:2375");
    assert_eq!(
        api_url("http://proxy:2375", "/containers/json"),
        "http://proxy:2375/containers/json"
    );
    assert_eq!(
        docker_response_body("HTTP/1.1 200 OK\r\nContent-Type: application/json\r\n\r\n[]", "/containers/json"),
        Ok("[]".to_string())
    );
    assert!(docker_response_body("HTTP/1.1 404 Not Found\r\n\r\n{}", "/containers/x/json").is_err());
    assert!(docker_response_body("garbage", "/containers/json").is_err());
}

#[test]
fn collectors_keep_their_settings() {
    let docker = DockerCollector::with_fixture("/var/run/docker.sock".to_string(), "fixture.json".to_string());
    assert_eq!(docker.socket(), "/var/run/docker.sock");
    assert_eq!(docker.fixture_path().as_deref(), Some("fixture.json"));
    assert!(!docker.uses_http());
    assert!(DockerCollector::new("http://proxy:2375".to_string()).uses_http());
    assert_eq!(docker.name(), "docker");
    assert_eq!(PackageCollector::new().fixture_path(), &None::<String>);
    assert_eq!(PortCollector::with_fixture("ss.txt".to_string()).fixture_path().as_deref(), Some("ss.txt"));
    assert_eq!(SystemdCollector::new().name(), "systemd");
}

#[test]
fn package_inventory_ends_with_host() {
    let query = "openssl\t3.0.11-1~deb12u2\tamd64\nbroken-line\n";
    let live = PackageCollector::new().inventory_from_listing(query);
    assert_eq!(live.len(), 2);
    assert_eq!(live[0].id, "package:openssl");
    assert_eq!(live[1].id, "host:localhost");

    let from_fixture = PackageCollector::with_fixture("dpkg.txt".to_string()).inventory_from_listing(DPKG_STATUS);
    assert_eq!(from_fixture.len(), 4);
    assert_eq!(from_fixture[3].kind, InventoryKind::Host);
    assert_eq!(parse_dpkg_query(query).len(), 1);
}

#[test]
fn tool_failures_name_the_tool() {
    assert_eq!(command_failure("ss", "  permission denied \n"), "ss failed: permission denied");
}

#[test]
fn configuration_turns_collectors_on() {
    let mut config = norn::config::NornConfig::default();
    config.collectors.ports.enabled = false;
    config.collectors.systemd.fixture_path = Some("units.txt".to_string());
    let set = norn::inventory::collectors_for(&config.collectors);
    assert_eq!(set.docker.as_ref().unwrap().socket(), "/var/run/docker.sock");
    assert_eq!(set.systemd.as_ref().unwrap().fixture_path().as_deref(), Some("units.txt"));
    assert!(set.packages.is_some());
    assert!(set.ports.is_none());

    let grype = norn::grype::scanner_for(&config.scanner.grype).unwrap();
    assert_eq!(grype.binary(), "grype");
    assert_eq!(grype.timeout_seconds(), 300);
    config.scanner.grype.enabled = false;
    assert!(norn::grype::scanner_for(&config.scanner.grype).is_none());
}

#[test]
fn inspected_containers_are_scanned_by_image_id() {
    let items = parse_docker_inspect_json(&fixture());
    assert_eq!(
        items[0].docker.as_ref().unwrap().image_id.as_deref(),
        Some("sha256:0123456789abcdef0123")
    );
    let targets = norn::inventory::scan_targets_from_inventory(&items);
    assert_eq!(targets[0].reference, "docker:sha256:0123456789abcdef0123");

    let mut without_id = fixture();
    without_id[0].image_id = None;
    let items = parse_docker_inspect_json(&without_id);
    assert_eq!(items[0].docker.as_ref().unwrap().image_id, None);
    let targets = norn::inventory::scan_targets_from_inventory(&items);
    assert_eq!(targets[0].reference, "docker:nginx:1.25.3");
}

#[test]
fn port_tables_keep_ports_ordered_and_once() {
    let mut t = PortTable::new();
    t.insert("80/tcp".to_string(), None);
    t.insert("443/tcp".to_string(), Some(vec![binding("0.0.0.0", "443")]));
    t.insert("53/udp".to_string(), None);
    t.insert("80/tcp".to_string(), Some(vec![binding("127.0.0.1", "8080")]));
    let ports: Vec<&str> = t.entries().iter().map(|m| m.container_port.as_str()).collect();
    assert_eq!(ports, vec!["443/tcp", "53/udp", "80/tcp"]);
    assert_eq!(t.entries()[2].bindings.as_ref().unwrap()[0].host_port, "8080");
}
