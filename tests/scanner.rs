use blinkscan::{scan_network, HostIterator, NeighborEntry, NeighborTable, NetworkRange, Vendor};

const REGISTRY: &str = "Registry,Assignment,Organization Name\n\
MA-L,405582,Nokia\n\
MA-L,010101,SomeCorp\n";

fn ip(a: u8, b: u8, c: u8, d: u8) -> u32 {
    u32::from_be_bytes([a, b, c, d])
}

fn neighbors() -> Vec<NeighborEntry> {
    vec![
        NeighborEntry { ip: ip(192, 168, 1, 1), mac: [0x40, 0x55, 0x82, 0xc3, 0xe5, 0x5b] },
        NeighborEntry { ip: ip(192, 168, 1, 7), mac: [0; 6] },
        NeighborEntry { ip: ip(192, 168, 1, 9), mac: [0x01, 0x01, 0x01, 0x67, 0xb2, 0x1d] },
        NeighborEntry { ip: ip(192, 168, 1, 9), mac: [0xaa, 0, 0, 0, 0, 1] },
        NeighborEntry { ip: ip(192, 168, 1, 20), mac: [0xbb, 0xbb, 0xbb, 0xd2, 0xf5, 0xb6] },
    ]
}

fn assembler() -> HostIterator {
    HostIterator::new(Vendor::new(REGISTRY.as_bytes()).unwrap(), neighbors())
}

#[test]
fn snapshot_drops_zero_hardware_addresses() {
    let table = NeighborTable::snapshot(neighbors());
    assert_eq!(table.len(), 4);
    assert_eq!(table.find(ip(192, 168, 1, 7)), None);
    assert_eq!(table.find(ip(192, 168, 1, 9)), Some([0x01, 0x01, 0x01, 0x67, 0xb2, 0x1d]));
}

#[test]
fn reachable_but_unknown_address_gives_no_host() {
    let it = assembler();
    assert_eq!(it.neighbor_mac(ip(192, 168, 1, 50)), None);
    assert_eq!(it.neighbor_mac(ip(192, 168, 1, 7)), None);
    assert!(it.neighbor_mac(ip(192, 168, 1, 1)).is_some());
}

#[test]
fn host_record_is_filled() {
    let it = assembler();
    let mac = it.neighbor_mac(ip(192, 168, 1, 1)).unwrap();
    let host = it.assemble(ip(192, 168, 1, 1), mac, Some("router.lan".to_string()));
    assert_eq!(host.host, "192.168.1.1");
    assert_eq!(host.mac, Some("40:55:82:C3:E5:5B".to_string()));
    assert_eq!(host.vendor, Some("Nokia".to_string()));
    assert_eq!(host.hostname, Some("router.lan".to_string()));
}

#[test]
fn unknown_vendor_and_failed_lookup_give_empty_names() {
    let it = assembler();
    let mac = it.neighbor_mac(ip(192, 168, 1, 20)).unwrap();
    let host = it.assemble(ip(192, 168, 1, 20), mac, None);
    assert_eq!(host.host, "192.168.1.20");
    assert_eq!(host.mac, Some("BB:BB:BB:D2:F5:B6".to_string()));
    assert_eq!(host.vendor, Some(String::new()));
    assert_eq!(host.hostname, Some(String::new()));
}

#[test]
fn scan_plan_probes_each_address_once() {
    let range = NetworkRange::new(ip(192, 168, 1, 1), 24).unwrap();
    let plan = scan_network(range, neighbors(), Vendor::new(REGISTRY.as_bytes()).unwrap());
    assert_eq!(plan.targets.len(), 256);
    let mut sorted = plan.targets.clone();
    sorted.dedup();
    assert_eq!(sorted.len(), 256);
    assert!(!plan.large_scan);
    assert_eq!(plan.hosts.arp_table.len(), 4);
    let big = NetworkRange::new(ip(10, 0, 0, 1), 22).unwrap();
    let plan = scan_network(big, Vec::new(), Vendor::new(b"").unwrap());
    assert!(plan.large_scan);
    assert_eq!(plan.targets.len(), 1024);
}

#[test]
fn only_reachable_and_known_addresses_become_hosts() {
    let it = assembler();
    let reachable = [ip(192, 168, 1, 50), ip(192, 168, 1, 9), ip(192, 168, 1, 7), ip(192, 168, 1, 1)];
    let hosts: Vec<String> = reachable
        .iter()
        .filter_map(|a| it.neighbor_mac(*a).map(|m| it.assemble(*a, m, None).host))
        .collect();
    assert_eq!(hosts, vec!["192.168.1.9".to_string(), "192.168.1.1".to_string()]);
    let h = it.assemble(ip(192, 168, 1, 9), it.neighbor_mac(ip(192, 168, 1, 9)).unwrap(), None);
    assert_eq!(h.vendor, Some("SomeCorp".to_string()));
}
