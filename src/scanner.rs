use vstd::prelude::*;

use crate::network::NetworkRange;
use crate::text::{ipv4_text, ipv4_to_string, mac_text, mac_to_string};
use crate::vendor::{first_match, get_vendor_oui, oui_text, Vendor};

verus! {

/// A discovered host: its address, and what was learnt about it.
#[derive(Debug)]
pub struct Host {
    pub host: String,
    pub mac: Option<String>,
    pub vendor: Option<String>,
    pub hostname: Option<String>,
}

/// One row of the neighbour table: an IPv4 address and a hardware address.
#[derive(Debug, Clone, Copy)]
pub struct NeighborEntry {
    pub ip: u32,
    pub mac: [u8; 6],
}

/// Whether a hardware address is all zeros.
pub open spec fn is_nil(mac: [u8; 6]) -> bool {
    forall|i: int| 0 <= i < 6 ==> #[trigger] mac@[i] == 0
}

/// The entries of a neighbour table that carry a hardware address.
pub open spec fn live_entries(entries: Seq<NeighborEntry>) -> Seq<NeighborEntry> {
    entries.filter(|e: NeighborEntry| !is_nil(e.mac))
}

/// The hardware address of the first entry for `ip`.
pub open spec fn find_mac(entries: Seq<NeighborEntry>, ip: u32) -> Option<[u8; 6]>
    decreases entries.len(),
{
    if entries.len() == 0 {
        None
    } else if entries[0].ip == ip {
        Some(entries[0].mac)
    } else {
        find_mac(entries.drop_first(), ip)
    }
}

fn mac_is_nil(mac: &[u8; 6]) -> (b: bool)
    ensures
        b == is_nil(*mac),
{
    let mut i: usize = 0;
    while i < 6
        invariant
            i <= 6,
            forall|j: int| 0 <= j < i ==> #[trigger] mac@[j] == 0,
        decreases 6 - i,
    {
        if mac[i] != 0 {
            return false;
        }
        i = i + 1;
    }
    true
}

/// A neighbour table captured once, without its all-zero hardware addresses.
pub struct NeighborTable {
    entries: Vec<NeighborEntry>,
}

impl View for NeighborTable {
    type V = Seq<NeighborEntry>;

    closed spec fn view(&self) -> Seq<NeighborEntry> {
        self.entries@
    }
}

impl NeighborTable {
    /// Captures a snapshot of the given table rows, discarding those whose
    /// hardware address is all zeros and keeping the order of the rest.
    pub fn snapshot(entries: Vec<NeighborEntry>) -> (t: NeighborTable)
        ensures
            t@ == live_entries(entries@),
    {
        let mut kept: Vec<NeighborEntry> = Vec::new();
        let mut i: usize = 0;
        while i < entries.len()
            invariant
                i <= entries@.len(),
                kept@ == live_entries(entries@.take(i as int)),
            decreases entries@.len() - i,
        {
            let e = entries[i];
            proof {
                reveal(Seq::filter);
                let next = entries@.take(i + 1);
                assert(next.drop_last() =~= entries@.take(i as int));
                assert(next.last() == e);
            }
            if !mac_is_nil(&e.mac) {
                kept.push(e);
            }
            i = i + 1;
        }
        assert(entries@.take(entries@.len() as int) =~= entries@);
        NeighborTable { entries: kept }
    }

    /// Number of entries kept.
    pub fn len(&self) -> (n: usize)
        ensures
            n == self@.len(),
    {
        self.entries.len()
    }

    /// The hardware address recorded for `ip`, from the first entry for it.
    pub fn find(&self, ip: u32) -> (r: Option<[u8; 6]>)
        ensures
            r == find_mac(self@, ip),
    {
        assert(self@.subrange(0, self@.len() as int) =~= self@);
        let mut i: usize = 0;
        while i < self.entries.len()
            invariant
                i <= self@.len(),
                find_mac(self@, ip) == find_mac(self@.subrange(i as int, self@.len() as int), ip),
            decreases self@.len() - i,
        {
            let ghost rest = self@.subrange(i as int, self@.len() as int);
            assert(rest.drop_first() =~= self@.subrange(i + 1, self@.len() as int));
            if self.entries[i].ip == ip {
                return Some(self.entries[i].mac);
            }
            i = i + 1;
        }
        None
    }
}

proof fn lemma_find_mac(entries: Seq<NeighborEntry>, ip: u32)
    ensures
        find_mac(entries, ip) is None <==> forall|j: int| 0 <= j < entries.len() ==> (#[trigger] entries[j]).ip != ip,
        find_mac(entries, ip) matches Some(m) ==> exists|j: int|
            0 <= j < entries.len() && #[trigger] entries[j] == (NeighborEntry { ip, mac: m }),
    decreases entries.len(),
{
    if entries.len() > 0 {
        let rest = entries.drop_first();
        lemma_find_mac(rest, ip);
        assert forall|j: int| 0 < j < entries.len() implies #[trigger] entries[j] == rest[j - 1] by {}
        if find_mac(entries, ip) is None {
            assert forall|j: int| 0 <= j < entries.len() implies (#[trigger] entries[j]).ip != ip by {
                if j > 0 {
                    assert(entries[j] == rest[j - 1]);
                }
            }
        }
        if let Some(m) = find_mac(rest, ip) {
            let j = choose|j: int| 0 <= j < rest.len() && #[trigger] rest[j] == (NeighborEntry { ip, mac: m });
            assert(entries[j + 1] == rest[j]);
        }
        if forall|j: int| 0 <= j < entries.len() ==> (#[trigger] entries[j]).ip != ip {
            assert forall|j: int| 0 <= j < rest.len() implies (#[trigger] rest[j]).ip != ip by {
                assert(rest[j] == entries[j + 1]);
            }
        }
    }
}

/// The correlation gate: an address is matched to a hardware address exactly
/// when the captured rows hold an entry for it with a non-zero hardware
/// address, and the address found is one such entry's.
pub proof fn lemma_host_needs_neighbor(entries: Seq<NeighborEntry>, ip: u32)
    ensures
        find_mac(live_entries(entries), ip) is Some <==> exists|j: int|
            0 <= j < entries.len() && (#[trigger] entries[j]).ip == ip && !is_nil(entries[j].mac),
        find_mac(live_entries(entries), ip) matches Some(m) ==> !is_nil(m) && exists|j: int|
            0 <= j < entries.len() && #[trigger] entries[j] == (NeighborEntry { ip, mac: m }),
{
    let pred = |e: NeighborEntry| !is_nil(e.mac);
    let live = live_entries(entries);
    #[allow(deprecated)]
    entries.filter_lemma(pred);
    lemma_find_mac(live, ip);
    if let Some(m) = find_mac(live, ip) {
        let k = choose|k: int| 0 <= k < live.len() && #[trigger] live[k] == (NeighborEntry { ip, mac: m });
        assert(pred(live[k]));
        assert(live.contains(live[k]));
        entries.lemma_filter_contains_rev(pred, live[k]);
        let j = choose|j: int| 0 <= j < entries.len() && entries[j] == live[k];
        assert(entries[j].ip == ip);
    }
    if exists|j: int| 0 <= j < entries.len() && (#[trigger] entries[j]).ip == ip && !is_nil(entries[j].mac) {
        let j = choose|j: int| 0 <= j < entries.len() && (#[trigger] entries[j]).ip == ip && !is_nil(entries[j].mac);
        assert(pred(entries[j]));
        assert(live.contains(entries[j]));
        let k = choose|k: int| 0 <= k < live.len() && live[k] == entries[j];
        assert(live[k].ip == ip);
    }
}

/// Assembles hosts from reachable addresses: a neighbour-table snapshot and
/// a vendor registry, both fixed for the whole scan.
pub struct HostIterator {
    pub vendor: Vendor,
    pub arp_table: NeighborTable,
}

/// What a host record for `ip` holds, given its hardware address, the vendor
/// registry and the outcome of the reverse lookup.
pub open spec fn host_matches(
    h: Host,
    ip: u32,
    mac: [u8; 6],
    registry: Seq<(Seq<char>, Seq<char>)>,
    hostname: Option<String>,
) -> bool {
    &&& h.host@ == ipv4_text(ip)
    &&& h.mac matches Some(m) && m@ == mac_text(mac@)
    &&& h.vendor matches Some(v) && v@ == (match first_match(registry, oui_text(mac@)) {
        Some(name) => name,
        None => Seq::empty(),
    })
    &&& h.hostname matches Some(n) && n@ == (match hostname {
        Some(name) => name@,
        None => Seq::empty(),
    })
}

impl HostIterator {
    /// Starts assembling hosts against `vendor` and a snapshot of `neighbors`.
    pub fn new(vendor: Vendor, neighbors: Vec<NeighborEntry>) -> (it: HostIterator)
        ensures
            it.vendor@ == vendor@,
            it.arp_table@ == live_entries(neighbors@),
    {
        HostIterator { vendor, arp_table: NeighborTable::snapshot(neighbors) }
    }

    /// The hardware address that the snapshot holds for a reachable address;
    /// `None` means that no host is produced for it.
    pub fn neighbor_mac(&self, ip: u32) -> (r: Option<[u8; 6]>)
        ensures
            r == find_mac(self.arp_table@, ip),
    {
        self.arp_table.find(ip)
    }

    /// The host record for a reachable address that the snapshot maps to
    /// `mac` (as `neighbor_mac` reports it). `hostname` is the reverse lookup's answer, or
    /// `None` where the lookup failed; an unknown vendor or a failed lookup
    /// give an empty name.
    pub fn assemble(&self, ip: u32, mac: [u8; 6], hostname: Option<String>) -> (h: Host)
        requires
            find_mac(self.arp_table@, ip) == Some(mac),
        ensures
            host_matches(h, ip, mac, self.vendor@, hostname),
    {
        let oui = match get_vendor_oui(mac.as_slice()) {
            Ok(oui) => oui,
            Err(_) => String::new(),
        };
        let vendor_name = match self.vendor.search_by_mac(oui.as_str()) {
            Some(name) => name,
            None => String::new(),
        };
        let name = match hostname {
            Some(name) => name,
            None => String::new(),
        };
        Host {
            host: ipv4_to_string(ip),
            mac: Some(mac_to_string(mac)),
            vendor: Some(vendor_name),
            hostname: Some(name),
        }
    }
}

/// What scanning a range starts from: the addresses to probe, one task
/// each, whether the range is large enough for an advisory, and the host
/// assembler for the addresses that answer.
pub struct ScanPlan {
    pub targets: Vec<u32>,
    pub large_scan: bool,
    pub hosts: HostIterator,
}

/// Prepares a scan of `network`: enumerates every address of the range,
/// captures the neighbour table once, and sets up vendor resolution.
pub fn scan_network(network: NetworkRange, neighbors: Vec<NeighborEntry>, vendor: Vendor) -> (p: ScanPlan)
    requires
        network.wf(),
    ensures
        p.targets@ == network.addresses_spec(),
        p.targets@.len() == network.size_spec(),
        p.targets@.no_duplicates(),
        p.large_scan == (network.size_spec() > crate::network::LARGE_SCAN),
        p.hosts.vendor@ == vendor@,
        p.hosts.arp_table@ == live_entries(neighbors@),
{
    let large_scan = network.is_large();
    let hosts = HostIterator::new(vendor, neighbors);
    ScanPlan { targets: network.addresses(), large_scan, hosts }
}

} // verus!
