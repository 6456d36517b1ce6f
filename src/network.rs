use vstd::prelude::*;

verus! {

/// Two to the power `n`.
pub open spec fn pow2(n: nat) -> nat
    decreases n,
{
    if n == 0 {
        1
    } else {
        2 * pow2((n - 1) as nat)
    }
}

proof fn lemma_pow2_add(a: nat, b: nat)
    ensures
        pow2(a + b) == pow2(a) * pow2(b),
        pow2(a) >= 1,
    decreases a,
{
    if a > 0 {
        lemma_pow2_add((a - 1) as nat, b);
        assert(pow2(a) == 2 * pow2((a - 1) as nat));
        assert(pow2(a + b) == 2 * pow2((a - 1 + b) as nat));
        let x = pow2((a - 1) as nat);
        let y = pow2(b);
        assert(((a - 1) as nat + b) as nat == (a - 1 + b) as nat);
        assert(2 * (x * y) == (2 * x) * y) by (nonlinear_arith);
    } else {
        assert(pow2(0) == 1);
        assert(a + b == b);
    }
}

proof fn lemma_pow2_values()
    ensures
        pow2(8) == 256,
        pow2(32) == 4294967296,
{
    reveal_with_fuel(pow2, 9);
    assert(pow2(8) == 256);
    lemma_pow2_add(8, 8);
    assert(pow2(16) == 65536);
    lemma_pow2_add(16, 16);
    assert(pow2(32) == 65536 * 65536);
}

/// The number of one bits in `x`.
pub open spec fn ones(x: nat) -> nat
    decreases x,
{
    if x == 0 {
        0
    } else {
        (x % 2) + ones(x / 2)
    }
}

proof fn lemma_ones_bound(x: nat, k: nat)
    requires
        x < pow2(k),
    ensures
        ones(x) <= k,
    decreases k,
{
    if x > 0 {
        assert(k > 0);
        lemma_ones_bound(x / 2, (k - 1) as nat);
    }
}

/// A block of IPv4 addresses: an address and a prefix length. Addresses are
/// written as 32-bit integers, the first octet in the high byte.
#[derive(Debug, Clone, Copy, PartialEq, Eq, Structural)]
pub struct NetworkRange {
    pub ip: u32,
    pub prefix: u8,
}

/// Why a network range could not be built.
#[derive(Debug, Clone, Copy, PartialEq, Eq, Structural)]
pub enum NetworkError {
    /// The interface has no gateway address.
    NoGateway,
    /// The interface has no IPv4 address.
    NoIPv4Address,
    /// A prefix length above 32.
    InvalidPrefix,
}

/// Ranges larger than this draw a large-scan advisory.
pub const LARGE_SCAN: u64 = 256;

impl NetworkRange {
    pub open spec fn wf(&self) -> bool {
        self.prefix <= 32
    }

    /// How many addresses the range holds.
    pub open spec fn size_spec(&self) -> nat {
        pow2((32 - self.prefix) as nat)
    }

    /// The lowest address of the range: `ip` with its host bits cleared.
    pub open spec fn network_spec(&self) -> nat {
        (self.ip as nat / self.size_spec()) * self.size_spec()
    }

    /// Every address of the range in ascending order, the network and
    /// broadcast addresses included.
    pub open spec fn addresses_spec(&self) -> Seq<u32> {
        Seq::new(self.size_spec(), |i: int| (self.network_spec() + i) as u32)
    }

    /// A range of `prefix` leading bits around `ip`.
    pub fn new(ip: u32, prefix: u8) -> (r: Result<NetworkRange, NetworkError>)
        ensures
            prefix <= 32 ==> r == Ok::<NetworkRange, NetworkError>(NetworkRange { ip, prefix }),
            prefix > 32 ==> r == Err::<NetworkRange, NetworkError>(NetworkError::InvalidPrefix),
    {
        if prefix > 32 {
            Err(NetworkError::InvalidPrefix)
        } else {
            Ok(NetworkRange { ip, prefix })
        }
    }

    /// The number of addresses in the range, `2^(32 - prefix)`.
    pub fn size(&self) -> (n: u64)
        requires
            self.wf(),
        ensures
            n == self.size_spec(),
            1 <= n <= pow2(32),
            pow2(32) == 4294967296,
    {
        proof {
            lemma_pow2_values();
        }
        let host_bits: u8 = 32 - self.prefix;
        let mut n: u64 = 1;
        let mut i: u8 = 0;
        while i < host_bits
            invariant
                i <= host_bits,
                host_bits == 32 - self.prefix,
                n == pow2(i as nat),
                1 <= n <= pow2(32),
                pow2(32) == 4294967296,
            decreases host_bits - i,
        {
            proof {
                let a = (i + 1) as nat;
                let b = (32 - (i + 1)) as nat;
                lemma_pow2_add(a, b);
                lemma_pow2_add(b, a);
                assert(a + b == 32);
                assert(pow2(a) == 2 * pow2(i as nat));
                assert(pow2(a) <= pow2(32)) by (nonlinear_arith)
                    requires pow2(32) == pow2(a) * pow2(b), pow2(b) >= 1;
            }
            n = n * 2;
            i = i + 1;
        }
        n
    }

    /// Whether scanning the range warrants a large-scan advisory.
    pub fn is_large(&self) -> (b: bool)
        requires
            self.wf(),
        ensures
            b == (self.size_spec() > LARGE_SCAN),
    {
        self.size() > LARGE_SCAN
    }

    /// The network address of the range.
    pub fn network(&self) -> (a: u32)
        requires
            self.wf(),
        ensures
            a == self.network_spec(),
            self.network_spec() + self.size_spec() <= pow2(32),
    {
        let s = self.size();
        proof {
            self.lemma_network_fits();
        }
        ((self.ip as u64 / s) * s) as u32
    }

    proof fn lemma_network_fits(&self)
        requires
            self.wf(),
        ensures
            self.network_spec() + self.size_spec() <= pow2(32),
            self.network_spec() <= self.ip,
    {
        let s = self.size_spec();
        let h = (32 - self.prefix) as nat;
        let p = self.prefix as nat;
        lemma_pow2_add(h, p);
        lemma_pow2_add(p, h);
        assert(h + p == 32);
        let q = self.ip as nat / s;
        let m = pow2(p);
        lemma_pow2_values();
        assert(s * m == pow2(32));
        assert(q * s <= self.ip as nat) by (nonlinear_arith)
            requires q == self.ip as nat / s, s >= 1;
        assert(q < m) by (nonlinear_arith)
            requires q == self.ip as nat / s, s >= 1, s * m == 4294967296, (self.ip as nat) < 4294967296;
        assert(q * s + s <= m * s) by (nonlinear_arith)
            requires q < m, s >= 1;
    }

    /// The `i`-th address of the range in ascending order, without building
    /// the whole sequence; `None` past the broadcast address.
    pub fn nth_address(&self, i: u64) -> (a: Option<u32>)
        requires
            self.wf(),
        ensures
            a is Some <==> i < self.size_spec(),
            a matches Some(x) ==> x == self.addresses_spec()[i as int],
    {
        let s = self.size();
        let base = self.network();
        if i < s {
            Some((base as u64 + i) as u32)
        } else {
            None
        }
    }

    /// Enumerates the range: every address from the network address to the
    /// broadcast address, in ascending order, each once.
    pub fn addresses(&self) -> (r: Vec<u32>)
        requires
            self.wf(),
        ensures
            r@ == self.addresses_spec(),
            r@.len() == self.size_spec(),
            r@.no_duplicates(),
    {
        let s = self.size();
        let base = self.network();
        let mut out: Vec<u32> = Vec::new();
        let mut i: u64 = 0;
        while i < s
            invariant
                i <= s,
                s == self.size_spec(),
                base == self.network_spec(),
                base + s <= pow2(32),
                pow2(32) == 4294967296,
                out@ == self.addresses_spec().take(i as int),
            decreases s - i,
        {
            out.push((base as u64 + i) as u32);
            i = i + 1;
            assert(out@ =~= self.addresses_spec().take(i as int));
        }
        assert(out@ =~= self.addresses_spec());
        assert forall|a: int, b: int| 0 <= a < out@.len() && 0 <= b < out@.len() && a != b
            implies out@[a] != out@[b] by {}
        out
    }
}

/// The prefix length that a netmask stands for: the number of its one bits.
pub fn ipv4_to_prefix(netmask: u32) -> (p: u8)
    ensures
        p == ones(netmask as nat),
        p <= 32,
{
    let mut m: u32 = netmask;
    let mut count: u8 = 0;
    proof {
        lemma_pow2_values();
        lemma_ones_bound(netmask as nat, 32);
    }
    let mut i: u8 = 0;
    while m > 0
        invariant
            i <= 32,
            (m as nat) < pow2((32 - i) as nat),
            count + ones(m as nat) == ones(netmask as nat),
            ones(netmask as nat) <= 32,
        decreases m,
    {
        proof {
            lemma_ones_bound(m as nat, (32 - i) as nat);
            assert(32 - i > 0);
            assert(pow2((32 - i) as nat) == 2 * pow2((32 - i - 1) as nat));
        }
        count = count + (m % 2) as u8;
        m = m / 2;
        i = i + 1;
    }
    count
}

/// Builds the range to scan from an interface's gateway address and netmask.
pub fn create_network(gateway: Option<u32>, netmask: Option<u32>) -> (r: Result<NetworkRange, NetworkError>)
    ensures
        gateway is None ==> r == Err::<NetworkRange, NetworkError>(NetworkError::NoGateway),
        gateway is Some && netmask is None ==> r == Err::<NetworkRange, NetworkError>(
            NetworkError::NoIPv4Address,
        ),
        gateway is Some && netmask is Some ==> r == Ok::<NetworkRange, NetworkError>(
            NetworkRange { ip: gateway->0, prefix: ones(netmask->0 as nat) as u8 },
        ),
{
    let ip = match gateway {
        Some(ip) => ip,
        None => return Err(NetworkError::NoGateway),
    };
    let mask = match netmask {
        Some(mask) => mask,
        None => return Err(NetworkError::NoIPv4Address),
    };
    NetworkRange::new(ip, ipv4_to_prefix(mask))
}

/// A range with prefix length 24 holds exactly 256 addresses, from its
/// network address up to its broadcast address, both included.
pub proof fn lemma_slash24(r: NetworkRange)
    requires
        r.prefix == 24,
    ensures
        r.size_spec() == 256,
        r.addresses_spec().len() == 256,
        r.addresses_spec()[0] == r.network_spec(),
        r.addresses_spec()[255] == r.network_spec() + 255,
        r.network_spec() % 256 == 0,
        r.network_spec() + 255 == r.ip as nat / 256 * 256 + 255,
{
    lemma_pow2_values();
    r.lemma_network_fits();
    assert(r.network_spec() % 256 == 0) by (nonlinear_arith)
        requires r.network_spec() == (r.ip as nat / 256) * 256;
}


/// How two interfaces, given by index, compare in a listing that puts the
/// default interface first and orders the others by ascending index.
pub open spec fn interface_order_spec(a: u32, b: u32, default_index: u32) -> std::cmp::Ordering {
    if a == default_index {
        std::cmp::Ordering::Less
    } else if b == default_index {
        std::cmp::Ordering::Greater
    } else if a < b {
        std::cmp::Ordering::Less
    } else if a > b {
        std::cmp::Ordering::Greater
    } else {
        std::cmp::Ordering::Equal
    }
}

/// Compares two interface indices for a listing that puts the default
/// interface first.
pub fn interface_order(a: u32, b: u32, default_index: u32) -> (o: std::cmp::Ordering)
    ensures
        o == interface_order_spec(a, b, default_index),
{
    if a == default_index {
        std::cmp::Ordering::Less
    } else if b == default_index {
        std::cmp::Ordering::Greater
    } else if a < b {
        std::cmp::Ordering::Less
    } else if a > b {
        std::cmp::Ordering::Greater
    } else {
        std::cmp::Ordering::Equal
    }
}

} // verus!
