//! IPv4 address ranges and local interfaces.

use vstd::prelude::*;

verus! {

/// The netmask that keeps the leading `bits` bits of an address.
pub open spec fn mask(bits: u8) -> u32 {
    if bits == 0 {
        0u32
    } else {
        0xffff_ffffu32 << ((32 - bits) as u32)
    }
}

/// An IPv4 range in CIDR form: the addresses whose leading `bits` bits agree
/// with those of `prefix`. A range of 32 bits names a single host.
#[derive(Clone, Copy, Debug, PartialEq, Eq, Structural)]
pub struct Ipv4Cidr {
    pub prefix: u32,
    pub bits: u8,
}

impl Ipv4Cidr {
    /// A prefix length fits an IPv4 address.
    pub open spec fn wf(self) -> bool {
        self.bits <= 32
    }

    /// The range names exactly one host.
    pub open spec fn is_host_spec(self) -> bool {
        self.bits == 32
    }

    pub open spec fn contains_spec(self, ip: u32) -> bool {
        ip & mask(self.bits) == self.prefix & mask(self.bits)
    }

    /// The range with the leading `bits` bits of `prefix`; `None` where
    /// `bits` exceeds the 32 bits of an IPv4 address.
    pub fn from_prefix_and_bits(prefix: u32, bits: u8) -> (r: Option<Ipv4Cidr>)
        ensures
            bits <= 32 <==> r is Some,
            r matches Some(c) ==> c.wf() && c.bits == bits && c.prefix == prefix & mask(bits),
    {
        if bits > 32 {
            None
        } else {
            let m = mask_of(bits);
            Some(Ipv4Cidr { prefix: prefix & m, bits })
        }
    }

    /// The range holding `ip` alone.
    pub fn host(ip: u32) -> (r: Ipv4Cidr)
        ensures
            r.wf(),
            r.is_host_spec(),
            r.prefix == ip,
    {
        Ipv4Cidr { prefix: ip, bits: 32 }
    }

    pub fn is_host(&self) -> (r: bool)
        ensures
            r == self.is_host_spec(),
    {
        self.bits == 32
    }

    /// Whether `ip` lies in the range.
    pub fn contains(&self, ip: u32) -> (r: bool)
        requires
            self.wf(),
        ensures
            r == self.contains_spec(ip),
    {
        let m = mask_of(self.bits);
        ip & m == self.prefix & m
    }
}

fn mask_of(bits: u8) -> (r: u32)
    requires
        bits <= 32,
    ensures
        r == mask(bits),
{
    if bits == 0 {
        0
    } else {
        0xffff_ffffu32 << (32 - bits as u32)
    }
}

/// A local network interface as the operating system reports it: its IPv4
/// address, if it has one, and whether it is a loopback interface.
#[derive(Clone, Copy, Debug, PartialEq, Eq, Structural)]
pub struct Interface {
    pub ipv4: Option<u32>,
    pub is_loopback: bool,
}

/// Whether discovery may bind to `iface` for a request with `address`:
/// a non-loopback IPv4 interface, inside the range where one is given.
pub open spec fn eligible(address: Option<Ipv4Cidr>, iface: Interface) -> bool {
    &&& !iface.is_loopback
    &&& iface.ipv4 is Some
    &&& (address matches Some(c) ==> c.contains_spec(iface.ipv4->0))
}

/// The bind addresses to try, in the order the interfaces were reported.
pub open spec fn candidates(address: Option<Ipv4Cidr>, ifaces: Seq<Interface>) -> Seq<u32>
    decreases ifaces.len(),
{
    if ifaces.len() == 0 {
        Seq::empty()
    } else {
        let rest = candidates(address, ifaces.drop_last());
        if eligible(address, ifaces.last()) {
            rest.push(ifaces.last().ipv4->0)
        } else {
            rest
        }
    }
}

/// The positions in `ifaces` of the interfaces that discovery may bind to.
pub open spec fn eligible_positions(address: Option<Ipv4Cidr>, ifaces: Seq<Interface>) -> Seq<int>
    decreases ifaces.len(),
{
    if ifaces.len() == 0 {
        Seq::empty()
    } else {
        let rest = eligible_positions(address, ifaces.drop_last());
        if eligible(address, ifaces.last()) {
            rest.push(ifaces.len() - 1)
        } else {
            rest
        }
    }
}

/// The candidates are exactly the addresses of the eligible interfaces, in
/// the order of `ifaces`: the k-th candidate is the address of the k-th
/// eligible interface, those interfaces come in increasing position, and no
/// eligible interface is left out. Loopback and non-IPv4 interfaces, and
/// those outside a given range, are never candidates.
pub proof fn lemma_candidates_are_eligible_interfaces(
    address: Option<Ipv4Cidr>,
    ifaces: Seq<Interface>,
)
    ensures
        ({
            let c = candidates(address, ifaces);
            let p = eligible_positions(address, ifaces);
            &&& c.len() == p.len()
            &&& forall|k: int|
                0 <= k < p.len() ==> {
                    &&& 0 <= #[trigger] p[k] < ifaces.len()
                    &&& eligible(address, ifaces[p[k]])
                    &&& c[k] == ifaces[p[k]].ipv4->0
                }
            &&& forall|k1: int, k2: int| 0 <= k1 < k2 < p.len() ==> p[k1] < p[k2]
            &&& forall|i: int|
                0 <= i < ifaces.len() && eligible(address, #[trigger] ifaces[i]) ==> p.contains(i)
        }),
    decreases ifaces.len(),
{
    if ifaces.len() > 0 {
        let init = ifaces.drop_last();
        lemma_candidates_are_eligible_interfaces(address, init);
        let p = eligible_positions(address, ifaces);
        let q = eligible_positions(address, init);
        assert forall|k: int| 0 <= k < q.len() implies q[k] < init.len() && ifaces[q[k]]
            == init[q[k]] by {}
        assert forall|i: int|
            0 <= i < ifaces.len() && eligible(address, #[trigger] ifaces[i]) implies p.contains(
            i,
        ) by {
            if i < init.len() {
                assert(init[i] == ifaces[i]);
                let k = choose|k: int| 0 <= k < q.len() && q[k] == i;
                assert(p[k] == i);
            } else {
                assert(p[p.len() - 1] == i);
            }
        }
    }
}

/// The addresses of the interfaces that discovery may bind to for a request
/// with `address`, in the order of `ifaces`.
pub fn candidate_addresses(address: &Option<Ipv4Cidr>, ifaces: &Vec<Interface>) -> (r: Vec<u32>)
    requires
        address matches Some(c) ==> c.wf(),
    ensures
        r@ == candidates(*address, ifaces@),
{
    let mut r: Vec<u32> = Vec::new();
    let mut i: usize = 0;
    while i < ifaces.len()
        invariant
            i <= ifaces@.len(),
            address matches Some(c) ==> c.wf(),
            r@ == candidates(*address, ifaces@.take(i as int)),
        decreases ifaces@.len() - i,
    {
        let iface = ifaces[i];
        proof {
            assert(ifaces@.take(i + 1).drop_last() == ifaces@.take(i as int));
        }
        if !iface.is_loopback {
            if let Some(ip) = iface.ipv4 {
                let inside = match address {
                    Some(c) => c.contains(ip),
                    None => true,
                };
                if inside {
                    r.push(ip);
                }
            }
        }
        i += 1;
    }
    proof {
        assert(ifaces@.take(ifaces@.len() as int) == ifaces@);
    }
    r
}

} // verus!
