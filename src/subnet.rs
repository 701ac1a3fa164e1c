use vstd::prelude::*;
use vstd::arithmetic::power2::{pow2, lemma_pow2_adds, lemma_pow2_pos, lemma2_to64};

verus! {

/// An IPv4 network: an address of the host and a prefix length.
#[derive(Clone, Copy, Debug, PartialEq, Eq, Structural)]
pub struct Ipv4Subnet {
    pub addr: u32,
    pub prefix: u8,
}

/// Number of addresses the network enumerates. A zero prefix enumerates one
/// address fewer than the whole space, as the network library does.
pub open spec fn subnet_size(prefix: u8) -> nat {
    if prefix == 0 {
        0xffff_ffff
    } else {
        pow2((32 - prefix) as nat)
    }
}

/// The first (lowest) address of the network: `addr` with its host bits cleared.
pub open spec fn subnet_base(addr: u32, prefix: u8) -> nat {
    if prefix == 0 {
        0
    } else {
        (addr as nat / pow2((32 - prefix) as nat)) * pow2((32 - prefix) as nat)
    }
}

/// The first `limit` addresses of the network in ascending order, or all of
/// them when it has fewer.
pub open spec fn sweep_spec(net: Ipv4Subnet, limit: nat) -> Seq<u32> {
    let count = if limit < subnet_size(net.prefix) { limit } else { subnet_size(net.prefix) };
    Seq::new(count, |i: int| (subnet_base(net.addr, net.prefix) + i) as u32)
}

/// Relies on ipnetwork's `Ipv4Network::size`: `u32::MAX` for a zero prefix,
/// else two to the number of host bits.
#[verifier::external_body]
fn network_size(addr: u32, prefix: u8) -> (r: u32)
    requires
        prefix <= 32,
    ensures
        r as nat == subnet_size(prefix),
{
    ipnetwork::Ipv4Network::new(addr.into(), prefix).unwrap().size()
}

/// Relies on ipnetwork's `Ipv4Network::nth`: the network address plus `n`
/// while `n` is below the size, else `None`.
#[verifier::external_body]
fn network_nth(addr: u32, prefix: u8, n: u32) -> (r: Option<u32>)
    requires
        prefix <= 32,
    ensures
        (n as nat) < subnet_size(prefix) <==> r is Some,
        r matches Some(a) ==> a as nat == subnet_base(addr, prefix) + n,
{
    ipnetwork::Ipv4Network::new(addr.into(), prefix).unwrap().nth(n).map(u32::from)
}

/// Every address a network enumerates fits in 32 bits.
pub proof fn lemma_subnet_fits(addr: u32, prefix: u8)
    requires
        prefix <= 32,
    ensures
        subnet_base(addr, prefix) + subnet_size(prefix) <= 0x1_0000_0000,
{
    if prefix != 0 {
        let hb = (32 - prefix) as nat;
        let p = pow2(hb);
        let q = pow2(prefix as nat);
        lemma_pow2_adds(hb, prefix as nat);
        lemma_pow2_pos(hb);
        lemma2_to64();
        assert(p * q == 0x1_0000_0000);
        let d = addr as nat / p;
        assert(d * p <= addr) by (nonlinear_arith)
            requires
                d == addr as nat / p,
                p > 0,
        ;
        assert(d + 1 <= q) by (nonlinear_arith)
            requires
                d * p <= addr,
                addr < p * q,
                d == addr as nat / p,
                p > 0,
        ;
        assert(d * p + p <= p * q) by (nonlinear_arith)
            requires
                d + 1 <= q,
                p > 0,
        ;
    }
}

/// A sweep probes no address when its limit is zero.
pub proof fn lemma_zero_limit_sweeps_nothing(net: Ipv4Subnet)
    ensures
        sweep_spec(net, 0) == Seq::<u32>::empty(),
{
    assert(sweep_spec(net, 0) =~= Seq::<u32>::empty());
}

/// A sweep whose limit the network can meet probes exactly that many
/// addresses: its first ones, distinct and in ascending order.
pub proof fn lemma_sweep_prefix_ascending(net: Ipv4Subnet, k: nat)
    requires
        net.wf(),
        k <= subnet_size(net.prefix),
    ensures
        sweep_spec(net, k).len() == k,
        forall|i: int| 0 <= i < k ==> #[trigger] sweep_spec(net, k)[i] as nat == subnet_base(net.addr, net.prefix) + i,
        forall|i: int, j: int| 0 <= i < j < k ==> #[trigger] sweep_spec(net, k)[i] < #[trigger] sweep_spec(net, k)[j],
{
    lemma_subnet_fits(net.addr, net.prefix);
}

/// A limit past the network's size sweeps the whole network and no more.
pub proof fn lemma_limit_past_subnet(net: Ipv4Subnet, limit: nat)
    requires
        net.wf(),
        limit >= subnet_size(net.prefix),
    ensures
        sweep_spec(net, limit) == sweep_spec(net, subnet_size(net.prefix)),
        sweep_spec(net, limit).len() == subnet_size(net.prefix),
{
}

impl Ipv4Subnet {
    /// A network needs a prefix of at most 32 bits.
    pub open spec fn wf(&self) -> bool {
        self.prefix <= 32
    }

    /// The network of `addr` with `prefix` bits, when the prefix is valid.
    pub fn new(addr: u32, prefix: u8) -> (r: Option<Ipv4Subnet>)
        ensures
            prefix <= 32 <==> r is Some,
            r matches Some(n) ==> n.addr == addr && n.prefix == prefix && n.wf(),
    {
        if prefix <= 32 {
            Some(Ipv4Subnet { addr, prefix })
        } else {
            None
        }
    }

    /// Number of addresses the network enumerates.
    pub fn size(&self) -> (r: u32)
        requires
            self.wf(),
        ensures
            r as nat == subnet_size(self.prefix),
    {
        network_size(self.addr, self.prefix)
    }

    /// The `n`-th address of the network, counting from its first address.
    pub fn nth(&self, n: u32) -> (r: Option<u32>)
        requires
            self.wf(),
        ensures
            (n as nat) < subnet_size(self.prefix) <==> r is Some,
            r matches Some(a) ==> a as nat == subnet_base(self.addr, self.prefix) + n,
    {
        network_nth(self.addr, self.prefix, n)
    }

    /// The addresses a sweep bounded by `limit` probes, in order.
    pub fn sweep_targets(&self, limit: usize) -> (r: Vec<u32>)
        requires
            self.wf(),
        ensures
            r@ == sweep_spec(*self, limit as nat),
    {
        let size = self.size();
        let count: usize = if limit < size as usize { limit } else { size as usize };
        let ghost base = subnet_base(self.addr, self.prefix);
        let mut out: Vec<u32> = Vec::new();
        let mut i: usize = 0;
        while i < count
            invariant
                count as nat <= subnet_size(self.prefix),
                count == (if (limit as nat) < subnet_size(self.prefix) { limit as nat } else {
                    subnet_size(self.prefix)
                }),
                subnet_size(self.prefix) <= u32::MAX,
                self.wf(),
                i <= count,
                base == subnet_base(self.addr, self.prefix),
                out@.len() == i,
                forall|k: int| 0 <= k < i ==> out@[k] == (base + k) as u32,
            decreases count - i,
        {
            let a = network_nth(self.addr, self.prefix, i as u32);
            out.push(a.unwrap());
            i = i + 1;
        }
        assert(out@ =~= sweep_spec(*self, limit as nat));
        out
    }
}

} // verus!
