//! Allocation of subnets for internal DNS servers.

use std::collections::BTreeSet;

use vstd::prelude::*;

use crate::net::Ipv6Addr;
use crate::ordered::{
    contains, count, id_numbers, insert, keys_in_order, lemma_keys_can_be_listed, remove,
};

verus! {

/// How many internal DNS servers there are at most.
pub const INTERNAL_DNS_REDUNDANCY: usize = 3;

/// The number of addresses in a /64 subnet.
pub const SUBNET_64: u128 = 0x1_0000_0000_0000_0000;

/// The number of addresses in a /56 subnet.
pub const SUBNET_56: u128 = 0x100_0000_0000_0000_0000;

/// The number of addresses in a /48 subnet.
pub const SUBNET_48: u128 = 0x1_0000_0000_0000_0000_0000;

/// A /64 subnet of the reserved rack subnet, for one internal DNS server.
#[derive(Copy, Clone, Debug, PartialEq, Eq, PartialOrd, Ord, Structural)]
pub struct DnsSubnet {
    /// The first address of the subnet.
    pub net: Ipv6Addr,
}

/// A /56 subnet that is reserved for services of the whole availability zone.
#[derive(Copy, Clone, Debug, PartialEq, Eq, Structural)]
pub struct ReservedRackSubnet {
    /// The first address of the subnet.
    pub net: Ipv6Addr,
}

/// The reserved rack subnet of the /48 subnet that an address lies in.
pub open spec fn rack_subnet_of(addr: Ipv6Addr) -> ReservedRackSubnet {
    ReservedRackSubnet { net: (addr - addr % SUBNET_48) as u128 }
}

impl ReservedRackSubnet {
    /// The DNS subnet with an index.
    pub open spec fn dns_subnet(self, index: int) -> DnsSubnet {
        DnsSubnet { net: (self.net - self.net % SUBNET_56 + index * SUBNET_64) as u128 }
    }

    /// Infer the reserved rack subnet from an address in it or in a sibling.
    pub fn from_subnet(addr: Ipv6Addr) -> (r: Self)
        ensures
            r == rack_subnet_of(addr),
    {
        ReservedRackSubnet { net: addr - addr % SUBNET_48 }
    }

    /// Returns the `index`-th DNS subnet from this reserved rack subnet.
    pub fn get_dns_subnet(&self, index: u8) -> (r: DnsSubnet)
        ensures
            r == self.dns_subnet(index as int),
            r.net == self.net - self.net % SUBNET_56 + index * SUBNET_64,
    {
        let base: u128 = self.net - self.net % SUBNET_56;
        proof {
            assert(base % SUBNET_56 == 0);
            assert(base <= u128::MAX - (SUBNET_56 - 1));
            assert(index * SUBNET_64 <= SUBNET_56 - SUBNET_64);
        }
        DnsSubnet { net: base + (index as u128) * SUBNET_64 }
    }

    /// Returns all the DNS subnets of this reserved rack subnet.
    pub fn get_dns_subnets(&self) -> (r: Vec<DnsSubnet>)
        ensures
            r@ == Seq::new(INTERNAL_DNS_REDUNDANCY as nat, |i: int| self.dns_subnet(i + 1)),
    {
        let r = vec![self.get_dns_subnet(1), self.get_dns_subnet(2), self.get_dns_subnet(3)];
        assert(r@ =~= Seq::new(INTERNAL_DNS_REDUNDANCY as nat, |i: int| self.dns_subnet(i + 1)));
        r
    }
}

impl DnsSubnet {
    /// The DNS subnet that an address lies in.
    pub fn from_addr(addr: Ipv6Addr) -> (r: Self)
        ensures
            r.net == addr - addr % SUBNET_64,
    {
        DnsSubnet { net: addr - addr % SUBNET_64 }
    }

    /// The first address of the subnet.
    pub fn subnet(&self) -> (r: Ipv6Addr)
        ensures
            r == self.net,
    {
        self.net
    }

    /// The reserved rack subnet that the subnet belongs to.
    pub fn rack_subnet(&self) -> (r: ReservedRackSubnet)
        ensures
            r == rack_subnet_of(self.net),
    {
        ReservedRackSubnet::from_subnet(self.net)
    }
}

/// No subnet is left for internal DNS.
#[derive(Copy, Clone, Debug, PartialEq, Eq, Structural)]
pub struct NoAvailableDnsSubnets;

impl NoAvailableDnsSubnets {
    /// The text of the error.
    pub fn to_text(&self) -> (r: &'static str)
        ensures
            r@ == "no reserved subnets available for internal DNS"@,
    {
        "no reserved subnets available for internal DNS"
    }
}

/// Internal DNS zones are not allocated an address in the sled's subnet.
/// Instead, they get a /64 subnet of the "reserved" rack subnet (so that
/// it's routable with IPv6), and use the first address in that. There may
/// be at most `INTERNAL_DNS_REDUNDANCY` subnets (and so servers)
/// allocated. This structure tracks which subnets are currently allocated.
#[derive(Debug)]
pub struct InternalDnsSubnetAllocator {
    // The first addresses of the subnets.
    in_use: BTreeSet<Ipv6Addr>,
}

/// Whether subnets are listed smallest first, and each once.
pub open spec fn in_subnet_order(list: Seq<DnsSubnet>) -> bool {
    forall|i: int, j: int|
        #![trigger list[i], list[j]]
        0 <= i < j < list.len() ==> list[i].net < list[j].net
}

/// Whether a list holds each subnet of a set once, smallest first. The set holds
/// their first addresses.
spec fn lists_subnets(list: Seq<DnsSubnet>, nets: Set<Ipv6Addr>) -> bool {
    &&& in_subnet_order(list)
    &&& forall|s: DnsSubnet| #[trigger] list.contains(s) <==> nets.contains(s.net)
}

/// The subnets of a set, smallest first.
spec fn subnets_of(nets: Set<Ipv6Addr>) -> Seq<DnsSubnet> {
    choose|list: Seq<DnsSubnet>| lists_subnets(list, nets)
}

impl View for InternalDnsSubnetAllocator {
    type V = Seq<DnsSubnet>;

    /// The subnets in use, smallest first.
    closed spec fn view(&self) -> Seq<DnsSubnet> {
        subnets_of(self.in_use@)
    }
}

/// There is one way to list the subnets of a set.
proof fn lemma_one_list(a: Seq<DnsSubnet>, b: Seq<DnsSubnet>, nets: Set<Ipv6Addr>)
    requires
        lists_subnets(a, nets),
        lists_subnets(b, nets),
    ensures
        a == b,
    decreases a.len(),
{
    if a.len() == 0 || b.len() == 0 {
        if a.len() > 0 {
            assert(a.contains(a[0]));
            assert(b.contains(a[0]));
        }
        if b.len() > 0 {
            assert(b.contains(b[0]));
            assert(a.contains(b[0]));
        }
        assert(a =~= b);
    } else {
        let (x, y) = (a.last(), b.last());
        assert(a.contains(x) && b.contains(x));
        assert(b.contains(y) && a.contains(y));
        let k = choose|k: int| 0 <= k < b.len() && b[k] == x;
        let j = choose|j: int| 0 <= j < a.len() && a[j] == y;
        assert(x == y);
        lemma_without_last(a, nets);
        lemma_without_last(b, nets);
        lemma_one_list(a.drop_last(), b.drop_last(), nets.remove(x.net));
        assert(a =~= a.drop_last().push(x));
        assert(b =~= b.drop_last().push(x));
    }
}

proof fn lemma_without_last(list: Seq<DnsSubnet>, nets: Set<Ipv6Addr>)
    requires
        lists_subnets(list, nets),
        list.len() > 0,
    ensures
        lists_subnets(list.drop_last(), nets.remove(list.last().net)),
{
    let (rest, x) = (list.drop_last(), list.last());
    assert forall|s: DnsSubnet| #[trigger] rest.contains(s) <==> nets.remove(x.net).contains(
        s.net,
    ) by {
        if rest.contains(s) {
            let i = choose|i: int| 0 <= i < rest.len() && rest[i] == s;
            assert(list[i] == s);
            assert(list.contains(s));
            assert(list[i].net < list[list.len() - 1].net);
        }
        if nets.remove(x.net).contains(s.net) {
            assert(list.contains(s));
            let i = choose|i: int| 0 <= i < list.len() && list[i] == s;
            assert(rest[i] == s);
        }
    }
}

/// The subnets of a finite set can be listed, and are as many as the set has.
proof fn lemma_subnets_of(nets: Set<Ipv6Addr>)
    requires
        nets.finite(),
    ensures
        lists_subnets(subnets_of(nets), nets),
        subnets_of(nets).len() == nets.len(),
{
    let keys = lemma_keys_can_be_listed(nets);
    let list = keys.map_values(|net: Ipv6Addr| DnsSubnet { net });
    assert forall|i: int, j: int|
        #![trigger list[i], list[j]]
        0 <= i < j < list.len() implies list[i].net < list[j].net by {
        assert(id_numbers(keys)[i] < id_numbers(keys)[j]);
    }
    assert forall|s: DnsSubnet| #[trigger] list.contains(s) <==> nets.contains(s.net) by {
        if list.contains(s) {
            let i = choose|i: int| 0 <= i < list.len() && list[i] == s;
            assert(keys.contains(keys[i]));
        }
        if nets.contains(s.net) {
            assert(keys.contains(s.net));
            let i = choose|i: int| 0 <= i < keys.len() && keys[i] == s.net;
            assert(list[i] == s);
        }
    }
    assert(lists_subnets(list, nets));
    lemma_one_list(list, subnets_of(nets), nets);
    assert forall|i: int, j: int| 0 <= i < j < keys.len() implies keys[i] != keys[j] by {
        assert(id_numbers(keys)[i] < id_numbers(keys)[j]);
    }
    assert(keys.no_duplicates());
    keys.unique_seq_to_set();
    assert(keys.to_set() =~= nets) by {
        assert forall|n: Ipv6Addr| keys.to_set().contains(n) == nets.contains(n) by {
            assert(keys.contains(n) == nets.contains(n));
        }
    }
}

/// Whether one list of subnets holds those of another and one more.
pub open spec fn with_subnet(
    list: Seq<DnsSubnet>,
    before: Seq<DnsSubnet>,
    subnet: DnsSubnet,
) -> bool {
    forall|s: DnsSubnet|
        #![trigger list.contains(s)]
        list.contains(s) <==> before.contains(s) || s == subnet
}

/// Whether a subnet is the one to allocate next: of no subnets in use, the
/// first one of the given rack subnet; and otherwise the smallest unused one
/// of the rack subnet that the smallest subnet in use belongs to.
pub open spec fn is_next(
    subnet: DnsSubnet,
    in_use: Seq<DnsSubnet>,
    rack_subnet: ReservedRackSubnet,
) -> bool {
    if in_use.len() == 0 {
        subnet == rack_subnet.dns_subnet(1)
    } else {
        let rack = rack_subnet_of(in_use[0].net);
        exists|index: int|
            {
                &&& 1 <= index <= INTERNAL_DNS_REDUNDANCY
                &&& subnet == #[trigger] rack.dns_subnet(index)
                &&& !in_use.contains(subnet)
                &&& forall|i: int| 1 <= i < index ==> in_use.contains(#[trigger] rack.dns_subnet(i))
            }
    }
}

/// Whether all subnets are taken.
pub open spec fn is_exhausted(in_use: Seq<DnsSubnet>) -> bool {
    &&& in_use.len() > 0
    &&& forall|i: int|
        1 <= i <= INTERNAL_DNS_REDUNDANCY ==> in_use.contains(
            #[trigger] rack_subnet_of(in_use[0].net).dns_subnet(i),
        )
}

impl InternalDnsSubnetAllocator {
    #[verifier::type_invariant]
    spec fn finite(self) -> bool {
        self.in_use@.finite()
    }

    /// An allocator that knows of subnets in use.
    pub fn new(in_use: Vec<DnsSubnet>) -> (r: Self)
        ensures
            in_subnet_order(r@),
            forall|s: DnsSubnet| #![trigger r@.contains(s)] r@.contains(s) <==> in_use@.contains(s),
    {
        let mut nets: BTreeSet<Ipv6Addr> = BTreeSet::new();
        let mut i: usize = 0;
        while i < in_use.len()
            invariant
                i <= in_use.len(),
                nets@.finite(),
                forall|s: DnsSubnet|
                    #![trigger nets@.contains(s.net)]
                    nets@.contains(s.net) <==> in_use@.take(i as int).contains(s),
            decreases in_use.len() - i,
        {
            insert(&mut nets, in_use[i].net);
            proof {
                let (before, next) = (in_use@.take(i as int), in_use@.take(i + 1));
                assert forall|s: DnsSubnet|
                    #![trigger nets@.contains(s.net)]
                    nets@.contains(s.net) <==> next.contains(s) by {
                    assert(next == before.push(in_use@[i as int]));
                    if before.contains(s) {
                        let k = choose|k: int| 0 <= k < i && before[k] == s;
                        assert(next[k] == s);
                    }
                    if next.contains(s) {
                        let k = choose|k: int| 0 <= k < i + 1 && next[k] == s;
                        if k < i {
                            assert(before[k] == s);
                        }
                    }
                    assert(next[i as int] == in_use@[i as int]);
                    if s.net == in_use@[i as int].net {
                        assert(s == in_use@[i as int]);
                    }
                }
            }
            i = i + 1;
        }
        proof {
            assert(in_use@.take(in_use.len() as int) =~= in_use@);
            lemma_subnets_of(nets@);
        }
        InternalDnsSubnetAllocator { in_use: nets }
    }

    fn is_used(&self, subnet: DnsSubnet) -> (r: bool)
        ensures
            r == self@.contains(subnet),
    {
        proof {
            use_type_invariant(self);
            lemma_subnets_of(self.in_use@);
        }
        contains(&self.in_use, subnet.net)
    }

    fn add(&mut self, subnet: DnsSubnet)
        ensures
            in_subnet_order(final(self)@),
            with_subnet(final(self)@, old(self)@, subnet),
            old(self)@.contains(subnet) ==> final(self)@ == old(self)@,
            !old(self)@.contains(subnet) ==> final(self)@.len() == old(self)@.len() + 1,
    {
        proof {
            use_type_invariant(&*self);
            lemma_subnets_of(self.in_use@);
        }
        let ghost before = self.in_use@;
        let mut taken = InternalDnsSubnetAllocator { in_use: BTreeSet::new() };
        std::mem::swap(&mut taken, self);
        let InternalDnsSubnetAllocator { mut in_use } = taken;
        insert(&mut in_use, subnet.net);
        proof {
            lemma_subnets_of(in_use@);
            if before.contains(subnet.net) {
                assert(in_use@ =~= before);
            }
            assert forall|s: DnsSubnet|
                #![trigger subnets_of(in_use@).contains(s)]
                subnets_of(in_use@).contains(s) <==> subnets_of(before).contains(s) || s
                    == subnet by {
                if s.net == subnet.net {
                    assert(s == subnet);
                }
            }
        }
        *self = InternalDnsSubnetAllocator { in_use };
    }

    /// Allocate the first available DNS subnet, or one from a default rack
    /// subnet. The default is needed because we can't necessarily guess the
    /// correct reserved rack subnet (e.g., there might not be any internal DNS
    /// zones in the parent blueprint, though that would itself be odd), but we
    /// can derive it at runtime from the sled address.
    pub fn allocate(&mut self, rack_subnet: ReservedRackSubnet) -> (r: Result<
        DnsSubnet,
        NoAvailableDnsSubnets,
    >)
        ensures
            r is Err <==> is_exhausted(old(self)@),
            r is Err ==> final(self)@ == old(self)@,
            r is Ok ==> {
                &&& is_next(r->Ok_0, old(self)@, rack_subnet)
                &&& !old(self)@.contains(r->Ok_0)
                &&& in_subnet_order(final(self)@)
                &&& with_subnet(final(self)@, old(self)@, r->Ok_0)
                &&& final(self)@.len() == old(self)@.len() + 1
            },
    {
        let new = if let Some(first) = self.first() {
            // Take the first available DNS subnet. We currently go through
            // all `INTERNAL_DNS_REDUNDANCY` subnets; this is fine as long as
            // that constant is small.
            let ghost rack = rack_subnet_of(self@[0].net);
            let subnets = ReservedRackSubnet::from_subnet(first.subnet()).get_dns_subnets();
            let mut i: usize = 0;
            while i < subnets.len() && self.is_used(subnets[i])
                invariant
                    i <= subnets.len(),
                    subnets.len() == INTERNAL_DNS_REDUNDANCY,
                    subnets@ == Seq::new(
                        INTERNAL_DNS_REDUNDANCY as nat,
                        |i: int| rack.dns_subnet(i + 1),
                    ),
                    forall|k: int| 1 <= k < i + 1 ==> self@.contains(#[trigger] rack.dns_subnet(k)),
                decreases subnets.len() - i,
            {
                assert(subnets@[i as int] == rack.dns_subnet(i + 1));
                i = i + 1;
            }
            if i < subnets.len() {
                proof {
                    assert(subnets@[i as int] == rack.dns_subnet(i + 1));
                    assert(is_next(subnets@[i as int], self@, rack_subnet));
                    assert(!self@.contains(rack.dns_subnet(i + 1)));
                }
                subnets[i]
            } else {
                return Err(NoAvailableDnsSubnets);
            }
        } else {
            rack_subnet.get_dns_subnet(1)
        };
        self.add(new);
        Ok(new)
    }

    /// The subnets in use, smallest first.
    fn subnets(&self) -> (r: Vec<DnsSubnet>)
        ensures
            r@ == self@,
            in_subnet_order(r@),
    {
        proof {
            use_type_invariant(self);
            lemma_subnets_of(self.in_use@);
        }
        let nets = keys_in_order(&self.in_use);
        let ghost all = nets@;
        let ghost subnet = |net: Ipv6Addr| DnsSubnet { net };
        let mut out: Vec<DnsSubnet> = Vec::new();
        let mut i: usize = 0;
        while i < nets.len()
            invariant
                i <= nets.len(),
                all == nets@,
                subnet == (|net: Ipv6Addr| DnsSubnet { net }),
                out@ == all.take(i as int).map_values(subnet),
            decreases nets.len() - i,
        {
            out.push(DnsSubnet { net: nets[i] });
            assert(out@ =~= all.take(i + 1).map_values(subnet));
            i = i + 1;
        }
        proof {
            let list = out@;
            assert(all.take(all.len() as int) =~= all);
            assert forall|i: int, j: int|
                #![trigger list[i], list[j]]
                0 <= i < j < list.len() implies list[i].net < list[j].net by {
                assert(id_numbers(all)[i] < id_numbers(all)[j]);
            }
            assert forall|s: DnsSubnet| #[trigger]
                list.contains(s) <==> self.in_use@.contains(s.net) by {
                assert(all.contains(s.net) == self.in_use@.contains(s.net));
                if list.contains(s) {
                    let i = choose|i: int| 0 <= i < list.len() && list[i] == s;
                    assert(all.contains(all[i]));
                }
                if all.contains(s.net) {
                    let i = choose|i: int| 0 <= i < all.len() && all[i] == s.net;
                    assert(list[i] == s);
                }
            }
            lemma_one_list(list, self@, self.in_use@);
        }
        out
    }

    /// The smallest subnet in use.
    pub fn first(&self) -> (r: Option<DnsSubnet>)
        ensures
            r == (if self@.len() > 0 {
                Some(self@[0])
            } else {
                None
            }),
            in_subnet_order(self@),
    {
        let subnets = self.subnets();
        if subnets.len() > 0 {
            Some(subnets[0])
        } else {
            None
        }
    }

    /// Takes the smallest subnet out of use.
    pub fn pop_first(&mut self) -> (r: Option<DnsSubnet>)
        ensures
            old(self)@.len() == 0 ==> r is None && final(self)@ == old(self)@,
            old(self)@.len() > 0 ==> r == Some(old(self)@[0]) && final(self)@
                == old(self)@.drop_first(),
            in_subnet_order(old(self)@),
    {
        let subnets = self.subnets();
        if subnets.len() == 0 {
            return None;
        }
        proof {
            use_type_invariant(&*self);
            lemma_subnets_of(self.in_use@);
        }
        let ghost before = self.in_use@;
        let first = subnets[0];
        let mut taken = InternalDnsSubnetAllocator { in_use: BTreeSet::new() };
        std::mem::swap(&mut taken, self);
        let InternalDnsSubnetAllocator { mut in_use } = taken;
        remove(&mut in_use, first.net);
        proof {
            let (list, rest) = (subnets@, subnets@.drop_first());
            lemma_subnets_of(in_use@);
            assert forall|s: DnsSubnet| #[trigger]
                rest.contains(s) <==> in_use@.contains(s.net) by {
                if rest.contains(s) {
                    let i = choose|i: int| 0 <= i < rest.len() && rest[i] == s;
                    assert(list[i + 1] == s);
                    assert(list.contains(s));
                    assert(list[0].net < list[i + 1].net);
                }
                if in_use@.contains(s.net) {
                    assert(list.contains(s));
                    let i = choose|i: int| 0 <= i < list.len() && list[i] == s;
                    assert(rest[i - 1] == s);
                }
            }
            lemma_one_list(rest, subnets_of(in_use@), in_use@);
        }
        *self = InternalDnsSubnetAllocator { in_use };
        Some(first)
    }

    /// The largest subnet in use.
    pub fn last(&self) -> (r: Option<DnsSubnet>)
        ensures
            r == (if self@.len() > 0 {
                Some(self@.last())
            } else {
                None
            }),
            in_subnet_order(self@),
    {
        let subnets = self.subnets();
        if subnets.len() > 0 {
            Some(subnets[subnets.len() - 1])
        } else {
            None
        }
    }

    /// How many subnets are in use.
    pub fn len(&self) -> (r: usize)
        ensures
            r == self@.len(),
    {
        proof {
            use_type_invariant(self);
            lemma_subnets_of(self.in_use@);
        }
        count(&self.in_use)
    }
}

// ---
// Laws
// ---

/// Whether this is the reserved subnet of some rack.
pub open spec fn is_reserved(rack: ReservedRackSubnet) -> bool {
    rack.net % SUBNET_48 == 0
}

/// Whether a subnet is one of those of a rack that internal DNS servers can
/// have.
pub open spec fn is_dns_subnet_of(subnet: DnsSubnet, rack: ReservedRackSubnet) -> bool {
    exists|index: int|
        1 <= index <= INTERNAL_DNS_REDUNDANCY && subnet == #[trigger] rack.dns_subnet(index)
}

/// Whether subnets in use are all DNS subnets of a rack.
pub open spec fn all_of_rack(in_use: Seq<DnsSubnet>, rack: ReservedRackSubnet) -> bool {
    forall|s: DnsSubnet| #[trigger] in_use.contains(s) ==> is_dns_subnet_of(s, rack)
}

/// Each DNS subnet of a rack belongs to that rack.
pub proof fn law_dns_subnets_belong_to_rack(rack: ReservedRackSubnet, index: int)
    requires
        is_reserved(rack),
        1 <= index <= INTERNAL_DNS_REDUNDANCY,
    ensures
        rack.dns_subnet(index).net == rack.net + index * SUBNET_64,
        rack_subnet_of(rack.dns_subnet(index).net) == rack,
{
    let net = rack.net as int;
    assert(net % (SUBNET_56 as int) == 0 && net + 3 * SUBNET_64 <= u128::MAX) by {
        assert(SUBNET_48 == SUBNET_56 * 256);
        let k = net / (SUBNET_48 as int);
        assert(net == k * SUBNET_48);
        assert(net == (k * 256) * SUBNET_56);
        assert(k < 0x1_0000_0000_0000);
    }
    let at = rack.dns_subnet(index).net as int;
    assert(at == net + index * SUBNET_64);
    assert(at % (SUBNET_48 as int) == index * SUBNET_64) by {
        let k = net / (SUBNET_48 as int);
        assert(at == k * SUBNET_48 + index * SUBNET_64);
    }
}

/// The subnet that is allocated belongs to the rack of those in use: of their
/// rack, and not of another.
pub proof fn law_next_stays_in_rack(
    subnet: DnsSubnet,
    in_use: Seq<DnsSubnet>,
    rack: ReservedRackSubnet,
    given: ReservedRackSubnet,
)
    requires
        is_reserved(rack),
        all_of_rack(in_use, rack),
        in_use.len() > 0 || given == rack,
        is_next(subnet, in_use, given),
    ensures
        is_dns_subnet_of(subnet, rack),
        rack_subnet_of(subnet.net) == rack,
{
    if in_use.len() > 0 {
        assert(in_use.contains(in_use[0]));
        let i = choose|i: int|
            1 <= i <= INTERNAL_DNS_REDUNDANCY && in_use[0] == #[trigger] rack.dns_subnet(i);
        law_dns_subnets_belong_to_rack(rack, i);
        assert(rack_subnet_of(in_use[0].net) == rack);
    } else {
        assert(subnet == rack.dns_subnet(1));
    }
    let i = choose|i: int|
        1 <= i <= INTERNAL_DNS_REDUNDANCY && subnet == #[trigger] rack.dns_subnet(i);
    law_dns_subnets_belong_to_rack(rack, i);
}

/// At most `INTERNAL_DNS_REDUNDANCY` subnets of a rack are in use, and no more
/// can be allocated just where there are that many.
pub proof fn law_at_most_redundancy(in_use: Seq<DnsSubnet>, rack: ReservedRackSubnet)
    requires
        is_reserved(rack),
        in_subnet_order(in_use),
        all_of_rack(in_use, rack),
    ensures
        in_use.len() <= INTERNAL_DNS_REDUNDANCY,
        is_exhausted(in_use) <==> in_use.len() == INTERNAL_DNS_REDUNDANCY,
{
    let (a, b, c) = (rack.dns_subnet(1), rack.dns_subnet(2), rack.dns_subnet(3));
    law_dns_subnets_belong_to_rack(rack, 1);
    law_dns_subnets_belong_to_rack(rack, 2);
    law_dns_subnets_belong_to_rack(rack, 3);
    assert forall|k: int| 0 <= k < in_use.len() implies #[trigger] in_use[k] == a || in_use[k] == b
        || in_use[k] == c by {
        assert(in_use.contains(in_use[k]));
        let i = choose|i: int|
            1 <= i <= INTERNAL_DNS_REDUNDANCY && in_use[k] == #[trigger] rack.dns_subnet(i);
        assert(i == 1 || i == 2 || i == 3);
    }
    if in_use.len() > 3 {
        assert(in_use[0].net < in_use[1].net && in_use[1].net < in_use[2].net && in_use[2].net
            < in_use[3].net);
    }
    if in_use.len() > 0 {
        assert(rack_subnet_of(in_use[0].net) == rack);
    }
    if in_use.len() == 3 {
        assert(in_use[0].net < in_use[1].net && in_use[1].net < in_use[2].net);
        assert(in_use[0] == a && in_use[1] == b && in_use[2] == c);
        assert(in_use.contains(a) && in_use.contains(b) && in_use.contains(c));
        assert forall|i: int| 1 <= i <= INTERNAL_DNS_REDUNDANCY implies in_use.contains(
            #[trigger] rack.dns_subnet(i),
        ) by {
            assert(i == 1 || i == 2 || i == 3);
        }
    }
    if is_exhausted(in_use) {
        assert(in_use.contains(a) && in_use.contains(b) && in_use.contains(c));
        let i = choose|i: int| 0 <= i < in_use.len() && in_use[i] == a;
        let j = choose|j: int| 0 <= j < in_use.len() && in_use[j] == b;
        let k = choose|k: int| 0 <= k < in_use.len() && in_use[k] == c;
        assert(i != j && j != k && i != k);
    }
}

/// Where the subnets in use are the first ones of a rack, the one that is
/// allocated comes right after them.
pub proof fn law_next_comes_after_prior_ones(
    subnet: DnsSubnet,
    in_use: Seq<DnsSubnet>,
    rack: ReservedRackSubnet,
    given: ReservedRackSubnet,
)
    requires
        is_reserved(rack),
        0 < in_use.len() < INTERNAL_DNS_REDUNDANCY,
        in_use == Seq::new(in_use.len(), |i: int| rack.dns_subnet(i + 1)),
        is_next(subnet, in_use, given),
    ensures
        subnet == rack.dns_subnet((in_use.len() + 1) as int),
        in_use.last().net < subnet.net,
{
    let n = in_use.len() as int;
    law_dns_subnets_belong_to_rack(rack, 1);
    law_dns_subnets_belong_to_rack(rack, 2);
    law_dns_subnets_belong_to_rack(rack, 3);
    assert(in_use[0] == rack.dns_subnet(1));
    assert(rack_subnet_of(in_use[0].net) == rack);
    let index = choose|index: int|
        {
            &&& 1 <= index <= INTERNAL_DNS_REDUNDANCY
            &&& subnet == #[trigger] rack.dns_subnet(index)
            &&& !in_use.contains(subnet)
            &&& forall|i: int| 1 <= i < index ==> in_use.contains(#[trigger] rack.dns_subnet(i))
        };
    if index <= n {
        assert(in_use[index - 1] == subnet);
    }
    if index > n + 1 {
        assert(in_use.contains(rack.dns_subnet(n + 1)));
        let k = choose|k: int| 0 <= k < n && in_use[k] == rack.dns_subnet(n + 1);
        assert(in_use[k] == rack.dns_subnet(k + 1));
    }
    assert(in_use[n - 1] == rack.dns_subnet(n));
}

/// The subnet that was taken out of use is the one that is allocated next: of
/// a rack whose subnets were all in use, without the smallest ones of them, the
/// smallest of all.
pub proof fn law_packing(
    subnet: DnsSubnet,
    in_use: Seq<DnsSubnet>,
    popped: int,
    rack: ReservedRackSubnet,
    given: ReservedRackSubnet,
)
    requires
        is_reserved(rack),
        in_subnet_order(in_use),
        all_of_rack(in_use, rack),
        is_exhausted(in_use),
        0 < popped < in_use.len(),
        is_next(subnet, in_use.skip(popped), given),
    ensures
        subnet == in_use[0],
{
    let left = in_use.skip(popped);
    let first = rack.dns_subnet(1);
    law_at_most_redundancy(in_use, rack);
    law_dns_subnets_belong_to_rack(rack, 1);
    law_dns_subnets_belong_to_rack(rack, 2);
    law_dns_subnets_belong_to_rack(rack, 3);
    assert(in_use.contains(in_use[0]) && in_use.contains(left[0])) by {
        assert(left[0] == in_use[popped]);
    }
    assert(is_dns_subnet_of(left[0], rack));
    assert(rack_subnet_of(left[0].net) == rack) by {
        let i = choose|i: int|
            1 <= i <= INTERNAL_DNS_REDUNDANCY && left[0] == #[trigger] rack.dns_subnet(i);
        law_dns_subnets_belong_to_rack(rack, i);
    }
    assert(rack_subnet_of(in_use[0].net) == rack) by {
        let i = choose|i: int|
            1 <= i <= INTERNAL_DNS_REDUNDANCY && in_use[0] == #[trigger] rack.dns_subnet(i);
        law_dns_subnets_belong_to_rack(rack, i);
    }
    assert(in_use.contains(first));
    assert(in_use[0] == first) by {
        let k = choose|k: int| 0 <= k < in_use.len() && in_use[k] == first;
        let i = choose|i: int|
            1 <= i <= INTERNAL_DNS_REDUNDANCY && in_use[0] == #[trigger] rack.dns_subnet(i);
        assert(i == 1 || i == 2 || i == 3);
        if k > 0 {
            assert(in_use[0].net < in_use[k].net);
        }
    }
    assert(!left.contains(first)) by {
        if left.contains(first) {
            let k = choose|k: int| 0 <= k < left.len() && left[k] == first;
            assert(left[k] == in_use[k + popped]);
            assert(in_use[0].net < in_use[k + popped].net);
        }
    }
}

/// The sizes of the subnets, and how many servers there are at most.
pub proof fn law_sizes_of_subnets()
    ensures
        INTERNAL_DNS_REDUNDANCY == 3,
        SUBNET_64 == 0x1_0000_0000_0000_0000,
        SUBNET_56 == SUBNET_64 * 256,
        SUBNET_48 == SUBNET_56 * 256,
{
}

/// The reserved subnet of a rack is the first of the larger subnet that an address lies
/// in, so that all addresses of that one have the same.
pub proof fn law_reserved_subnet_of_an_address(addr: Ipv6Addr, other: Ipv6Addr)
    ensures
        is_reserved(rack_subnet_of(addr)),
        rack_subnet_of(addr).net <= addr,
        addr - rack_subnet_of(addr).net < 0x1_0000_0000_0000_0000_0000,
        rack_subnet_of(addr).net % 0x1_0000_0000_0000_0000_0000 == 0,
        addr / 0x1_0000_0000_0000_0000_0000 == other / 0x1_0000_0000_0000_0000_0000
            <==> rack_subnet_of(addr) == rack_subnet_of(other),
{
    let size = SUBNET_48 as int;
    let (a, b) = (addr as int, other as int);
    assert(a == (a / size) * size + a % size);
    assert(b == (b / size) * size + b % size);
    assert((a - a % size) % size == 0) by {
        assert(a - a % size == (a / size) * size);
    }
}

/// The DNS subnets of a rack follow each other, so that no two of them are the same.
pub proof fn law_dns_subnets_differ(rack: ReservedRackSubnet, i: int, j: int)
    requires
        is_reserved(rack),
        1 <= i < j <= 3,
    ensures
        rack.dns_subnet(i).net == rack.net + i * 0x1_0000_0000_0000_0000,
        rack.dns_subnet(i).net < rack.dns_subnet(j).net,
{
    law_dns_subnets_belong_to_rack(rack, i);
    law_dns_subnets_belong_to_rack(rack, j);
}

/// Where no subnet is in use, the first one of the given rack is next. Where there are
/// some, the given rack does not count: the smallest of their rack that is free is
/// next, and there is just one such subnet.
pub proof fn law_which_subnet_is_next(
    subnet: DnsSubnet,
    other: DnsSubnet,
    in_use: Seq<DnsSubnet>,
    given: ReservedRackSubnet,
    another: ReservedRackSubnet,
)
    requires
        is_next(subnet, in_use, given),
    ensures
        in_use.len() == 0 && is_reserved(given) ==> subnet.net == given.net
            + 0x1_0000_0000_0000_0000,
        in_use.len() > 0 ==> !in_use.contains(subnet),
        in_use.len() > 0 ==> is_next(subnet, in_use, another),
        is_next(other, in_use, given) ==> other == subnet,
        in_use.len() > 0 ==> !is_exhausted(in_use),
{
    if in_use.len() == 0 {
        if is_reserved(given) {
            law_dns_subnets_belong_to_rack(given, 1);
        }
    } else {
        let rack = rack_subnet_of(in_use[0].net);
        let index = choose|index: int|
            {
                &&& 1 <= index <= INTERNAL_DNS_REDUNDANCY
                &&& subnet == #[trigger] rack.dns_subnet(index)
                &&& !in_use.contains(subnet)
                &&& forall|i: int| 1 <= i < index ==> in_use.contains(#[trigger] rack.dns_subnet(i))
            };
        assert(!in_use.contains(rack.dns_subnet(index)));
        if is_next(other, in_use, given) {
            let at = choose|at: int|
                {
                    &&& 1 <= at <= INTERNAL_DNS_REDUNDANCY
                    &&& other == #[trigger] rack.dns_subnet(at)
                    &&& !in_use.contains(other)
                    &&& forall|i: int|
                        1 <= i < at ==> in_use.contains(#[trigger] rack.dns_subnet(i))
                };
            if at < index {
                assert(in_use.contains(rack.dns_subnet(at)));
            }
            if index < at {
                assert(in_use.contains(rack.dns_subnet(index)));
            }
        }
    }
}

/// Where some subnet of the rack of those in use is free, there is a next one, and no
/// smaller one of that rack is free.
pub proof fn law_smallest_free_subnet_is_next(
    in_use: Seq<DnsSubnet>,
    given: ReservedRackSubnet,
) -> (subnet: DnsSubnet)
    requires
        in_use.len() > 0,
        !is_exhausted(in_use),
    ensures
        is_next(subnet, in_use, given),
        forall|i: int|
            1 <= i <= 3 && (#[trigger] rack_subnet_of(in_use[0].net).dns_subnet(i)).net < subnet.net
                ==> in_use.contains(rack_subnet_of(in_use[0].net).dns_subnet(i)),
{
    let rack = rack_subnet_of(in_use[0].net);
    let (a, b, c) = (rack.dns_subnet(1), rack.dns_subnet(2), rack.dns_subnet(3));
    law_reserved_subnet_of_an_address(in_use[0].net, in_use[0].net);
    law_dns_subnets_belong_to_rack(rack, 1);
    law_dns_subnets_belong_to_rack(rack, 2);
    law_dns_subnets_belong_to_rack(rack, 3);
    let subnet = if !in_use.contains(a) {
        a
    } else if !in_use.contains(b) {
        b
    } else {
        c
    };
    if in_use.contains(a) && in_use.contains(b) && in_use.contains(c) {
        assert forall|i: int| 1 <= i <= INTERNAL_DNS_REDUNDANCY implies in_use.contains(
            #[trigger] rack.dns_subnet(i),
        ) by {
            assert(i == 1 || i == 2 || i == 3);
        }
    }
    let index: int = if subnet == a {
        1
    } else if subnet == b {
        2
    } else {
        3
    };
    assert(subnet == rack.dns_subnet(index));
    assert forall|i: int| 1 <= i < index implies in_use.contains(
        #[trigger] rack.dns_subnet(i),
    ) by {
        assert(i == 1 || i == 2);
    }
    assert forall|i: int|
        1 <= i <= 3 && (#[trigger] rack.dns_subnet(i)).net < subnet.net implies in_use.contains(
        rack.dns_subnet(i),
    ) by {
        assert(i == 1 || i == 2 || i == 3);
    }
    subnet
}

/// Once a subnet is in use, it is not next any more, and those before still are in use.
pub proof fn law_allocated_subnets_stay_in_use(
    list: Seq<DnsSubnet>,
    before: Seq<DnsSubnet>,
    subnet: DnsSubnet,
    other: DnsSubnet,
    given: ReservedRackSubnet,
)
    requires
        with_subnet(list, before, subnet),
    ensures
        list.contains(subnet),
        before.contains(other) ==> list.contains(other),
        list.contains(other) && other != subnet ==> before.contains(other),
        !is_next(subnet, list, given),
{
    assert(list.contains(subnet) <==> before.contains(subnet) || subnet == subnet);
    assert(list.contains(other) <==> before.contains(other) || other == subnet);
    if list.len() == 0 {
        assert(!list.contains(subnet));
    }
}

/// Subnets are listed smallest first.
pub proof fn law_subnets_are_listed_in_order(list: Seq<DnsSubnet>, i: int, j: int)
    requires
        in_subnet_order(list),
        0 <= i < j < list.len(),
    ensures
        list[i].net < list[j].net,
{
}

} // verus!
