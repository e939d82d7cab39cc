use vstd::prelude::*;

verus! {

/// The port on which the exchange server listens.
pub const SERVER_PORT: u16 = 4443;

/// An IP address: a 32-bit IPv4 address or a 128-bit IPv6 address, each held by its
/// numeric value (the octets or segments read in network order).
#[derive(Clone, Copy, Debug, PartialEq, Eq, Structural, Hash)]
pub enum IpAddress {
    V4(u32),
    V6(u128),
}

/// An IPv4 address is a loopback address when it lies in 127.0.0.0/8; the only IPv6
/// loopback address is ::1.
pub open spec fn spec_is_loopback(addr: IpAddress) -> bool {
    match addr {
        IpAddress::V4(bits) => bits / 0x100_0000 == 127,
        IpAddress::V6(bits) => bits == 1,
    }
}

impl IpAddress {
    /// Whether the address is a loopback address.
    pub fn is_loopback(&self) -> (res: bool)
        ensures
            res == spec_is_loopback(*self),
    {
        match self {
            IpAddress::V4(bits) => *bits / 0x100_0000 == 127,
            IpAddress::V6(bits) => *bits == 1,
        }
    }

    /// Whether the address is an IPv4 address.
    pub fn is_ipv4(&self) -> (res: bool)
        ensures
            res == (*self is V4),
    {
        matches!(self, IpAddress::V4(_))
    }
}

/// A network interface, as the operating system names and numbers it.
#[derive(Clone, Debug, PartialEq, Eq, Hash)]
pub struct InterfaceId {
    /// Interface name, e.g. "en0", "wlan0", etc.
    pub name: String,
    /// Interface index assigned by the OS, e.g. 1, 2, etc.
    pub index: u32,
}

impl Default for InterfaceId {
    fn default() -> (res: Self)
        ensures
            res.name@ == Seq::<char>::empty(),
            res.index == 0,
    {
        InterfaceId { name: String::new(), index: 0 }
    }
}

/// An IPv6 address together with the interface that scopes it.
#[derive(Clone, Debug, PartialEq, Eq, Hash)]
pub struct ScopedIpV6 {
    pub addr: u128,
    pub scope_id: InterfaceId,
}

/// An IPv4 address together with the interfaces it was discovered on.
#[derive(Clone, Debug, PartialEq, Eq, Hash)]
pub struct ScopedIpV4 {
    pub addr: u32,
    /// The interfaces this address was discovered on.
    pub interface_ids: Vec<InterfaceId>,
}

/// An address of a discovered service, with the interfaces it belongs to.
#[derive(Clone, Debug, PartialEq, Eq, Hash)]
pub enum ScopedIp {
    V4(ScopedIpV4),
    V6(ScopedIpV6),
}

/// The plain address of a scoped address.
pub open spec fn spec_ip_of(ip: ScopedIp) -> IpAddress {
    match ip {
        ScopedIp::V4(v4) => IpAddress::V4(v4.addr),
        ScopedIp::V6(v6) => IpAddress::V6(v6.addr),
    }
}

impl ScopedIp {
    /// Whether the address is a loopback address.
    pub fn is_loopback(&self) -> (res: bool)
        ensures
            res == spec_is_loopback(spec_ip_of(*self)),
    {
        match self {
            ScopedIp::V4(v4) => IpAddress::V4(v4.addr).is_loopback(),
            ScopedIp::V6(v6) => IpAddress::V6(v6.addr).is_loopback(),
        }
    }

    /// The address without its scope.
    pub fn to_ip_addr(&self) -> (res: IpAddress)
        ensures
            res == spec_ip_of(*self),
    {
        match self {
            ScopedIp::V4(v4) => IpAddress::V4(v4.addr),
            ScopedIp::V6(v6) => IpAddress::V6(v6.addr),
        }
    }

    /// Whether the address is an IPv4 address.
    pub fn is_ipv4(&self) -> (res: bool)
        ensures
            res == (*self is V4),
    {
        matches!(self, ScopedIp::V4(_))
    }

    /// Whether the address is an IPv6 address.
    pub fn is_ipv6(&self) -> (res: bool)
        ensures
            res == (*self is V6),
    {
        matches!(self, ScopedIp::V6(_))
    }
}

/// An IP address and a port.
#[derive(Clone, Copy, Debug, PartialEq, Eq, Structural, Hash)]
pub struct SocketAddress {
    pub ip: IpAddress,
    pub port: u16,
}

} // verus!
verus! {

/// An interface as plain values: its name and its index.
pub open spec fn interface_key(i: InterfaceId) -> (Seq<char>, u32) {
    (i.name@, i.index)
}

/// What tells two scoped addresses apart: the family, the address and the interfaces,
/// in order.
pub open spec fn scoped_key(ip: ScopedIp) -> (bool, u128, Seq<(Seq<char>, u32)>) {
    match ip {
        ScopedIp::V4(v4) => (
            false,
            v4.addr as u128,
            v4.interface_ids@.map_values(|i: InterfaceId| interface_key(i)),
        ),
        ScopedIp::V6(v6) => (true, v6.addr, seq![interface_key(v6.scope_id)]),
    }
}

/// No two addresses of `s` are the same scoped address.
pub open spec fn keys_distinct(s: Seq<ScopedIp>) -> bool {
    forall|i: int, j: int|
        0 <= i < s.len() && 0 <= j < s.len() && i != j ==> scoped_key(s[i]) != scoped_key(s[j])
}

/// Every address of `given` is, as a scoped address, one of `held`.
pub open spec fn covers(held: Seq<ScopedIp>, given: Seq<ScopedIp>) -> bool {
    forall|i: int|
        0 <= i < given.len() ==> exists|j: int|
            0 <= j < held.len() && scoped_key(held[j]) == scoped_key(#[trigger] given[i])
}

/// Whether two interfaces have the same name and index.
pub fn same_interface(a: &InterfaceId, b: &InterfaceId) -> (res: bool)
    ensures
        res == (interface_key(*a) == interface_key(*b)),
{
    a.index == b.index && a.name == b.name
}

fn same_interfaces(a: &Vec<InterfaceId>, b: &Vec<InterfaceId>) -> (res: bool)
    ensures
        res == (a@.map_values(|i: InterfaceId| interface_key(i)) == b@.map_values(
            |i: InterfaceId| interface_key(i),
        )),
{
    let ghost ka = a@.map_values(|i: InterfaceId| interface_key(i));
    let ghost kb = b@.map_values(|i: InterfaceId| interface_key(i));
    if a.len() != b.len() {
        assert(ka.len() != kb.len());
        return false;
    }
    let mut k: usize = 0;
    while k < a.len()
        invariant
            a@.len() == b@.len(),
            k <= a@.len(),
            ka == a@.map_values(|i: InterfaceId| interface_key(i)),
            kb == b@.map_values(|i: InterfaceId| interface_key(i)),
            forall|j: int| 0 <= j < k ==> ka[j] == kb[j],
        decreases a@.len() - k,
    {
        if !same_interface(&a[k], &b[k]) {
            assert(ka[k as int] != kb[k as int]);
            return false;
        }
        k = k + 1;
    }
    assert(ka =~= kb);
    true
}

/// Whether two scoped addresses are the same: same family, address and interfaces.
pub fn same_scoped_ip(a: &ScopedIp, b: &ScopedIp) -> (res: bool)
    ensures
        res == (scoped_key(*a) == scoped_key(*b)),
{
    match (a, b) {
        (ScopedIp::V4(x), ScopedIp::V4(y)) => x.addr == y.addr && same_interfaces(
            &x.interface_ids,
            &y.interface_ids,
        ),
        (ScopedIp::V6(x), ScopedIp::V6(y)) => {
            let r = x.addr == y.addr && same_interface(&x.scope_id, &y.scope_id);
            assert(seq![interface_key(x.scope_id)][0] == interface_key(x.scope_id));
            assert(seq![interface_key(y.scope_id)][0] == interface_key(y.scope_id));
            r
        },
        _ => false,
    }
}

/// Whether `s` holds an address that is the same as `x`.
fn holds_same(s: &Vec<ScopedIp>, x: &ScopedIp) -> (res: bool)
    ensures
        res == exists|j: int| 0 <= j < s@.len() && scoped_key(s@[j]) == scoped_key(*x),
{
    let mut j: usize = 0;
    while j < s.len()
        invariant
            j <= s@.len(),
            forall|i: int| 0 <= i < j ==> scoped_key(s@[i]) != scoped_key(*x),
        decreases s@.len() - j,
    {
        if same_scoped_ip(&s[j], x) {
            return true;
        }
        j = j + 1;
    }
    false
}

/// The addresses of a service, each held once.
#[derive(Debug)]
pub struct AddressSet {
    addrs: Vec<ScopedIp>,
}

impl View for AddressSet {
    type V = Seq<ScopedIp>;

    closed spec fn view(&self) -> Seq<ScopedIp> {
        self.addrs@
    }
}

impl AddressSet {
    #[verifier::type_invariant]
    spec fn held_once(self) -> bool {
        keys_distinct(self.addrs@)
    }

    /// No address.
    pub fn new() -> (res: Self)
        ensures
            res@.len() == 0,
    {
        AddressSet { addrs: Vec::new() }
    }

    /// The given addresses, each kept once: of two that are the same, the first stays.
    pub fn from_vec(v: Vec<ScopedIp>) -> (res: Self)
        ensures
            keys_distinct(res@),
            forall|j: int| 0 <= j < res@.len() ==> v@.contains(#[trigger] res@[j]),
            covers(res@, v@),
    {
        let ghost orig = v@;
        let mut rest = v;
        let mut out: Vec<ScopedIp> = Vec::new();
        while rest.len() > 0
            invariant
                rest@.len() <= orig.len(),
                rest@ == orig.subrange(orig.len() - rest@.len(), orig.len() as int),
                keys_distinct(out@),
                forall|j: int| 0 <= j < out@.len() ==> orig.contains(#[trigger] out@[j]),
                covers(out@, orig.take(orig.len() - rest@.len())),
            decreases rest@.len(),
        {
            let ghost at: int = orig.len() - rest@.len();
            let ghost before = out@;
            let x = rest.remove(0);
            assert(x == orig[at]);
            assert(rest@ =~= orig.subrange(orig.len() - rest@.len(), orig.len() as int));
            if !holds_same(&out, &x) {
                out.push(x);
                assert forall|j: int| 0 <= j < out@.len() implies orig.contains(#[trigger] out@[j]) by {
                    if j < before.len() {
                        assert(out@[j] == before[j]);
                    }
                }
            }
            proof {
                let taken = orig.take(at + 1);
                assert forall|i: int| 0 <= i < taken.len() implies exists|j: int|
                    0 <= j < out@.len() && scoped_key(out@[j]) == scoped_key(#[trigger] taken[i]) by {
                    if i < at {
                        assert(taken[i] == orig.take(at)[i]);
                        let j = choose|j: int|
                            0 <= j < before.len() && scoped_key(before[j]) == scoped_key(
                                orig.take(at)[i],
                            );
                        assert(out@[j] == before[j]);
                    } else {
                        assert(taken[i] == x);
                        if out@.len() > before.len() {
                            assert(out@[before.len() as int] == x);
                        } else {
                            let j = choose|j: int|
                                0 <= j < out@.len() && scoped_key(out@[j]) == scoped_key(x);
                            assert(scoped_key(out@[j]) == scoped_key(taken[i]));
                        }
                    }
                }
                assert(covers(out@, taken));
            }
        }
        assert(orig.take(orig.len() as int) =~= orig);
        AddressSet { addrs: out }
    }

    /// The addresses, in the order they are held.
    pub fn as_vec(&self) -> (res: &Vec<ScopedIp>)
        ensures
            res@ == self@,
            keys_distinct(self@),
    {
        proof {
            use_type_invariant(self);
        }
        &self.addrs
    }

    /// The number of addresses.
    pub fn len(&self) -> (res: usize)
        ensures
            res == self@.len(),
    {
        self.addrs.len()
    }
}

} // verus!
