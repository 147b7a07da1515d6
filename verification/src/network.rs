//! Addresses, and what is known of the network that this node sits behind.
use vstd::prelude::*;

verus! {

/// An IPv4 address, by its four octets.
#[derive(Clone, Copy, Debug, PartialEq, Eq, Structural)]
pub struct Ipv4Address {
    pub a: u8,
    pub b: u8,
    pub c: u8,
    pub d: u8,
}

/// An IPv6 address, by its sixteen octets.
#[derive(Clone, Copy, Debug, PartialEq, Eq)]
pub struct Ipv6Address {
    pub octets: [u8; 16],
}

/// The address of a socket.
#[derive(Clone, Copy, Debug, PartialEq, Eq)]
pub enum SocketAddress {
    V4(Ipv4Address, u16),
    V6(Ipv6Address, u16),
}

/// A socket of a peer-to-peer tunnel.
#[derive(Clone, Copy, Debug, PartialEq, Eq, Structural)]
pub enum SocketIndex {
    Udp(UdpIndex),
    Tcp(usize),
    Other,
}

/// A UDP socket of a peer-to-peer tunnel.
#[derive(Clone, Copy, Debug, PartialEq, Eq, Structural)]
pub enum UdpIndex {
    MainV4(usize),
    MainV6(usize),
    SubV4(usize),
}

/// How a network maps ports: alike for every destination, or for each one anew.
#[derive(Clone, Copy, Debug, PartialEq, Eq, Structural)]
pub enum NatType {
    Cone,
    Symmetric,
}

/// How many sockets are used for UDP.
#[derive(Clone, Copy, Debug, PartialEq, Eq, Structural)]
pub enum Model {
    High,
    Low,
}

/// Addresses that can be reached from anywhere: those outside the ranges set aside for this
/// network, private use, carrier networks, loopback, the local link, protocol assignments (but for
/// two), documentation, benchmarks, and later use, and not the broadcast address.
pub open spec fn is_global(ip: Ipv4Address) -> bool {
    !{
        ||| ip.a == 0
        ||| ip.a == 10
        ||| ip.a == 172 && 16 <= ip.b < 32
        ||| ip.a == 192 && ip.b == 168
        ||| ip.a == 100 && 64 <= ip.b < 128
        ||| ip.a == 127
        ||| ip.a == 169 && ip.b == 254
        ||| ip.a == 192 && ip.b == 0 && ip.c == 0 && ip.d != 9 && ip.d != 10
        ||| ip.a == 192 && ip.b == 0 && ip.c == 2
        ||| ip.a == 198 && ip.b == 51 && ip.c == 100
        ||| ip.a == 203 && ip.b == 0 && ip.c == 113
        ||| ip.a == 198 && 18 <= ip.b < 20
        ||| ip.a >= 240
    }
}

/// `rust_p2p_core::extend::addr::is_ipv4_global`: whether an address can be reached from anywhere,
/// as [`is_global`] says.
#[verifier::external_body]
pub(crate) fn is_ipv4_global(ip: Ipv4Address) -> (global: bool)
    ensures
        global == is_global(ip),
{
    rust_p2p_core::extend::addr::is_ipv4_global(&[ip.a, ip.b, ip.c, ip.d].into())
}

/// An IPv6 address that stands for an IPv4 address: ten zero octets and two that are all ones come
/// before its four octets.
pub open spec fn is_mapped(ip: Ipv6Address) -> bool {
    &&& forall|i: int| 0 <= i < 10 ==> ip.octets@[i] == 0
    &&& ip.octets@[10] == 0xff
    &&& ip.octets@[11] == 0xff
}

/// The IPv4 address and the port of a socket address, where it has an IPv4 address.
pub open spec fn mapping(addr: SocketAddress) -> Option<(Ipv4Address, u16)> {
    match addr {
        SocketAddress::V4(ip, port) => Some((ip, port)),
        SocketAddress::V6(ip, port) => if is_mapped(ip) {
            Some(
                (
                    Ipv4Address {
                        a: ip.octets@[12],
                        b: ip.octets@[13],
                        c: ip.octets@[14],
                        d: ip.octets@[15],
                    },
                    port,
                ),
            )
        } else {
            None
        },
    }
}

/// The IPv4 address and the port of a socket address, where it has an IPv4 address.
pub fn mapping_addr(addr: SocketAddress) -> (found: Option<(Ipv4Address, u16)>)
    ensures
        found == mapping(addr),
{
    match addr {
        SocketAddress::V4(ip, port) => Some((ip, port)),
        SocketAddress::V6(ip, port) => {
            let octets = ip.octets;
            for i in 0..10usize
                invariant
                    octets == ip.octets,
                    addr == SocketAddress::V6(ip, port),
                    forall|j: int| 0 <= j < i ==> ip.octets@[j] == 0,
            {
                if octets[i] != 0 {
                    assert(!is_mapped(ip));
                    return None;
                }
            }
            if octets[10] != 0xff || octets[11] != 0xff {
                return None;
            }
            Some((Ipv4Address { a: octets[12], b: octets[13], c: octets[14], d: octets[15] }, port))
        },
    }
}

/// What is known of the network that this node sits behind.
#[derive(Debug)]
pub struct NatInfo {
    /// How the network maps ports.
    pub nat_type: NatType,
    /// The public addresses of the network.
    pub public_ips: Vec<Ipv4Address>,
    /// The public port of each main UDP socket, zero where it is not known.
    pub public_udp_ports: Vec<u16>,
    /// Addresses that are mapped to the TCP service.
    pub mapping_tcp_addr: Vec<SocketAddress>,
    /// Addresses that are mapped to the UDP services.
    pub mapping_udp_addr: Vec<SocketAddress>,
    /// How far public ports are expected to lie apart.
    pub public_port_range: u16,
    /// The address of this node in its network.
    pub local_ipv4: Ipv4Address,
    /// The IPv6 address of this node.
    pub ipv6: Option<Ipv6Address>,
    /// The port of each main UDP socket.
    pub local_udp_ports: Vec<u16>,
    /// The port of the TCP service.
    pub local_tcp_port: u16,
    /// The public port of the TCP service, zero where it is not known.
    pub public_tcp_port: u16,
}

/// What [`NatInfo`] stands for.
#[verifier::ext_equal]
pub struct NatInfoView {
    pub nat_type: NatType,
    pub public_ips: Seq<Ipv4Address>,
    pub public_udp_ports: Seq<u16>,
    pub mapping_tcp_addr: Seq<SocketAddress>,
    pub mapping_udp_addr: Seq<SocketAddress>,
    pub public_port_range: u16,
    pub local_ipv4: Ipv4Address,
    pub ipv6: Option<Ipv6Address>,
    pub local_udp_ports: Seq<u16>,
    pub local_tcp_port: u16,
    pub public_tcp_port: u16,
}

impl View for NatInfo {
    type V = NatInfoView;

    open spec fn view(&self) -> NatInfoView {
        NatInfoView {
            nat_type: self.nat_type,
            public_ips: self.public_ips@,
            public_udp_ports: self.public_udp_ports@,
            mapping_tcp_addr: self.mapping_tcp_addr@,
            mapping_udp_addr: self.mapping_udp_addr@,
            public_port_range: self.public_port_range,
            local_ipv4: self.local_ipv4,
            ipv6: self.ipv6,
            local_udp_ports: self.local_udp_ports@,
            local_tcp_port: self.local_tcp_port,
            public_tcp_port: self.public_tcp_port,
        }
    }
}

impl NatInfoView {
    /// What is known at the start: the local ports.
    pub open spec fn initial(local_udp_ports: Seq<u16>, local_tcp_port: u16) -> NatInfoView {
        NatInfoView {
            nat_type: NatType::Cone,
            public_ips: Seq::empty(),
            public_udp_ports: Seq::new(local_udp_ports.len(), |i: int| 0u16),
            mapping_tcp_addr: Seq::empty(),
            mapping_udp_addr: Seq::empty(),
            public_port_range: 0,
            local_ipv4: Ipv4Address { a: 0, b: 0, c: 0, d: 0 },
            ipv6: None,
            local_udp_ports,
            local_tcp_port,
            public_tcp_port: 0,
        }
    }

    /// With an address among the public ones, once at most and only if it is global.
    pub open spec fn with_ip(self, ip: Ipv4Address) -> NatInfoView {
        if is_global(ip) && !self.public_ips.contains(ip) {
            NatInfoView { public_ips: self.public_ips.push(ip), ..self }
        } else {
            self
        }
    }

    /// With what a test of the network has found. Only global addresses are taken.
    pub open spec fn with_public_info(
        self,
        nat_type: NatType,
        ips: Seq<Ipv4Address>,
        public_port_range: u16,
    ) -> NatInfoView {
        NatInfoView {
            nat_type,
            public_ips: ips.filter(|ip: Ipv4Address| is_global(ip)),
            public_port_range,
            ..self
        }
    }

    /// With the public address of the TCP service.
    pub open spec fn with_tcp_public_addr(self, addr: SocketAddress) -> NatInfoView {
        match mapping(addr) {
            Some((ip, port)) => NatInfoView { public_tcp_port: port, ..self.with_ip(ip) },
            None => self,
        }
    }

    /// With the public address of a socket. An address that is not global is not taken, and a port
    /// only for the TCP service and the main UDP sockets.
    pub open spec fn with_public_addr(self, index: SocketIndex, addr: SocketAddress) -> NatInfoView {
        match mapping(addr) {
            Some((ip, port)) => if is_global(ip) {
                let found = self.with_ip(ip);
                match index {
                    SocketIndex::Udp(UdpIndex::MainV4(i)) => found.with_udp_port(i, port),
                    SocketIndex::Udp(UdpIndex::MainV6(i)) => found.with_udp_port(i, port),
                    SocketIndex::Udp(UdpIndex::SubV4(_)) => found,
                    SocketIndex::Tcp(_) => NatInfoView { public_tcp_port: port, ..found },
                    SocketIndex::Other => found,
                }
            } else {
                self
            },
            None => self,
        }
    }

    /// With the public port of a main UDP socket, if there is such a socket.
    pub open spec fn with_udp_port(self, index: usize, port: u16) -> NatInfoView {
        if index < self.public_udp_ports.len() {
            NatInfoView {
                public_udp_ports: self.public_udp_ports.update(index as int, port),
                ..self
            }
        } else {
            self
        }
    }

    /// With the local addresses. An IPv4 address that was not found leaves the last one.
    pub open spec fn with_local_addr(
        self,
        local_ipv4: Option<Ipv4Address>,
        local_ipv6: Option<Ipv6Address>,
    ) -> NatInfoView {
        NatInfoView {
            local_ipv4: match local_ipv4 {
                Some(ip) => ip,
                None => self.local_ipv4,
            },
            ipv6: local_ipv6,
            ..self
        }
    }

    /// What holds whatever was learnt: every public address is global, and each main UDP socket
    /// has one public port.
    pub open spec fn wf(self) -> bool {
        &&& forall|i: int| 0 <= i < self.public_ips.len() ==> is_global(#[trigger] self.public_ips[i])
        &&& self.public_udp_ports.len() == self.local_udp_ports.len()
    }
}

/// The network information is well formed at the start, and stays so whatever is learnt.
pub proof fn lemma_learning_keeps_wf(
    info: NatInfoView,
    local_udp_ports: Seq<u16>,
    local_tcp_port: u16,
    nat_type: NatType,
    ips: Seq<Ipv4Address>,
    public_port_range: u16,
    index: SocketIndex,
    addr: SocketAddress,
    local_ipv4: Option<Ipv4Address>,
    local_ipv6: Option<Ipv6Address>,
)
    requires
        info.wf(),
    ensures
        NatInfoView::initial(local_udp_ports, local_tcp_port).wf(),
        info.with_public_info(nat_type, ips, public_port_range).wf(),
        info.with_tcp_public_addr(addr).wf(),
        info.with_public_addr(index, addr).wf(),
        info.with_local_addr(local_ipv4, local_ipv6).wf(),
{
    broadcast use vstd::seq_lib::group_filter_ensures;

    let global = |ip: Ipv4Address| is_global(ip);
    let kept = ips.filter(global);
    assert forall|i: int| 0 <= i < kept.len() implies is_global(#[trigger] kept[i]) by {
        assert(global(kept[i]));
    }
}

/// Learning an address does not put any address among the public ones twice, and drops none.
pub proof fn lemma_addresses_stay_distinct(
    info: NatInfoView,
    index: SocketIndex,
    addr: SocketAddress,
)
    requires
        info.public_ips.no_duplicates(),
    ensures
        info.with_tcp_public_addr(addr).public_ips.no_duplicates(),
        info.with_public_addr(index, addr).public_ips.no_duplicates(),
        forall|ip: Ipv4Address|
            info.public_ips.contains(ip) ==> info.with_tcp_public_addr(addr).public_ips.contains(ip)
                && info.with_public_addr(index, addr).public_ips.contains(ip),
{
    if let Some((ip, port)) = mapping(addr) {
        let found = info.with_ip(ip).public_ips;
        assert(found.no_duplicates());
        assert forall|other: Ipv4Address| info.public_ips.contains(other) implies found.contains(
            other,
        ) by {
            let i = choose|i: int| 0 <= i < info.public_ips.len() && info.public_ips[i] == other;
            assert(found[i] == other);
        }
    }
}

/// Learning the same address of the same socket once more changes nothing.
pub proof fn lemma_learning_twice_is_once(
    info: NatInfoView,
    index: SocketIndex,
    addr: SocketAddress,
)
    ensures
        info.with_public_addr(index, addr).with_public_addr(index, addr) == info.with_public_addr(
            index,
            addr,
        ),
        info.with_tcp_public_addr(addr).with_tcp_public_addr(addr) == info.with_tcp_public_addr(
            addr,
        ),
{
    if let Some((ip, port)) = mapping(addr) {
        let known = info.public_ips;
        assert(known.push(ip)[known.len() as int] == ip);
        assert(is_global(ip) ==> info.with_ip(ip).public_ips.contains(ip));
        assert(info.with_public_addr(index, addr).with_public_addr(index, addr)
            =~= info.with_public_addr(index, addr));
        assert(info.with_tcp_public_addr(addr).with_tcp_public_addr(addr)
            =~= info.with_tcp_public_addr(addr));
    }
}

fn copy_of<T: Copy>(items: &Vec<T>) -> (copy: Vec<T>)
    ensures
        copy@ == items@,
{
    let mut copy: Vec<T> = Vec::new();
    for i in 0..items.len()
        invariant
            copy@ == items@.take(i as int),
    {
        copy.push(items[i]);
        assert(copy@ =~= items@.take(i + 1));
    }
    assert(items@.take(items@.len() as int) =~= items@);
    copy
}

impl NatInfo {
    /// What is known at the start: the local ports.
    pub fn initial(local_udp_ports: Vec<u16>, local_tcp_port: u16) -> (info: NatInfo)
        ensures
            info@ == NatInfoView::initial(local_udp_ports@, local_tcp_port),
    {
        let mut public_udp_ports: Vec<u16> = Vec::new();
        for i in 0..local_udp_ports.len()
            invariant
                public_udp_ports@ == Seq::new(i as nat, |i: int| 0u16),
        {
            public_udp_ports.push(0);
            assert(public_udp_ports@ =~= Seq::new((i + 1) as nat, |i: int| 0u16));
        }
        NatInfo {
            nat_type: NatType::Cone,
            public_ips: Vec::new(),
            public_udp_ports,
            mapping_tcp_addr: Vec::new(),
            mapping_udp_addr: Vec::new(),
            public_port_range: 0,
            local_ipv4: Ipv4Address { a: 0, b: 0, c: 0, d: 0 },
            ipv6: None,
            local_udp_ports,
            local_tcp_port,
            public_tcp_port: 0,
        }
    }

    /// A copy.
    pub fn copy(&self) -> (copy: NatInfo)
        ensures
            copy@ == self@,
    {
        NatInfo {
            nat_type: self.nat_type,
            public_ips: copy_of(&self.public_ips),
            public_udp_ports: copy_of(&self.public_udp_ports),
            mapping_tcp_addr: copy_of(&self.mapping_tcp_addr),
            mapping_udp_addr: copy_of(&self.mapping_udp_addr),
            public_port_range: self.public_port_range,
            local_ipv4: self.local_ipv4,
            ipv6: self.ipv6,
            local_udp_ports: copy_of(&self.local_udp_ports),
            local_tcp_port: self.local_tcp_port,
            public_tcp_port: self.public_tcp_port,
        }
    }

    fn knows_ip(&self, ip: Ipv4Address) -> (known: bool)
        ensures
            known == self.public_ips@.contains(ip),
    {
        for i in 0..self.public_ips.len()
            invariant
                forall|j: int| 0 <= j < i ==> self.public_ips@[j] != ip,
        {
            if self.public_ips[i] == ip {
                assert(self.public_ips@[i as int] == ip);
                return true;
            }
        }
        false
    }

    /// Takes up an address among the public ones, once at most and only if it is global.
    fn add_ip(&mut self, ip: Ipv4Address)
        ensures
            final(self)@ == old(self)@.with_ip(ip),
    {
        if is_ipv4_global(ip) && !self.knows_ip(ip) {
            self.public_ips.push(ip);
        }
    }

    /// Takes up what a test of the network has found. Only global addresses are taken.
    pub fn set_public_info(
        &mut self,
        nat_type: NatType,
        ips: Vec<Ipv4Address>,
        public_port_range: u16,
    )
        ensures
            final(self)@ == old(self)@.with_public_info(nat_type, ips@, public_port_range),
    {
        let mut kept: Vec<Ipv4Address> = Vec::new();
        let ghost global = |ip: Ipv4Address| is_global(ip);
        assert(ips@.take(0).filter(global) =~= Seq::<Ipv4Address>::empty()) by {
            reveal(Seq::filter);
        }
        for i in 0..ips.len()
            invariant
                global == (|ip: Ipv4Address| is_global(ip)),
                kept@ == ips@.take(i as int).filter(global),
        {
            proof {
                reveal(Seq::filter);
                assert(ips@.take(i + 1).drop_last() =~= ips@.take(i as int));
                assert(ips@.take(i + 1).last() == ips@[i as int]);
            }
            if is_ipv4_global(ips[i]) {
                kept.push(ips[i]);
            }
        }
        assert(ips@.take(ips@.len() as int) =~= ips@);
        self.public_ips = kept;
        self.nat_type = nat_type;
        self.public_port_range = public_port_range;
    }

    /// Takes up the public address of the TCP service.
    pub fn update_tcp_public_addr(&mut self, addr: SocketAddress)
        ensures
            final(self)@ == old(self)@.with_tcp_public_addr(addr),
    {
        let (ip, port) = match mapping_addr(addr) {
            Some(found) => found,
            None => return,
        };
        self.add_ip(ip);
        self.public_tcp_port = port;
    }

    fn set_udp_port(&mut self, index: usize, port: u16)
        ensures
            final(self)@ == old(self)@.with_udp_port(index, port),
    {
        if index < self.public_udp_ports.len() {
            self.public_udp_ports[index] = port;
        }
    }

    /// Takes up the public address of a socket. An address that is not global is not taken, and a
    /// port only for the TCP service and the main UDP sockets.
    pub fn update_public_addr(&mut self, index: SocketIndex, addr: SocketAddress)
        ensures
            final(self)@ == old(self)@.with_public_addr(index, addr),
    {
        let (ip, port) = match mapping_addr(addr) {
            Some(found) => found,
            None => return,
        };
        if is_ipv4_global(ip) {
            self.add_ip(ip);
            match index {
                SocketIndex::Udp(UdpIndex::MainV4(i)) => self.set_udp_port(i, port),
                SocketIndex::Udp(UdpIndex::MainV6(i)) => self.set_udp_port(i, port),
                SocketIndex::Udp(UdpIndex::SubV4(_)) => {},
                SocketIndex::Tcp(_) => {
                    self.public_tcp_port = port;
                },
                SocketIndex::Other => {},
            }
        }
    }

    /// Takes up the local addresses. An IPv4 address that was not found leaves the last one.
    pub fn update_local_addr(
        &mut self,
        local_ipv4: Option<Ipv4Address>,
        local_ipv6: Option<Ipv6Address>,
    )
        ensures
            final(self)@ == old(self)@.with_local_addr(local_ipv4, local_ipv6),
    {
        if let Some(ip) = local_ipv4 {
            self.local_ipv4 = ip;
        }
        self.ipv6 = local_ipv6;
    }
}

} // verus!
