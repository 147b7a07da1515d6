//! Laws of what a node learns of the network.
use crate::network::{
    is_global, mapping_addr, Ipv4Address, Ipv6Address, NatInfo, NatInfoView, NatType,
    SocketAddress, SocketIndex, UdpIndex,
};
use vstd::prelude::*;

verus! {

/// The address and the port of a socket address of version four are its own. One of version six has
/// them in its last four octets, exactly if these come behind ten zeros and two octets of ones.
pub proof fn lemma_mapped_address_is_its_last_octets(
    ip: Ipv4Address,
    ipv6: Ipv6Address,
    port: u16,
    plain: Option<(Ipv4Address, u16)>,
    mapped: Option<(Ipv4Address, u16)>,
)
    requires
        call_ensures(mapping_addr, (SocketAddress::V4(ip, port),), plain),
        call_ensures(mapping_addr, (SocketAddress::V6(ipv6, port),), mapped),
    ensures
        plain == Some((ip, port)),
        mapped is Some <==> ipv6.octets@.take(12) == seq![
            0u8,
            0u8,
            0u8,
            0u8,
            0u8,
            0u8,
            0u8,
            0u8,
            0u8,
            0u8,
            0xffu8,
            0xffu8,
        ],
        mapped matches Some((found, at)) ==> at == port && seq![found.a, found.b, found.c, found.d]
            == ipv6.octets@.skip(12),
{
    let octets = ipv6.octets@;
    let front = seq![0u8, 0u8, 0u8, 0u8, 0u8, 0u8, 0u8, 0u8, 0u8, 0u8, 0xffu8, 0xffu8];
    assert(octets.len() == 16);
    if mapped is Some {
        assert(octets.take(12) =~= front);
        let found = (mapped->0).0;
        assert(seq![found.a, found.b, found.c, found.d] =~= octets.skip(12));
    } else if octets.take(12) == front {
        assert forall|i: int| 0 <= i < 10 implies octets[i] == 0 by {
            assert(octets[i] == octets.take(12)[i]);
        }
        assert(octets[10] == octets.take(12)[10] && octets[11] == octets.take(12)[11]);
        assert(false);
    }
}

/// A node starts with its local ports, and with nothing learnt: no public port for each of its main
/// UDP sockets, and no public address.
pub proof fn lemma_start_knows_local_ports(ports: Vec<u16>, port: u16, info: NatInfo)
    requires
        call_ensures(NatInfo::initial, (ports, port), info),
    ensures
        info.local_udp_ports@ == ports@,
        info.local_tcp_port == port,
        info.public_udp_ports@.len() == ports@.len(),
        forall|i: int| 0 <= i < ports@.len() ==> #[trigger] info.public_udp_ports@[i] == 0,
        info.public_tcp_port == 0,
        info.public_port_range == 0,
        info.public_ips@.len() == 0,
        info.mapping_tcp_addr@.len() == 0,
        info.mapping_udp_addr@.len() == 0,
        info.local_ipv4 == (Ipv4Address { a: 0, b: 0, c: 0, d: 0 }),
        info.ipv6 is None,
        info.nat_type == NatType::Cone,
{
    assert(info@.public_udp_ports == info.public_udp_ports@);
    assert(info@.local_udp_ports == info.local_udp_ports@);
    assert(info@.public_ips == info.public_ips@);
    assert(info@.mapping_tcp_addr == info.mapping_tcp_addr@);
    assert(info@.mapping_udp_addr == info.mapping_udp_addr@);
}

/// A copy holds all that was copied.
pub proof fn lemma_copy_is_whole(info: &NatInfo, copy: NatInfo)
    requires
        call_ensures(NatInfo::copy, (info,), copy),
    ensures
        same_but_public(copy@, info@),
        copy.public_ips@ == info.public_ips@,
        copy.public_udp_ports@ == info.public_udp_ports@,
        copy.public_tcp_port == info.public_tcp_port,
        copy.nat_type == info.nat_type,
        copy.public_port_range == info.public_port_range,
        copy.local_ipv4 == info.local_ipv4,
        copy.ipv6 == info.ipv6,
{
    assert(copy@.public_ips == copy.public_ips@ && info@.public_ips == info.public_ips@);
    assert(copy@.public_udp_ports == copy.public_udp_ports@);
    assert(info@.public_udp_ports == info.public_udp_ports@);
    assert(copy@.nat_type == info@.nat_type);
}

/// What no test of the network and no response of a server touches is the same.
pub open spec fn same_but_public(one: NatInfoView, other: NatInfoView) -> bool {
    &&& one.local_udp_ports == other.local_udp_ports
    &&& one.local_tcp_port == other.local_tcp_port
    &&& one.mapping_tcp_addr == other.mapping_tcp_addr
    &&& one.mapping_udp_addr == other.mapping_udp_addr
}

/// After a test of the network, the type and the range that it found are what is known, whatever
/// was known before. An address is among the public ones exactly if the test found it and it is
/// global. Nothing else changes.
pub proof fn lemma_test_result_is_taken_up(
    info: &mut NatInfo,
    nat_type: NatType,
    ips: Vec<Ipv4Address>,
    range: u16,
)
    requires
        call_ensures(NatInfo::set_public_info, (info, nat_type, ips, range), ()),
    ensures
        final(info).nat_type == nat_type,
        final(info).public_port_range == range,
        forall|ip: Ipv4Address| #[trigger]
            final(info).public_ips@.contains(ip) <==> ips@.contains(ip) && is_global(ip),
        same_but_public(final(info)@, old(info)@),
        final(info).public_udp_ports@ == old(info).public_udp_ports@,
        final(info).public_tcp_port == old(info).public_tcp_port,
        final(info).local_ipv4 == old(info).local_ipv4,
        final(info).ipv6 == old(info).ipv6,
{
    let after = final(info)@;
    assert(after.nat_type == final(info).nat_type);
    assert(after.public_ips == final(info).public_ips@);
    assert(after.public_udp_ports == final(info).public_udp_ports@);
    assert(old(info)@.public_udp_ports == old(info).public_udp_ports@);
    lemma_filter_keeps_global(ips@, after.public_ips);
}

/// Those of some addresses that are global are the ones that are among them and are global.
pub proof fn lemma_filter_keeps_global(ips: Seq<Ipv4Address>, kept: Seq<Ipv4Address>)
    requires
        kept == ips.filter(|ip: Ipv4Address| is_global(ip)),
    ensures
        forall|ip: Ipv4Address| #[trigger]
            kept.contains(ip) <==> ips.contains(ip) && is_global(ip),
    decreases ips.len(),
{
    let global = |ip: Ipv4Address| is_global(ip);
    reveal(Seq::filter);
    if ips.len() > 0 {
        let last = ips.last();
        let shorter = ips.drop_last();
        let fewer = shorter.filter(global);
        lemma_filter_keeps_global(shorter, fewer);
        assert(ips =~= shorter.push(last));
        assert(kept == if is_global(last) { fewer.push(last) } else { fewer });
        broadcast use vstd::seq_lib::group_seq_properties;

    }
}

/// The public addresses that a test of the network found are kept in its order: one more address
/// found comes behind the others if it is global, and changes nothing if it is not. None found
/// leaves none.
pub proof fn lemma_test_addresses_keep_their_order(
    one: &mut NatInfo,
    other: &mut NatInfo,
    nat_type: NatType,
    ips: Vec<Ipv4Address>,
    more: Vec<Ipv4Address>,
    range: u16,
    ip: Ipv4Address,
)
    requires
        more@ == ips@.push(ip),
        call_ensures(NatInfo::set_public_info, (one, nat_type, ips, range), ()),
        call_ensures(NatInfo::set_public_info, (other, nat_type, more, range), ()),
    ensures
        ips@.len() == 0 ==> final(one).public_ips@.len() == 0,
        is_global(ip) ==> final(other).public_ips@ == final(one).public_ips@.push(ip),
        !is_global(ip) ==> final(other).public_ips@ == final(one).public_ips@,
{
    reveal(Seq::filter);
    assert(final(one)@.public_ips == final(one).public_ips@);
    assert(final(other)@.public_ips == final(other).public_ips@);
    assert(more@.drop_last() =~= ips@);
    assert(more@.last() == ip);
}

/// The addresses that are known after one more was told are those before it, in their order, and
/// behind them the new one if it is global and was not known.
pub open spec fn knows_also(
    before: Seq<Ipv4Address>,
    after: Seq<Ipv4Address>,
    ip: Ipv4Address,
) -> bool {
    &&& before.is_prefix_of(after)
    &&& after.len() <= before.len() + 1
    &&& is_global(ip) ==> after.contains(ip)
    &&& after.len() > before.len() ==> after.last() == ip && is_global(ip) && !before.contains(ip)
}

proof fn lemma_with_ip_knows_also(info: NatInfoView, ip: Ipv4Address)
    ensures
        knows_also(info.public_ips, info.with_ip(ip).public_ips, ip),
        knows_also(info.public_ips, info.public_ips, ip) <==> !is_global(ip)
            || info.public_ips.contains(ip),
{
    let known = info.public_ips;
    assert(known.push(ip)[known.len() as int] == ip);
    assert(known.is_prefix_of(known.push(ip)));
    assert(known.is_prefix_of(known));
}

/// After the public address of the TCP service was told, its port is what is known, whatever was
/// known before, and its address is known if it is global. Nothing else changes, and nothing at all
/// for an address that is none of version four.
pub proof fn lemma_tcp_address_is_taken_up(
    info: &mut NatInfo,
    addr: SocketAddress,
    found: Option<(Ipv4Address, u16)>,
)
    requires
        call_ensures(mapping_addr, (addr,), found),
        call_ensures(NatInfo::update_tcp_public_addr, (info, addr), ()),
    ensures
        same_but_public(final(info)@, old(info)@),
        final(info).nat_type == old(info).nat_type,
        final(info).public_port_range == old(info).public_port_range,
        final(info).public_udp_ports@ == old(info).public_udp_ports@,
        final(info).local_ipv4 == old(info).local_ipv4,
        final(info).ipv6 == old(info).ipv6,
        match found {
            Some((ip, port)) => final(info).public_tcp_port == port && knows_also(
                old(info).public_ips@,
                final(info).public_ips@,
                ip,
            ),
            None => final(info).public_tcp_port == old(info).public_tcp_port
                && final(info).public_ips@ == old(info).public_ips@,
        },
{
    assert(final(info)@.public_ips == final(info).public_ips@);
    assert(old(info)@.public_ips == old(info).public_ips@);
    assert(final(info)@.public_udp_ports == final(info).public_udp_ports@);
    assert(old(info)@.public_udp_ports == old(info).public_udp_ports@);
    assert(final(info)@.nat_type == old(info)@.nat_type);
    if let Some((ip, port)) = found {
        lemma_with_ip_knows_also(old(info)@, ip);
    }
}

/// After the public address of a socket was told, its port is what is known of that socket,
/// whatever was known before: for a main UDP socket of the node, and for the TCP service. Every
/// other port stays, and nothing else changes but that the address is known. An address that is not
/// global or none of version four changes nothing at all.
pub proof fn lemma_socket_address_is_taken_up(
    info: &mut NatInfo,
    index: SocketIndex,
    addr: SocketAddress,
    found: Option<(Ipv4Address, u16)>,
)
    requires
        call_ensures(mapping_addr, (addr,), found),
        call_ensures(NatInfo::update_public_addr, (info, index, addr), ()),
    ensures
        same_but_public(final(info)@, old(info)@),
        final(info).nat_type == old(info).nat_type,
        final(info).public_port_range == old(info).public_port_range,
        final(info).local_ipv4 == old(info).local_ipv4,
        final(info).ipv6 == old(info).ipv6,
        final(info).public_udp_ports@.len() == old(info).public_udp_ports@.len(),
        match found {
            Some((ip, port)) if is_global(ip) => {
                let main = match index {
                    SocketIndex::Udp(UdpIndex::MainV4(i)) => i as int,
                    SocketIndex::Udp(UdpIndex::MainV6(i)) => i as int,
                    _ => -1,
                };
                &&& knows_also(old(info).public_ips@, final(info).public_ips@, ip)
                &&& 0 <= main < old(info).public_udp_ports@.len()
                    ==> final(info).public_udp_ports@[main] == port
                &&& forall|i: int|
                    0 <= i < old(info).public_udp_ports@.len() && i != main
                        ==> #[trigger] final(info).public_udp_ports@[i] == old(
                        info,
                    ).public_udp_ports@[i]
                &&& index is Tcp ==> final(info).public_tcp_port == port
                &&& !(index is Tcp) ==> final(info).public_tcp_port == old(info).public_tcp_port
            },
            _ => {
                &&& final(info).public_ips@ == old(info).public_ips@
                &&& final(info).public_udp_ports@ == old(info).public_udp_ports@
                &&& final(info).public_tcp_port == old(info).public_tcp_port
            },
        },
{
    assert(final(info)@.public_ips == final(info).public_ips@);
    assert(old(info)@.public_ips == old(info).public_ips@);
    assert(final(info)@.public_udp_ports == final(info).public_udp_ports@);
    assert(old(info)@.public_udp_ports == old(info).public_udp_ports@);
    assert(final(info)@.nat_type == old(info)@.nat_type);
    if let Some((ip, port)) = found {
        lemma_with_ip_knows_also(old(info)@, ip);
    }
}

/// Of two addresses that are told of the same socket, the second leaves the ports that it would have
/// left alone.
pub proof fn lemma_last_address_counts(
    first: &mut NatInfo,
    second: &mut NatInfo,
    alone: &mut NatInfo,
    index: SocketIndex,
    before: SocketAddress,
    addr: SocketAddress,
    ip: Ipv4Address,
    port: u16,
)
    requires
        call_ensures(mapping_addr, (addr,), Some((ip, port))),
        is_global(ip),
        old(alone)@ == old(first)@,
        old(second)@ == final(first)@,
        call_ensures(NatInfo::update_public_addr, (first, index, before), ()),
        call_ensures(NatInfo::update_public_addr, (second, index, addr), ()),
        call_ensures(NatInfo::update_public_addr, (alone, index, addr), ()),
    ensures
        final(second).public_udp_ports@ == final(alone).public_udp_ports@,
        final(second).public_tcp_port == final(alone).public_tcp_port,
{
    assert(final(second)@.public_udp_ports == final(second).public_udp_ports@);
    assert(final(alone)@.public_udp_ports == final(alone).public_udp_ports@);
    assert(final(second).public_udp_ports@ =~= final(alone).public_udp_ports@);
    assert(final(second)@.public_tcp_port == final(alone)@.public_tcp_port);
}

/// A local address of version four that was found is what is known then, and one that was not found
/// leaves the last one. Of version six what was found is known, or nothing. Nothing else changes.
pub proof fn lemma_local_addresses_are_taken_up(
    info: &mut NatInfo,
    ipv4: Option<Ipv4Address>,
    ipv6: Option<Ipv6Address>,
)
    requires
        call_ensures(NatInfo::update_local_addr, (info, ipv4, ipv6), ()),
    ensures
        ipv4 is Some ==> final(info).local_ipv4 == ipv4->0,
        ipv4 is None ==> final(info).local_ipv4 == old(info).local_ipv4,
        final(info).ipv6 == ipv6,
        same_but_public(final(info)@, old(info)@),
        final(info).nat_type == old(info).nat_type,
        final(info).public_port_range == old(info).public_port_range,
        final(info).public_ips@ == old(info).public_ips@,
        final(info).public_udp_ports@ == old(info).public_udp_ports@,
        final(info).public_tcp_port == old(info).public_tcp_port,
{
    assert(final(info)@.public_ips == final(info).public_ips@);
    assert(old(info)@.public_ips == old(info).public_ips@);
    assert(final(info)@.public_udp_ports == final(info).public_udp_ports@);
    assert(old(info)@.public_udp_ports == old(info).public_udp_ports@);
    assert(final(info)@.nat_type == old(info)@.nat_type);
}

/// The addresses that count as global are all but those of a few ranges, each told by its first
/// octets. Two single addresses within these ranges count as well.
pub proof fn lemma_global_addresses(ip: Ipv4Address)
    ensures
        ip.a == 0 || ip.a == 10 || ip.a == 127 || ip.a >= 240 ==> !is_global(ip),
        ip.a == 172 ==> (is_global(ip) <==> ip.b / 16 != 1),
        ip.a == 100 ==> (is_global(ip) <==> ip.b / 64 != 1),
        ip.a == 169 ==> (is_global(ip) <==> ip.b != 254),
        ip.a == 192 && ip.b == 168 ==> !is_global(ip),
        ip.a == 192 && ip.b == 0 && ip.c == 2 ==> !is_global(ip),
        ip.a == 192 && ip.b == 0 && ip.c == 0 ==> (is_global(ip) <==> ip.d == 9 || ip.d == 10),
        ip.a == 198 ==> (is_global(ip) <==> ip.b / 2 != 9 && !(ip.b == 51 && ip.c == 100)),
        ip.a == 203 ==> (is_global(ip) <==> !(ip.b == 0 && ip.c == 113)),
        ip.a == 192 && ip.b != 0 && ip.b != 168 ==> is_global(ip),
        ip.a == 192 && ip.b == 0 && ip.c != 0 && ip.c != 2 ==> is_global(ip),
        0 < ip.a < 240 && ip.a != 10 && ip.a != 100 && ip.a != 127 && ip.a != 169 && ip.a != 172
            && ip.a != 192 && ip.a != 198 && ip.a != 203 ==> is_global(ip),
{
}

} // verus!
