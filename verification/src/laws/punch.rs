//! Laws of a node's own state, and of hole punching attempts.
use crate::clock::{elapsed, millis_of};
use crate::error::PunchError;
use crate::kcp_stream::{KcpContext, KcpStream};
use crate::laws::kcp_stream::follows;
use crate::laws::network::{lemma_filter_keeps_global, same_but_public};
use crate::laws::protocol::{has_id_and_time, lemma_filled_has_id_and_time};
use crate::network::{
    is_global, mapping_addr, Ipv4Address, Ipv6Address, NatInfo, NatType, SocketAddress,
    SocketIndex, UdpIndex,
};
use crate::protocol::ProtocolType;
use crate::punch::{
    check_oneself_id, gave_need, is_ping_at, new_tunnel_component, servers_to_ask, PunchContext,
    PunchStep, Puncher,
};
use crate::tunnel::{gave_directness, gave_first_route, TunnelRouter};
use rust_p2p_core::punch::{PunchInfo, Puncher as CorePuncher};
use rust_p2p_core::route::route_table::Route;
use std::time::SystemTime;
use vstd::prelude::*;
use vstd::utf8::encode_utf8;

verus! {

/// Of servers in some order the first ones are asked: all of them if they are at most three, and
/// three otherwise.
pub proof fn lemma_first_servers_are_asked(shuffled: Vec<String>, servers: Vec<String>)
    requires
        call_ensures(servers_to_ask, (shuffled,), servers),
    ensures
        servers@.is_prefix_of(shuffled@),
        shuffled@.len() <= 3 ==> servers@.len() == shuffled@.len(),
        shuffled@.len() > 3 ==> servers@.len() == 3,
{
    assert(servers@.is_prefix_of(shuffled@));
}

/// The servers that a node asks are some that it knows, none more often than it knows it: all of
/// them if they are at most three, and three otherwise.
pub proof fn lemma_known_servers_are_asked(context: &PunchContext, servers: Vec<String>)
    requires
        call_ensures(PunchContext::stun_servers, (context,), servers),
    ensures
        servers@.to_multiset().subset_of(context.udp_stun_servers@.to_multiset()),
        context.udp_stun_servers@.len() <= 3 ==> servers@.len() == context.udp_stun_servers@.len(),
        context.udp_stun_servers@.len() > 3 ==> servers@.len() == 3,
{
    let known = context.udp_stun_servers@;
    let shuffled = choose|shuffled: Seq<String>| #[trigger]
        shuffled.to_multiset() == known.to_multiset() && servers@ == (if shuffled.len() > 3 {
            shuffled.take(3)
        } else {
            shuffled
        });
    if shuffled.len() > 3 {
        let front = shuffled.take(3);
        let back = shuffled.skip(3);
        assert(front + back =~= shuffled);
        vstd::seq_lib::lemma_multiset_commutative(front, back);
        assert(front.to_multiset().subset_of(shuffled.to_multiset()));
    } else {
        assert(servers@.to_multiset().subset_of(shuffled.to_multiset()));
    }
}

/// An id is refused exactly if it is longer than 255 bytes.
pub proof fn lemma_long_ids_are_refused(id: &str, checked: Result<(), PunchError>)
    requires
        call_ensures(check_oneself_id, (id,), checked),
    ensures
        checked is Ok <==> encode_utf8(id@).len() <= 255,
        checked matches Err(error) ==> error == PunchError::OneselfIdTooLong,
{
}

/// A node is made exactly for an id of at most 255 bytes. It has that id, three servers for TCP and
/// six for UDP, the ports of the sockets that it has, and nothing learnt yet.
pub proof fn lemma_node_is_made(
    id: String,
    tcp_port: Option<u16>,
    udp_ports: Option<Vec<u16>>,
    context: Result<PunchContext, PunchError>,
)
    requires
        call_ensures(new_tunnel_component, (id, tcp_port, udp_ports), context),
    ensures
        context is Ok <==> encode_utf8(id@).len() <= 255,
        context matches Err(error) ==> error == PunchError::OneselfIdTooLong,
        context matches Ok(context) ==> {
            &&& context.oneself_id@ == id@
            &&& context.tcp_stun_servers@.len() == 3
            &&& context.udp_stun_servers@.len() == 6
            &&& context.nat_info.local_tcp_port == (match tcp_port {
                Some(port) => port,
                None => 0,
            })
            &&& context.nat_info.local_udp_ports@ == (match udp_ports {
                Some(ports) => ports@,
                None => Seq::empty(),
            })
            &&& context.nat_info.public_udp_ports@.len()
                == context.nat_info.local_udp_ports@.len()
            &&& context.nat_info.public_ips@.len() == 0
            &&& context.nat_info.public_tcp_port == 0
            &&& context.nat_info.nat_type == NatType::Cone
        },
{
    if let Ok(context) = context {
        assert(crate::punch::texts(context.tcp_stun_servers@).len() == 3);
        assert(crate::punch::texts(context.udp_stun_servers@).len() == 6);
        assert(context.info().local_udp_ports == context.nat_info.local_udp_ports@);
        assert(context.info().public_udp_ports == context.nat_info.public_udp_ports@);
        assert(context.info().public_ips == context.nat_info.public_ips@);
        assert(context.info().nat_type == context.nat_info.nat_type);
    }
}

/// A context has the id, the servers and the ports that it is made with.
pub proof fn lemma_context_is_made_of_its_parts(
    id: String,
    tcp_servers: Vec<String>,
    udp_servers: Vec<String>,
    ports: Vec<u16>,
    port: u16,
    context: PunchContext,
)
    requires
        call_ensures(PunchContext::new, (id, tcp_servers, udp_servers, ports, port), context),
    ensures
        context.oneself_id@ == id@,
        context.tcp_stun_servers@ == tcp_servers@,
        context.udp_stun_servers@ == udp_servers@,
        context.nat_info.local_udp_ports@ == ports@,
        context.nat_info.local_tcp_port == port,
        context.nat_info.public_udp_ports@.len() == ports@.len(),
        context.nat_info.public_ips@.len() == 0,
        context.nat_info.public_tcp_port == 0,
{
    assert(context.info().local_udp_ports == context.nat_info.local_udp_ports@);
    assert(context.info().public_udp_ports == context.nat_info.public_udp_ports@);
    assert(context.info().public_ips == context.nat_info.public_ips@);
}

/// What a test of the network found is what is told of it then: its type, its range, and its global
/// addresses, whatever was known before. A test that failed tells nothing and changes nothing.
pub proof fn lemma_outcome_of_a_test_is_told(
    context: &mut PunchContext,
    found: Option<(NatType, Vec<Ipv4Address>, u16)>,
    told: Option<NatInfo>,
)
    requires
        call_ensures(PunchContext::update_nat_info, (context, found), told),
    ensures
        final(context).oneself_id@ == old(context).oneself_id@,
        final(context).udp_stun_servers@ == old(context).udp_stun_servers@,
        final(context).tcp_stun_servers@ == old(context).tcp_stun_servers@,
        match found {
            Some((nat_type, ips, range)) => {
                &&& told matches Some(told)
                &&& told.nat_type == nat_type
                &&& told.public_port_range == range
                &&& forall|ip: Ipv4Address| #[trigger]
                    told.public_ips@.contains(ip) <==> ips@.contains(ip) && is_global(ip)
                &&& told.public_udp_ports@ == old(context).nat_info.public_udp_ports@
                &&& told.public_tcp_port == old(context).nat_info.public_tcp_port
                &&& same_but_public(told@, old(context).nat_info@)
                &&& final(context).nat_info@ == told@
            },
            None => told is None && final(context).nat_info@ == old(context).nat_info@,
        },
{
    if let Some((nat_type, ips, range)) = found {
        let told = told->0;
        assert(told@.nat_type == told.nat_type && told@.public_ips == told.public_ips@);
        assert(told@.public_udp_ports == told.public_udp_ports@);
        assert(old(context).nat_info@.public_udp_ports == old(
            context,
        ).nat_info.public_udp_ports@);
        lemma_filter_keeps_global(ips@, told.public_ips@);
    }
}

/// What a node takes up of a test is what it then knows and tells.
pub proof fn lemma_context_takes_up_a_test(
    context: &mut PunchContext,
    nat_type: NatType,
    ips: Vec<Ipv4Address>,
    range: u16,
    told: NatInfo,
)
    requires
        call_ensures(PunchContext::set_public_info, (context, nat_type, ips, range), ()),
        call_ensures(PunchContext::nat_info, (&*final(context),), told),
    ensures
        told.nat_type == nat_type,
        told.public_port_range == range,
        forall|ip: Ipv4Address| #[trigger]
            told.public_ips@.contains(ip) <==> ips@.contains(ip) && is_global(ip),
        told.public_udp_ports@ == old(context).nat_info.public_udp_ports@,
        told.public_tcp_port == old(context).nat_info.public_tcp_port,
        same_but_public(told@, old(context).nat_info@),
        final(context).oneself_id@ == old(context).oneself_id@,
{
    assert(told@.nat_type == told.nat_type && told@.public_ips == told.public_ips@);
    assert(told@.public_udp_ports == told.public_udp_ports@);
    assert(old(context).nat_info@.public_udp_ports == old(context).nat_info.public_udp_ports@);
    lemma_filter_keeps_global(ips@, told.public_ips@);
}

/// What a server told of a socket is what the node then knows and tells of it, whatever it knew
/// before: the port of a main UDP socket of the node, or of the TCP service, and the address. Only
/// a global address counts.
pub proof fn lemma_context_takes_up_a_socket_address(
    context: &mut PunchContext,
    index: SocketIndex,
    addr: SocketAddress,
    ip: Ipv4Address,
    port: u16,
    told: NatInfo,
)
    requires
        call_ensures(mapping_addr, (addr,), Some((ip, port))),
        call_ensures(PunchContext::update_public_addr, (context, index, addr), ()),
        call_ensures(PunchContext::nat_info, (&*final(context),), told),
    ensures
        final(context).oneself_id@ == old(context).oneself_id@,
        told.nat_type == old(context).nat_info.nat_type,
        same_but_public(told@, old(context).nat_info@),
        !is_global(ip) ==> told@ == old(context).nat_info@,
        is_global(ip) ==> told.public_ips@.contains(ip),
        is_global(ip) && index is Tcp ==> told.public_tcp_port == port,
        !(index is Tcp) ==> told.public_tcp_port == old(context).nat_info.public_tcp_port,
        forall|i: usize|
            is_global(ip) && i < old(context).nat_info.public_udp_ports@.len() && (index
                == SocketIndex::Udp(UdpIndex::MainV4(i)) || index == SocketIndex::Udp(
                UdpIndex::MainV6(i),
            )) ==> #[trigger] told.public_udp_ports@[i as int] == port,
        forall|i: usize|
            i < old(context).nat_info.public_udp_ports@.len() && index != SocketIndex::Udp(
                UdpIndex::MainV4(i),
            ) && index != SocketIndex::Udp(UdpIndex::MainV6(i))
                ==> #[trigger] told.public_udp_ports@[i as int] == old(
                context,
            ).nat_info.public_udp_ports@[i as int],
{
    let known = old(context).nat_info@.public_ips;
    assert(told@.nat_type == told.nat_type && told@.public_ips == told.public_ips@);
    assert(told@.public_udp_ports == told.public_udp_ports@);
    assert(old(context).nat_info@.public_udp_ports == old(context).nat_info.public_udp_ports@);
    assert(known.push(ip)[known.len() as int] == ip);
}

/// What was told of the TCP service is what the node then knows and tells, whatever it knew before.
pub proof fn lemma_context_takes_up_a_tcp_address(
    context: &mut PunchContext,
    addr: SocketAddress,
    ip: Ipv4Address,
    port: u16,
    told: NatInfo,
)
    requires
        call_ensures(mapping_addr, (addr,), Some((ip, port))),
        call_ensures(PunchContext::update_tcp_public_addr, (context, addr), ()),
        call_ensures(PunchContext::nat_info, (&*final(context),), told),
    ensures
        final(context).oneself_id@ == old(context).oneself_id@,
        told.public_tcp_port == port,
        is_global(ip) ==> told.public_ips@.contains(ip),
        !is_global(ip) ==> told.public_ips@ == old(context).nat_info.public_ips@,
        told.public_udp_ports@ == old(context).nat_info.public_udp_ports@,
        told.nat_type == old(context).nat_info.nat_type,
        same_but_public(told@, old(context).nat_info@),
{
    let known = old(context).nat_info@.public_ips;
    assert(told@.nat_type == told.nat_type && told@.public_ips == told.public_ips@);
    assert(told@.public_udp_ports == told.public_udp_ports@);
    assert(old(context).nat_info@.public_udp_ports == old(context).nat_info.public_udp_ports@);
    assert(known.push(ip)[known.len() as int] == ip);
}

/// The local addresses that were found are what the node then knows and tells.
pub proof fn lemma_context_takes_up_local_addresses(
    context: &mut PunchContext,
    ipv4: Option<Ipv4Address>,
    ipv6: Option<Ipv6Address>,
    told: NatInfo,
)
    requires
        call_ensures(PunchContext::update_local_addr, (context, ipv4, ipv6), ()),
        call_ensures(PunchContext::nat_info, (&*final(context),), told),
    ensures
        ipv4 is Some ==> told.local_ipv4 == ipv4->0,
        ipv4 is None ==> told.local_ipv4 == old(context).nat_info.local_ipv4,
        told.ipv6 == ipv6,
        told.public_ips@ == old(context).nat_info.public_ips@,
        told.public_udp_ports@ == old(context).nat_info.public_udp_ports@,
        told.public_tcp_port == old(context).nat_info.public_tcp_port,
        told.nat_type == old(context).nat_info.nat_type,
        same_but_public(told@, old(context).nat_info@),
        final(context).oneself_id@ == old(context).oneself_id@,
{
    assert(told@.nat_type == told.nat_type && told@.public_ips == told.public_ips@);
    assert(told@.public_udp_ports == told.public_udp_ports@);
    assert(old(context).nat_info@.public_udp_ports == old(context).nat_info.public_udp_ports@);
    assert(told@.local_ipv4 == told.local_ipv4);
}

/// An attempt is made only while no other is under way, and never to reach the node itself.
pub proof fn lemma_attempt_is_allowed(
    puncher: &Puncher,
    locked: bool,
    peer_id: &String,
    step: PunchStep,
)
    requires
        call_ensures(Puncher::punch_allowed, (puncher, locked, peer_id), step),
    ensures
        step == PunchStep::Finish(Ok(())) <==> !locked,
        step == PunchStep::Finish(Err(PunchError::ConnectToOneself)) <==> locked && peer_id@
            == puncher.id(),
        step == PunchStep::AskPuncher <==> locked && peer_id@ != puncher.id(),
{
}

/// An attempt goes on exactly if this is the time for it.
pub proof fn lemma_attempt_is_needed(puncher: &Puncher, needed: bool, step: PunchStep)
    requires
        call_ensures(Puncher::punch_needed, (puncher, needed), step),
    ensures
        step == PunchStep::AskRoutes <==> needed,
        step == PunchStep::Finish(Ok(())) <==> !needed,
{
}

/// A packet is sent in an attempt only if it is a ping with the id of the node and the low 32 bits
/// of the milliseconds from the epoch to what a clock showed.
pub open spec fn sends_ping(id: Seq<char>, step: PunchStep) -> bool {
    match step {
        PunchStep::Send(packet) => {
            &&& packet@[0] == 129
            &&& packet@[1] * 256 + packet@[2] == packet@.len()
            &&& packet@[3] == 0
            &&& exists|clock: SystemTime, time: u32| #[trigger]
                has_id_and_time(packet@, id, time) && (#[trigger] elapsed(clock)) is Some && (
                millis_of(elapsed(clock)->0) - time) % 0x1_0000_0000 == 0
        },
        PunchStep::Finish(Err(error)) => {
            ||| error == PunchError::IdTooLong && encode_utf8(id).len() > 255
            ||| error == PunchError::ClockBehind && exists|clock: SystemTime|
                (#[trigger] elapsed(clock)) is None
        },
        _ => false,
    }
}

proof fn lemma_ping_at_is_sent(clock: SystemTime, id: Seq<char>, step: PunchStep)
    requires
        is_ping_at(clock, id, step),
    ensures
        sends_ping(id, step),
{
    assert(elapsed(clock) is Some || elapsed(clock) is None);
    if let PunchStep::Send(packet) = step {
        let time = (millis_of(elapsed(clock)->0) % 0x1_0000_0000) as u32;
        lemma_filled_has_id_and_time(ProtocolType::Ping, id, time);
        assert(has_id_and_time(packet@, id, time));
    }
}

/// A peer that is connected directly gets no ping. Any other gets one, unless none can be made.
pub proof fn lemma_unconnected_peer_gets_a_ping(puncher: &Puncher, direct: bool, step: PunchStep)
    requires
        call_ensures(Puncher::punch_unrouted, (puncher, direct), step),
    ensures
        direct ==> step == PunchStep::Finish(Ok(())),
        !direct ==> sends_ping(puncher.id(), step),
{
    if !direct {
        let clock = choose|clock: SystemTime| is_ping_at(clock, puncher.id(), step);
        lemma_ping_at_is_sent(clock, puncher.id(), step);
    }
}

/// An attempt sends a ping if no other is under way, the peer is another node, the puncher says that
/// it is the time for it, and the routes say that the peer is not connected directly. If one of these
/// is not so, it ends without one: with an error only for the node itself.
pub proof fn lemma_attempt_sends_a_ping(
    puncher: &Puncher,
    locked: bool,
    peer_id: &String,
    punch_info: &PunchInfo,
    step: PunchStep,
)
    requires
        call_ensures(Puncher::punch, (puncher, locked, peer_id, punch_info), step),
    ensures
        !locked ==> step == PunchStep::Finish(Ok(())),
        locked && peer_id@ == puncher.id() ==> step == PunchStep::Finish(
            Err(PunchError::ConnectToOneself),
        ),
        locked && peer_id@ != puncher.id() ==> {
            ||| gave_need(puncher.spec_sender(), *punch_info, false) && step
                == PunchStep::Finish(Ok(()))
            ||| gave_need(puncher.spec_sender(), *punch_info, true) && gave_directness(
                puncher.spec_router().routes(),
                peer_id@,
                true,
            ) && step == PunchStep::Finish(Ok(()))
            ||| gave_need(puncher.spec_sender(), *punch_info, true) && gave_directness(
                puncher.spec_router().routes(),
                peer_id@,
                false,
            ) && sends_ping(puncher.id(), step)
        },
{
    if locked && peer_id@ != puncher.id() {
        let table = puncher.spec_router().routes();
        if gave_directness(table, peer_id@, false) && exists|clock: SystemTime|
            is_ping_at(clock, puncher.id(), step) {
            let clock = choose|clock: SystemTime| is_ping_at(clock, puncher.id(), step);
            lemma_ping_at_is_sent(clock, puncher.id(), step);
        }
    }
}

/// A peer counts as reachable exactly if the answer of the routes is a route.
pub proof fn lemma_reachable_peer_has_a_route(puncher: &Puncher, peer_id: &String, reachable: bool)
    requires
        call_ensures(Puncher::is_reachable, (puncher, peer_id), reachable),
    ensures
        exists|route: Option<Route>| #[trigger]
            gave_first_route(puncher.spec_router().routes(), peer_id@, route) && (reachable
                <==> route is Some),
{
}

/// No stream is opened to the node itself. To any other peer a stream is opened with the next
/// conversation, which then finds the sender, unless one with that conversation is open.
pub proof fn lemma_connect_opens_a_stream<V>(
    puncher: &Puncher,
    context: &mut KcpContext<V>,
    peer_id: String,
    sender: V,
    stream: Result<KcpStream, PunchError>,
)
    requires
        old(context).wf(),
        call_ensures(Puncher::connect::<V>, (puncher, context, peer_id, sender), stream),
    ensures
        peer_id@ == puncher.id() ==> stream == Err::<KcpStream, PunchError>(
            PunchError::ConnectToOneself,
        ) && *final(context) == *old(context),
        peer_id@ != puncher.id() ==> {
            let key = (peer_id@, old(context).next_conv());
            &&& follows(old(context).next_conv(), final(context).next_conv())
            &&& stream is Ok <==> !old(context).streams().dom().contains(key)
            &&& stream matches Ok(stream) ==> stream.key() == key && final(context).streams()
                == old(context).streams().insert(key, sender)
            &&& stream matches Err(error) ==> error == PunchError::StreamExists
                && final(context).streams() == old(context).streams()
        },
{
}

/// A puncher tells of the network what its node knows.
pub proof fn lemma_puncher_tells_what_is_known(
    puncher: &Puncher,
    context: &PunchContext,
    told: NatInfo,
)
    requires
        call_ensures(Puncher::nat_info, (puncher, context), told),
    ensures
        told@ == context.nat_info@,
{
}

/// A puncher has the parts that it was made of, and its node is the one that it was made for: it
/// opens no stream to that one.
pub proof fn lemma_puncher_is_made_of_its_parts<V>(
    oneself_id: String,
    sender: CorePuncher,
    router: TunnelRouter,
    puncher: Puncher,
    own_sender: &CorePuncher,
    own_router: &TunnelRouter,
    context: &mut KcpContext<V>,
    peer_id: String,
    value: V,
    stream: Result<KcpStream, PunchError>,
)
    requires
        call_ensures(Puncher::new, (oneself_id, sender, router), puncher),
        call_ensures(Puncher::sender, (&puncher,), own_sender),
        call_ensures(Puncher::router, (&puncher,), own_router),
        call_ensures(Puncher::connect::<V>, (&puncher, context, peer_id, value), stream),
    ensures
        *own_sender == sender,
        *own_router == router,
        stream == Err::<KcpStream, PunchError>(PunchError::ConnectToOneself) <==> peer_id@
            == oneself_id@,
{
}

/// A node starts with what is known of the network at first, with the ports of the sockets that it
/// has.
pub proof fn lemma_node_starts_with_its_ports(
    id: String,
    tcp_port: Option<u16>,
    udp_ports: Option<Vec<u16>>,
    context: Result<PunchContext, PunchError>,
    ports: Vec<u16>,
    port: u16,
    info: NatInfo,
    tcp_servers: Vec<String>,
    udp_servers: Vec<String>,
    made: PunchContext,
)
    requires
        udp_ports is Some ==> ports@ == udp_ports->0@,
        udp_ports is None ==> ports@.len() == 0,
        tcp_port is Some ==> port == tcp_port->0,
        tcp_port is None ==> port == 0,
        call_ensures(new_tunnel_component, (id, tcp_port, udp_ports), context),
        call_ensures(NatInfo::initial, (ports, port), info),
        call_ensures(PunchContext::new, (id, tcp_servers, udp_servers, ports, port), made),
    ensures
        context is Ok ==> context->Ok_0.nat_info@ == info@,
        made.nat_info@ == info@,
{
    if udp_ports is None {
        assert(ports@ =~= Seq::<u16>::empty());
    }
}

/// What a node knows is taken up as its knowledge alone would take it up, and its id and its servers
/// stay: the result of a test.
pub proof fn lemma_node_learns_from_a_test(
    context: &mut PunchContext,
    context_told: &mut PunchContext,
    info: &mut NatInfo,
    nat_type: NatType,
    ips: Vec<Ipv4Address>,
    range: u16,
    told: Option<NatInfo>,
)
    requires
        old(info)@ == old(context).nat_info@,
        *old(context_told) == *old(context),
        call_ensures(PunchContext::set_public_info, (context, nat_type, ips, range), ()),
        call_ensures(
            PunchContext::update_nat_info,
            (context_told, Some((nat_type, ips, range))),
            told,
        ),
        call_ensures(NatInfo::set_public_info, (info, nat_type, ips, range), ()),
    ensures
        final(context).nat_info@ == final(info)@,
        final(context_told).nat_info@ == final(info)@,
        told is Some && told->0@ == final(info)@,
        keeps_node(*old(context), *final(context)),
        keeps_node(*old(context), *final(context_told)),
{
}

/// The id and the servers of a node are the same.
pub open spec fn keeps_node(before: PunchContext, after: PunchContext) -> bool {
    &&& after.oneself_id@ == before.oneself_id@
    &&& after.tcp_stun_servers@ == before.tcp_stun_servers@
    &&& after.udp_stun_servers@ == before.udp_stun_servers@
}

/// What a node knows is taken up as its knowledge alone would take it up, and its id and its servers
/// stay: the address of a socket.
pub proof fn lemma_node_learns_a_socket_address(
    context: &mut PunchContext,
    info: &mut NatInfo,
    index: SocketIndex,
    addr: SocketAddress,
)
    requires
        old(info)@ == old(context).nat_info@,
        call_ensures(PunchContext::update_public_addr, (context, index, addr), ()),
        call_ensures(NatInfo::update_public_addr, (info, index, addr), ()),
    ensures
        final(context).nat_info@ == final(info)@,
        keeps_node(*old(context), *final(context)),
{
}

/// What a node knows is taken up as its knowledge alone would take it up, and its id and its servers
/// stay: the address of the TCP service.
pub proof fn lemma_node_learns_a_tcp_address(
    context: &mut PunchContext,
    info: &mut NatInfo,
    addr: SocketAddress,
)
    requires
        old(info)@ == old(context).nat_info@,
        call_ensures(PunchContext::update_tcp_public_addr, (context, addr), ()),
        call_ensures(NatInfo::update_tcp_public_addr, (info, addr), ()),
    ensures
        final(context).nat_info@ == final(info)@,
        keeps_node(*old(context), *final(context)),
{
}

/// What a node knows is taken up as its knowledge alone would take it up, and its id and its servers
/// stay: the local addresses.
pub proof fn lemma_node_learns_local_addresses(
    context: &mut PunchContext,
    info: &mut NatInfo,
    ipv4: Option<Ipv4Address>,
    ipv6: Option<Ipv6Address>,
)
    requires
        old(info)@ == old(context).nat_info@,
        call_ensures(PunchContext::update_local_addr, (context, ipv4, ipv6), ()),
        call_ensures(NatInfo::update_local_addr, (info, ipv4, ipv6), ()),
    ensures
        final(context).nat_info@ == final(info)@,
        keeps_node(*old(context), *final(context)),
{
}

} // verus!
