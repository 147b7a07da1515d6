//! Laws of data that comes in, and of the way out to a peer.
use crate::buffer::contents;
use crate::clock::{elapsed, millis_of, timestamp_at};
use crate::error::PunchError;
use crate::laws::protocol::{has_id_and_time, lemma_filled_has_id_and_time};
use crate::network::{
    is_global, mapping_addr, Ipv4Address, NatInfo, SocketAddress, SocketIndex, UdpIndex,
};
use crate::protocol::{lemma_read_ping_pong_is_payload, NetPacket, ProtocolType};
use crate::punch::PunchContext;
use crate::tunnel::{
    batch, batch_buffers, check_stun_lengths, data_handle, gave_directness, gave_first_route, gave_peer, gave_route,
    gave_routes, is_packet_step, is_some_pong_step, is_some_stream_step, packet_handle,
    packet_on_route, ping_step, pong_step, response_handle, route_on, stream_packet, stream_step,
    stun_address, stun_lengths_fit, took_absent_route, took_route, DataStep, TunnelRouter,
};
use bytes::BytesMut;
use rust_p2p_core::route::route_table::{Route, RouteTable};
use rust_p2p_core::route::RouteKey;
use std::time::SystemTime;
use vstd::prelude::*;
use vstd::utf8::{encode_utf8, valid_utf8};

verus! {

/// The packet that carries data of a stream: the number of its protocol with the first bit set, its
/// length in two bytes, a zero, and the data.
pub open spec fn carries(packet: Seq<u8>, data: Seq<u8>) -> bool {
    &&& packet.len() == data.len() + 4
    &&& packet[0] == 131
    &&& packet[1] * 256 + packet[2] == packet.len()
    &&& packet[3] == 0
    &&& packet.skip(4) == data
}

proof fn lemma_stream_packet_carries(data: Seq<u8>)
    requires
        data.len() < 65532,
    ensures
        carries(stream_packet(data), data),
{
    assert(stream_packet(data).skip(4) =~= data);
}

/// What goes out for data of a stream: with a route the packet that carries all of it, and that
/// route, as long as the packet has at most 65535 bytes. Without a route, or for more data, it is
/// refused.
pub open spec fn goes_out<R>(
    route: Option<R>,
    data: Seq<u8>,
    out: Result<(BytesMut, R), PunchError>,
) -> bool {
    &&& out is Ok <==> route is Some && data.len() <= 65531
    &&& out matches Ok((packet, taken)) ==> carries(contents(packet), data) && Some(taken) == route
    &&& out matches Err(error) ==> error == (if route is None {
        PunchError::RouteNotFound
    } else {
        PunchError::PacketLenInvalid
    })
}

/// Data of a stream goes out whole, on the route that was found.
pub proof fn lemma_data_goes_out<R>(
    route: Option<R>,
    data: &[u8],
    out: Result<(BytesMut, R), PunchError>,
)
    requires
        call_ensures(packet_on_route::<R>, (route, data), out),
    ensures
        goes_out(route, data@, out),
{
    if data@.len() < 65532 {
        lemma_stream_packet_carries(data@);
    }
}

/// Data of a stream for a peer goes out whole, on the route that the router's table gave for that
/// peer.
pub proof fn lemma_data_goes_out_to_the_peer(
    router: &TunnelRouter,
    data: &[u8],
    peer_id: &String,
    out: Result<(BytesMut, Route), PunchError>,
    later: Result<(BytesMut, Route), PunchError>,
)
    requires
        call_ensures(TunnelRouter::try_send_to, (router, data, peer_id), out),
        call_ensures(TunnelRouter::send_to, (router, data, peer_id), later),
    ensures
        exists|route: Option<Route>| #[trigger]
            gave_route(router.routes(), peer_id@, route) && goes_out(route, data@, out),
        exists|route: Option<Route>| #[trigger]
            gave_route(router.routes(), peer_id@, route) && goes_out(route, data@, later),
{
    if data@.len() < 65532 {
        lemma_stream_packet_carries(data@);
    }
    let route = choose|route: Option<Route>| #[trigger]
        gave_route(router.routes(), peer_id@, route) && crate::tunnel::is_on_route(
            route,
            data@,
            out,
        );
    assert(goes_out(route, data@, out));
    let route = choose|route: Option<Route>| #[trigger]
        gave_route(router.routes(), peer_id@, route) && crate::tunnel::is_on_route(
            route,
            data@,
            later,
        );
    assert(goes_out(route, data@, later));
}

/// What a router says is what its own table says of what it is asked for.
pub proof fn lemma_router_asks_its_table(
    router: &TunnelRouter,
    peer_id: &String,
    route_key: &RouteKey,
    reachable: bool,
    direct: bool,
    peer: Option<String>,
    routes: Vec<(String, Vec<Route>)>,
)
    requires
        call_ensures(TunnelRouter::is_reachable, (router, peer_id), reachable),
        call_ensures(TunnelRouter::no_need_punch, (router, peer_id), direct),
        call_ensures(TunnelRouter::peer_of, (router, route_key), peer),
        call_ensures(TunnelRouter::all_routes, (router,), routes),
    ensures
        exists|route: Option<Route>| #[trigger]
            gave_first_route(router.routes(), peer_id@, route) && (reachable <==> route is Some),
        gave_directness(router.routes(), peer_id@, direct),
        peer is None ==> gave_peer(router.routes(), *route_key, None),
        peer is Some ==> gave_peer(router.routes(), *route_key, Some(peer->0@)),
        gave_routes(router.routes(), routes@),
{
}

/// A router has the table that it is made with.
pub proof fn lemma_router_has_its_table(
    table: RouteTable<String>,
    router: TunnelRouter,
    back: &RouteTable<String>,
)
    requires
        call_ensures(TunnelRouter::new, (table,), router),
        call_ensures(TunnelRouter::route_table, (&router,), back),
    ensures
        router.routes() == table,
        *back == table,
{
}

/// A pong that measures a round trip: its time and the round trip time make the time at which it
/// came, unless it came before its own time, and then nothing is measured.
pub proof fn lemma_round_trip_makes_up_the_time(
    from: &str,
    time: u32,
    now: u32,
    step: DataStep<'static>,
)
    requires
        call_ensures(pong_step, (from, time, Ok::<u32, PunchError>(now)), step),
    ensures
        step matches DataStep::Measured { peer_id, rtt } && peer_id@ == from@ && (now >= time
            ==> rtt + time == now) && (now < time ==> rtt == 0),
{
}

/// A pong that comes later, with the same time, never measures less, and measures as much more as it
/// comes later if it does not come before its own time.
pub proof fn lemma_later_pong_measures_more(
    from: &str,
    time: u32,
    now: u32,
    later: u32,
    first: DataStep<'static>,
    second: DataStep<'static>,
)
    requires
        now <= later,
        call_ensures(pong_step, (from, time, Ok::<u32, PunchError>(now)), first),
        call_ensures(pong_step, (from, time, Ok::<u32, PunchError>(later)), second),
    ensures
        first is Measured,
        second is Measured,
        first->rtt <= second->rtt,
        now >= time ==> second->rtt - first->rtt == later - now,
{
}

/// A pong that comes without a time is of no use, for the reason why there is none.
pub proof fn lemma_pong_needs_a_time(
    from: &str,
    time: u32,
    error: PunchError,
    step: DataStep<'static>,
)
    requires
        call_ensures(pong_step, (from, time, Err::<u32, PunchError>(error)), step),
    ensures
        step == DataStep::Failed(error),
{
}

/// The answer to a ping: a pong with the id of this node and the time of the ping.
pub open spec fn is_answer(
    oneself_id: Seq<char>,
    time: u32,
    answer: Result<NetPacket<BytesMut>, PunchError>,
) -> bool {
    &&& answer is Ok <==> encode_utf8(oneself_id).len() <= 255
    &&& answer matches Ok(packet) ==> {
        &&& packet@[0] == 130
        &&& packet@[1] * 256 + packet@[2] == packet@.len()
        &&& packet@[3] == 0
        &&& has_id_and_time(packet@, oneself_id, time)
    }
    &&& answer matches Err(error) ==> error == PunchError::IdTooLong
}

/// A ping from the node itself is refused. Any other is answered with a pong that has the id of this
/// node and the time of the ping.
pub proof fn lemma_ping_gets_its_time_back(
    oneself_id: &String,
    from: &str,
    time: u32,
    step: DataStep<'static>,
)
    requires
        call_ensures(ping_step, (oneself_id, from, time), step),
    ensures
        from@ == oneself_id@ ==> step == DataStep::Failed(PunchError::ConnectToOneself),
        from@ != oneself_id@ ==> (step matches DataStep::Answer { peer_id, answer } && peer_id@
            == from@ && is_answer(oneself_id@, time, answer)),
{
    if encode_utf8(oneself_id@).len() <= 255 {
        lemma_filled_has_id_and_time(ProtocolType::Pong, oneself_id@, time);
    }
}

/// Data goes to a stream as it is, with the peer that is known, or is dropped if none is.
pub proof fn lemma_data_goes_to_the_peer<'a>(
    peer: Option<String>,
    data: &'a [u8],
    step: DataStep<'a>,
)
    requires
        call_ensures(stream_step, (peer, data), step),
    ensures
        peer is Some ==> (step matches DataStep::Stream { peer_id, data: out } && peer_id@
            == peer->0@ && out@ == data@),
        peer is None ==> step == DataStep::Done,
{
}

/// What data leads to that is taken as a packet. Each kind of packet is told by its first byte, and
/// what stands behind its header by the bytes themselves.
pub open spec fn is_handled(
    oneself_id: Seq<char>,
    table: RouteTable<String>,
    key: RouteKey,
    packet: Seq<u8>,
    step: DataStep<'_>,
) -> bool {
    &&& packet.len() < 4 ==> step == DataStep::Failed(PunchError::PacketTooShort)
    &&& packet.len() >= 4 && packet[1] * 256 + packet[2] != packet.len() ==> step
        == DataStep::Failed(PunchError::PacketLenInvalid)
    &&& packet.len() >= 4 && packet[1] * 256 + packet[2] == packet.len() ==> {
        let number = packet[0] as int % 128;
        let readable = packet.len() >= 9 && packet.len() == packet[4] + 9 && valid_utf8(
            packet.subrange(5, packet[4] + 5),
        );
        &&& number == 0 || number > 3 ==> step == DataStep::Failed(
            PunchError::InvalidProtocol(number as u8),
        )
        &&& (number == 1 || number == 2) && packet.len() < 9 ==> step == DataStep::Failed(
            PunchError::PingPongTooShort,
        )
        &&& (number == 1 || number == 2) && packet.len() >= 9 && !readable ==> step
            == DataStep::Failed(PunchError::PingPongInvalid)
        &&& number == 1 && readable ==> answers_ping(oneself_id, table, key, packet, step)
        &&& number == 2 && readable ==> measures_pong(table, key, packet, step)
        &&& number == 3 ==> passes_data(table, key, packet, step)
    }
}

/// A ping leads to an answer with its time, and its way becomes a route to its sender, unless that is
/// this node.
pub open spec fn answers_ping(
    oneself_id: Seq<char>,
    table: RouteTable<String>,
    key: RouteKey,
    packet: Seq<u8>,
    step: DataStep<'_>,
) -> bool {
    exists|id: Seq<char>, time: u32| #[trigger]
        has_id_and_time(packet, id, time) && (if id == oneself_id {
            step == DataStep::Failed(PunchError::ConnectToOneself)
        } else {
            &&& step matches DataStep::Answer { peer_id, answer }
            &&& peer_id@ == id
            &&& is_answer(oneself_id, time, answer)
            &&& exists|took: bool| #[trigger]
                took_absent_route(table, id, route_on(key, 0, 9999), took)
        })
}

/// A pong makes its way a route to its sender, with a round trip time that makes up, with the time
/// in the pong, the low 32 bits of the milliseconds that a clock showed.
pub open spec fn measures_pong(
    table: RouteTable<String>,
    key: RouteKey,
    packet: Seq<u8>,
    step: DataStep<'_>,
) -> bool {
    exists|id: Seq<char>, time: u32, clock: SystemTime| #[trigger]
        has_id_and_time(packet, id, time) && (match #[trigger] elapsed(clock) {
            None => step == DataStep::Failed(PunchError::ClockBehind),
            Some(duration) => {
                let now = millis_of(duration) as int % 0x1_0000_0000;
                &&& step matches DataStep::Measured { peer_id, rtt }
                &&& peer_id@ == id
                &&& now >= time ==> rtt + time == now
                &&& now < time ==> rtt == 0
                &&& exists|took: bool| #[trigger]
                    took_route(table, id, route_on(key, 0, rtt), took)
            },
        })
}

/// The data in a packet of a stream comes out whole, from the peer that the table gave for its way,
/// which becomes a route to that peer. It is dropped if the table gave none.
pub open spec fn passes_data(
    table: RouteTable<String>,
    key: RouteKey,
    packet: Seq<u8>,
    step: DataStep<'_>,
) -> bool {
    ||| gave_peer(table, key, None) && step == DataStep::Done
    ||| {
        &&& step matches DataStep::Stream { peer_id, data }
        &&& gave_peer(table, key, Some(peer_id@))
        &&& packet.take(4) + data@ == packet
        &&& exists|took: bool| #[trigger]
            took_absent_route(table, peer_id@, route_on(key, 0, 9999), took)
    }
}

proof fn lemma_step_is_handled(
    oneself_id: Seq<char>,
    table: RouteTable<String>,
    key: RouteKey,
    packet: Seq<u8>,
    step: DataStep<'_>,
)
    requires
        is_packet_step(oneself_id, table, key, packet, step),
        crate::tunnel::is_learnt(table, key, step),
    ensures
        is_handled(oneself_id, table, key, packet, step),
{
    if packet.len() >= 4 && packet[1] * 256 + packet[2] == packet.len() {
        let payload = packet.skip(4);
        let number = packet[0] as int % 128;
        if packet.len() >= 9 {
            assert(payload[0] == packet[4]);
            if packet.len() == packet[4] + 9 {
                assert(payload.subrange(1, payload[0] + 1) =~= packet.subrange(5, packet[4] + 5));
            }
        }
        lemma_read_ping_pong_is_payload(payload);
        if number == 1 || number == 2 {
            if let Ok((id, time)) = crate::protocol::read_ping_pong(payload) {
                lemma_filled_has_id_and_time(ProtocolType::Ping, id, time);
                let blank = crate::protocol::blank_ping_pong(id, time);
                let end = 5 + encode_utf8(id).len() as int;
                assert(packet.len() == blank.len());
                assert forall|i: int| 4 <= i < packet.len() implies packet[i] == blank[i] by {
                    assert(packet[i] == payload[i - 4]);
                }
                assert(packet.subrange(5, end) =~= blank.subrange(5, end));
                assert(has_id_and_time(packet, id, time));
                if number == 1 {
                    if encode_utf8(oneself_id).len() <= 255 {
                        lemma_filled_has_id_and_time(ProtocolType::Pong, oneself_id, time);
                    }
                    assert(answers_ping(oneself_id, table, key, packet, step));
                } else {
                    assert(is_some_pong_step(id, time, step));
                    let clock = choose|clock: SystemTime|
                        crate::tunnel::is_pong_step(
                            id,
                            time,
                            #[trigger] timestamp_at(clock),
                            step,
                        );
                    assert(elapsed(clock) is Some || elapsed(clock) is None);
                    assert(measures_pong(table, key, packet, step));
                }
            }
        }
        if number == 3 {
            assert(is_some_stream_step(table, key, payload, step));
            if let DataStep::Stream { peer_id, data } = step {
                assert(packet.take(4) + data@ =~= packet);
            }
        }
    }
}

/// Data is handled as the packet that it is.
pub proof fn lemma_packet_is_handled<'a>(
    oneself_id: &String,
    router: &TunnelRouter,
    route_key: &RouteKey,
    buf: &'a [u8],
    step: DataStep<'a>,
)
    requires
        call_ensures(packet_handle, (oneself_id, router, route_key, buf), step),
    ensures
        is_handled(oneself_id@, router.routes(), *route_key, buf@, step),
{
    lemma_step_is_handled(oneself_id@, router.routes(), *route_key, buf@, step);
}

/// What a node knows after a server told it a public address of version four of one of its sockets:
/// the port is that of the socket, whatever was known before, and the address is among the public
/// ones. Only a global address counts. An address that is none of version four changes nothing.
pub open spec fn has_learnt_address(
    before: PunchContext,
    after: PunchContext,
    index: SocketIndex,
    found: Option<(Ipv4Address, u16)>,
) -> bool {
    let (ip, port) = found->0;
    &&& found is None ==> after.nat_info@ == before.nat_info@
    &&& found is Some ==> has_learnt(before, after, index, ip, port)
}

/// What a node knows after a server told it an address and a port of one of its sockets.
pub open spec fn has_learnt(
    before: PunchContext,
    after: PunchContext,
    index: SocketIndex,
    ip: Ipv4Address,
    port: u16,
) -> bool {
    &&& !is_global(ip) ==> after.nat_info@ == before.nat_info@
    &&& is_global(ip) ==> after.nat_info.public_ips@.contains(ip)
    &&& is_global(ip) && index is Tcp ==> after.nat_info.public_tcp_port == port
    &&& !(index is Tcp) ==> after.nat_info.public_tcp_port == before.nat_info.public_tcp_port
    &&& forall|i: usize|
        is_global(ip) && i < before.nat_info.public_udp_ports@.len() && (index == SocketIndex::Udp(
            UdpIndex::MainV4(i),
        ) || index == SocketIndex::Udp(UdpIndex::MainV6(i)))
            ==> #[trigger] after.nat_info.public_udp_ports@[i as int] == port
    &&& forall|i: usize|
        i < before.nat_info.public_udp_ports@.len() && index != SocketIndex::Udp(
            UdpIndex::MainV4(i),
        ) && index != SocketIndex::Udp(UdpIndex::MainV6(i))
            ==> #[trigger] after.nat_info.public_udp_ports@[i as int]
            == before.nat_info.public_udp_ports@[i as int]
}

proof fn lemma_address_is_learnt(
    before: PunchContext,
    after: PunchContext,
    index: SocketIndex,
    addr: SocketAddress,
    found: Option<(Ipv4Address, u16)>,
)
    requires
        call_ensures(mapping_addr, (addr,), found),
        after.info() == before.info().with_public_addr(index, addr),
    ensures
        has_learnt_address(before, after, index, found),
{
    let known = before.nat_info@.public_ips;
    assert(after.nat_info@.public_ips == after.nat_info.public_ips@);
    assert(after.nat_info@.public_udp_ports == after.nat_info.public_udp_ports@);
    assert(before.nat_info@.public_udp_ports == before.nat_info.public_udp_ports@);
    if let Some((ip, port)) = found {
        assert(known.push(ip)[known.len() as int] == ip);
    }
}

/// An address that was read from the response of a server is taken up and ends the matter. Without
/// one the data is handled as the packet that it is, and nothing is learnt of the network. The id
/// and the servers of the node stay.
pub proof fn lemma_response_is_handled<'a>(
    context: &mut PunchContext,
    router: &TunnelRouter,
    route_key: &RouteKey,
    index: SocketIndex,
    buf: &'a [u8],
    address: Option<SocketAddress>,
    found: Option<(Ipv4Address, u16)>,
    step: DataStep<'a>,
)
    requires
        call_ensures(response_handle, (context, router, route_key, index, buf, address), step),
        address matches Some(addr) ==> call_ensures(mapping_addr, (addr,), found),
    ensures
        final(context).oneself_id@ == old(context).oneself_id@,
        final(context).tcp_stun_servers@ == old(context).tcp_stun_servers@,
        final(context).udp_stun_servers@ == old(context).udp_stun_servers@,
        address is Some ==> step == DataStep::Done && has_learnt_address(
            *old(context),
            *final(context),
            index,
            found,
        ),
        address is None ==> final(context).nat_info@ == old(context).nat_info@ && is_handled(
            old(context).oneself_id@,
            router.routes(),
            *route_key,
            buf@,
            step,
        ),
{
    match address {
        Some(addr) => {
            lemma_address_is_learnt(*old(context), *final(context), index, addr, found);
        },
        None => {
            lemma_step_is_handled(
                old(context).oneself_id@,
                router.routes(),
                *route_key,
                buf@,
                step,
            );
        },
    }
}

/// Data whose first byte is one is read as the response of a server: an address in it is taken up
/// and ends the matter. All other data is handled as the packet that it is, and nothing is learnt of
/// the network. The id and the servers of the node stay.
pub proof fn lemma_data_is_handled<'a>(
    context: &mut PunchContext,
    router: &TunnelRouter,
    route_key: &RouteKey,
    index: SocketIndex,
    buf: &'a [u8],
    found: Option<(Ipv4Address, u16)>,
    step: DataStep<'a>,
)
    requires
        buf@.len() > 0,
        buf@[0] == 1 ==> stun_lengths_fit(buf@),
        call_ensures(data_handle, (context, router, route_key, index, buf), step),
        stun_address(buf@) matches Some(addr) ==> call_ensures(
            mapping_addr,
            (addr,),
            found,
        ),
    ensures
        final(context).oneself_id@ == old(context).oneself_id@,
        final(context).tcp_stun_servers@ == old(context).tcp_stun_servers@,
        final(context).udp_stun_servers@ == old(context).udp_stun_servers@,
        buf@[0] == 1 && stun_address(buf@) is Some ==> step == DataStep::Done
            && has_learnt_address(*old(context), *final(context), index, found),
        buf@[0] != 1 || stun_address(buf@) is None ==> final(context).nat_info@ == old(
            context,
        ).nat_info@ && is_handled(
            old(context).oneself_id@,
            router.routes(),
            *route_key,
            buf@,
            step,
        ),
{
    if buf@[0] == 1 && stun_address(buf@) is Some {
        let addr = stun_address(buf@)->0;
        lemma_address_is_learnt(*old(context), *final(context), index, addr, found);
    } else {
        lemma_step_is_handled(
            old(context).oneself_id@,
            router.routes(),
            *route_key,
            buf@,
            step,
        );
    }
}

/// What one node sends of a stream comes out at the other as it went in: the packet that went out is
/// handled as data of the peer that the table there gave for its way.
pub proof fn lemma_sent_data_comes_out<'a, R>(
    route: Option<R>,
    data: &[u8],
    out: Result<(BytesMut, R), PunchError>,
    oneself_id: &String,
    router: &TunnelRouter,
    route_key: &RouteKey,
    buf: &'a [u8],
    step: DataStep<'a>,
)
    requires
        call_ensures(packet_on_route::<R>, (route, data), out),
        out is Ok,
        buf@ == contents((out->Ok_0).0),
        call_ensures(packet_handle, (oneself_id, router, route_key, buf), step),
    ensures
        buf@[0] != 1,
        step matches DataStep::Stream { peer_id, data: came } ==> came@ == data@ && gave_peer(
            router.routes(),
            *route_key,
            Some(peer_id@),
        ),
        !(step is Stream) ==> step == DataStep::Done && gave_peer(
            router.routes(),
            *route_key,
            None,
        ),
{
    lemma_data_goes_out(route, data, out);
    lemma_packet_is_handled(oneself_id, router, route_key, buf, step);
    if let DataStep::Stream { peer_id, data: came } = step {
        assert((buf@.take(4) + came@).skip(4) =~= came@);
    }
}

/// The buffers for a batch are sixteen, each of 65536 zeros.
pub proof fn lemma_batch_has_its_buffers(buffers: Vec<BytesMut>)
    requires
        call_ensures(batch_buffers, (), buffers),
    ensures
        buffers@.len() == 16,
        forall|i: int, k: int|
            0 <= i < 16 && 0 <= k < 65536 ==> contents(buffers@[i]).len() == 65536
                && #[trigger] contents(buffers@[i])[k] == 0,
{
    assert forall|i: int, k: int| 0 <= i < 16 && 0 <= k < 65536 implies contents(
        buffers@[i],
    ).len() == 65536 && #[trigger] contents(buffers@[i])[k] == 0 by {
        assert(contents(buffers@[i]) == Seq::new(65536, |k: int| 0u8));
    }
}

/// The datagrams of a batch are the fronts of its buffers, one for each that was written to, as long
/// as was written.
pub proof fn lemma_batch_is_cut_out<'a>(
    buffers: &'a Vec<BytesMut>,
    sizes: &Vec<usize>,
    count: usize,
    datagrams: Vec<&'a [u8]>,
)
    requires
        count <= buffers@.len(),
        count <= sizes@.len(),
        forall|i: int| 0 <= i < count ==> sizes@[i] <= contents(#[trigger] buffers@[i]).len(),
        call_ensures(batch, (buffers, sizes, count), datagrams),
    ensures
        datagrams@.len() == count,
        forall|i: int|
            0 <= i < count ==> (#[trigger] datagrams@[i])@.len() == sizes@[i]
                && datagrams@[i]@.is_prefix_of(contents(buffers@[i])),
{
    assert forall|i: int| 0 <= i < count implies (#[trigger] datagrams@[i])@.len() == sizes@[i]
        && datagrams@[i]@.is_prefix_of(contents(buffers@[i])) by {
        assert(sizes@[i] <= contents(buffers@[i]).len());
        let front = contents(buffers@[i]).take(sizes@[i] as int);
        assert(front.is_prefix_of(contents(buffers@[i])));
    }
}

/// The way on which data came is handed to the table as a direct route to the peer that the data is
/// from: with the round trip time that a pong measured, or unmeasured for the case that the table has
/// none on this way yet.
pub proof fn lemma_way_is_learnt(router: &TunnelRouter, key: &RouteKey, step: &DataStep<'_>)
    requires
        call_ensures(TunnelRouter::learn, (router, key, step), ()),
    ensures
        *step matches DataStep::Answer { peer_id, .. } ==> exists|took: bool| #[trigger]
            took_absent_route(router.routes(), peer_id@, route_on(*key, 0, 9999), took),
        *step matches DataStep::Measured { peer_id, rtt } ==> exists|took: bool| #[trigger]
            took_route(router.routes(), peer_id@, route_on(*key, 0, rtt), took),
        *step matches DataStep::Stream { peer_id, .. } ==> exists|took: bool| #[trigger]
            took_absent_route(router.routes(), peer_id@, route_on(*key, 0, 9999), took),
{
}

/// The attributes of a response are read: its transaction id has the bits of a node's requests, and
/// `size` bytes of attributes are there behind the head of twenty bytes.
pub open spec fn is_read(response: Seq<u8>, size: int) -> bool {
    &&& response.len() >= 20 + size
    &&& response[2] * 256 + response[3] == size
    &&& response[8] & 0x6c == 0x6c
    &&& response[9] & 0xee == 0xee
    &&& response[10] & 0x30 == 0x30
    &&& response[11] & 0xb8 == 0xb8
}

/// The first attribute of a response: its kind, the length of its value, and the bytes of both and of
/// the value with what fills it up to a multiple of four.
pub open spec fn starts_with_attribute(response: Seq<u8>, kind: int, len: int, size: int) -> bool {
    &&& response[20] * 256 + response[21] == kind
    &&& response[22] * 256 + response[23] == len
    &&& size % 4 == 0
    &&& 4 + len <= size < 8 + len
}

/// The lengths in a response fit wherever its attributes are not read, or are too short to have a
/// length.
pub proof fn lemma_unread_lengths_fit(response: &[u8], fit: bool)
    requires
        forall|size: int| #[trigger] is_read(response@, size) ==> size < 4,
        call_ensures(check_stun_lengths, (response,), fit),
    ensures
        fit,
{
    let size = response@[2] * 256 + response@[3];
    if is_read(response@, size) {
        assert(response@.subrange(20, 20 + size).len() < 4);
    }
}

/// The first length decides if it is too large to be rounded up in two bytes. The same holds of the
/// length within a password algorithm.
pub proof fn lemma_large_length_does_not_fit(
    response: &[u8],
    all: int,
    kind: int,
    len: int,
    size: int,
    fit: bool,
)
    requires
        is_read(response@, all),
        all >= 4,
        starts_with_attribute(response@, kind, len, size),
        len > 65532 || kind == 0x1d && 4 <= len <= all - 4 && response@[26] * 256 + response@[27]
            > 65532,
        call_ensures(check_stun_lengths, (response,), fit),
    ensures
        !fit,
{
    let attributes = response@.subrange(20, 20 + all);
    assert(attributes[0] == response@[20] && attributes[1] == response@[21]);
    assert(attributes[2] == response@[22] && attributes[3] == response@[23]);
    if len <= 65532 {
        assert(attributes[6] == response@[26] && attributes[7] == response@[27]);
    }
}

/// The first attribute is left behind if its lengths can be rounded up: the response is then as good
/// as one without it. Nothing is read behind an address, or behind the last attribute.
pub proof fn lemma_fitting_attribute_is_passed(
    response: &[u8],
    all: int,
    kind: int,
    len: int,
    size: int,
    fit: bool,
    shorter: &[u8],
    shorter_fit: bool,
)
    requires
        is_read(response@, all),
        all >= 4,
        starts_with_attribute(response@, kind, len, size),
        len <= 65532,
        kind == 0x1d && 4 <= len <= all - 4 ==> response@[26] * 256 + response@[27] <= 65532,
        call_ensures(check_stun_lengths, (response,), fit),
        size < all ==> is_read(shorter@, all - size) && shorter@.skip(20) == response@.skip(
            20 + size,
        ),
        call_ensures(check_stun_lengths, (shorter,), shorter_fit),
    ensures
        kind == 1 || kind == 0x20 || size >= all ==> fit,
        kind != 1 && kind != 0x20 && size < all ==> fit == shorter_fit,
{
    let attributes = response@.subrange(20, 20 + all);
    assert(attributes[0] == response@[20] && attributes[1] == response@[21]);
    assert(attributes[2] == response@[22] && attributes[3] == response@[23]);
    if kind == 0x1d && 4 <= len <= all - 4 {
        assert(attributes[6] == response@[26] && attributes[7] == response@[27]);
    }
    if size < all {
        let rest = shorter@.subrange(20, 20 + (all - size));
        assert forall|i: int| 0 <= i < rest.len() implies rest[i] == attributes.skip(size)[i] by {
            assert(shorter@.skip(20)[i] == response@.skip(20 + size)[i]);
        }
        assert(rest =~= attributes.skip(size));
    }
}

/// An address in the response of a server is taken up as one that was told of the socket on which
/// the response came.
pub proof fn lemma_response_tells_a_socket_address<'a>(
    context: &mut PunchContext,
    router: &TunnelRouter,
    route_key: &RouteKey,
    index: SocketIndex,
    buf: &'a [u8],
    step: DataStep<'a>,
    other: &mut PunchContext,
    other_step: DataStep<'a>,
    info: &mut NatInfo,
    addr: SocketAddress,
)
    requires
        buf@.len() > 0,
        buf@[0] == 1,
        stun_address(buf@) == Some(addr),
        old(info)@ == old(context).nat_info@,
        old(other).nat_info@ == old(context).nat_info@,
        call_ensures(data_handle, (context, router, route_key, index, buf), step),
        call_ensures(
            response_handle,
            (other, router, route_key, index, buf, Some(addr)),
            other_step,
        ),
        call_ensures(NatInfo::update_public_addr, (info, index, addr), ()),
    ensures
        final(context).nat_info@ == final(info)@,
        final(other).nat_info@ == final(info)@,
        step == DataStep::Done,
        other_step == DataStep::Done,
{
}

} // verus!
