//! Laws of what a node does from time to time.
use crate::buffer::contents;
use crate::clock::{elapsed, millis_of};
use crate::error::PunchError;
use crate::laws::protocol::{has_id_and_time, lemma_filled_has_id_and_time};
use crate::maintain::{
    heartbeat, nat_test, route_pings, routes_in, RoutePings, HEARTBEAT_SECS, IDLE_SECS, NAT_TEST_SECS,
};
use crate::network::{Model, NatType};
use crate::protocol::{ping_bytes_at, NetPacket, ProtocolType};
use crate::tunnel::{gave_routes, TunnelRouter};
use bytes::BytesMut;
use rust_p2p_core::route::route_table::Route;
use std::time::SystemTime;
use vstd::prelude::*;
use vstd::utf8::encode_utf8;

verus! {

/// A network that maps ports for each destination anew asks for many sockets, and any other network
/// for few. Without a type nothing changes.
pub proof fn lemma_model_follows_the_network(nat_type: Option<NatType>, model: Option<Model>)
    requires
        call_ensures(nat_test, (nat_type,), model),
    ensures
        model is None <==> nat_type is None,
        model == Some(Model::High) <==> nat_type == Some(NatType::Symmetric),
        model == Some(Model::Low) <==> nat_type == Some(NatType::Cone),
{
}

/// The routes of no peers are none, and those of one more peer come behind the others, in their
/// order.
pub proof fn lemma_routes_are_those_of_all_peers<R>(
    table: Seq<(String, Vec<R>)>,
    peer: (String, Vec<R>),
)
    ensures
        routes_in(Seq::<(String, Vec<R>)>::empty()) == Seq::<R>::empty(),
        routes_in(table.push(peer)) == routes_in(table) + peer.1@,
{
    assert(table.push(peer).drop_last() =~= table);
}

/// A heartbeat goes over the routes of all peers that the router's table gave, from the first one on.
pub proof fn lemma_heartbeat_goes_over_all_routes(
    id: &String,
    router: &TunnelRouter,
    pings: RoutePings<Route>,
)
    requires
        call_ensures(heartbeat, (id, router), pings),
    ensures
        pings.id() == id@,
        pings.turn() == 0,
        exists|table: Seq<(String, Vec<Route>)>| #[trigger]
            gave_routes(router.routes(), table) && pings.routes() == routes_in(table),
{
}

/// The pings over the routes of some peers go over all of them, from the first one on.
pub proof fn lemma_pings_go_over_all_routes<R: Copy>(
    id: &String,
    table: &Vec<(String, Vec<R>)>,
    pings: RoutePings<R>,
)
    requires
        call_ensures(route_pings::<R>, (id, table), pings),
    ensures
        pings.id() == id@,
        pings.turn() == 0,
        pings.routes() == routes_in(table@),
{
}

/// A ping of a node, with the low 32 bits of the milliseconds from the epoch to what a clock showed.
pub open spec fn is_ping_of(id: Seq<char>, packet: Seq<u8>) -> bool {
    &&& packet[0] == 129
    &&& packet[1] * 256 + packet[2] == packet.len()
    &&& packet[3] == 0
    &&& exists|clock: SystemTime, time: u32| #[trigger]
        has_id_and_time(packet, id, time) && (#[trigger] elapsed(clock)) is Some && (millis_of(
            elapsed(clock)->0,
        ) - time) % 0x1_0000_0000 == 0
}

proof fn lemma_ping_bytes_are_ping(clock: SystemTime, id: Seq<char>, bytes: Seq<u8>)
    requires
        ping_bytes_at(clock, id) == Ok::<Seq<u8>, PunchError>(bytes),
    ensures
        is_ping_of(id, bytes),
{
    let time = (millis_of(elapsed(clock)->0) % 0x1_0000_0000) as u32;
    lemma_filled_has_id_and_time(ProtocolType::Ping, id, time);
    assert(elapsed(clock) is Some);
    assert(has_id_and_time(bytes, id, time));
}

/// Every route has its turn, one after the other. Each gets a ping of the node, unless its id is too
/// long or a clock stood before the epoch.
pub proof fn lemma_every_route_has_its_turn<R: Copy>(
    pings: &mut RoutePings<R>,
    turn: Option<(R, Result<NetPacket<BytesMut>, PunchError>)>,
)
    requires
        call_ensures(RoutePings::<R>::next_route, (pings,), turn),
    ensures
        final(pings).id() == old(pings).id(),
        final(pings).routes() == old(pings).routes(),
        turn is Some <==> old(pings).turn() < old(pings).routes().len(),
        turn is None ==> final(pings).turn() == old(pings).turn(),
        turn matches Some((route, packet)) ==> {
            &&& final(pings).turn() == old(pings).turn() + 1
            &&& route == old(pings).routes()[old(pings).turn()]
            &&& packet matches Ok(packet) ==> is_ping_of(old(pings).id(), packet@)
            &&& packet matches Err(error) ==> {
                ||| error == PunchError::IdTooLong && encode_utf8(old(pings).id()).len() > 255
                ||| error == PunchError::ClockBehind && exists|clock: SystemTime|
                    (#[trigger] elapsed(clock)) is None
            }
        },
{
    if let Some((route, packet)) = turn {
        let clock = choose|clock: SystemTime|
            crate::protocol::bytes_of(packet) == #[trigger] ping_bytes_at(
                clock,
                old(pings).id(),
            );
        assert(elapsed(clock) is Some || elapsed(clock) is None);
        if let Ok(packet) = packet {
            lemma_ping_bytes_are_ping(clock, old(pings).id(), packet@);
        }
    }
}

/// The next ping goes to the route whose turn it is, or to a later one if no ping could be made. It
/// is a ping of the node. There is none only after the last route.
pub proof fn lemma_next_ping_goes_to_the_next_route<R: Copy>(
    pings: &mut RoutePings<R>,
    ping: Option<(BytesMut, R)>,
)
    requires
        call_ensures(RoutePings::<R>::next, (pings,), ping),
    ensures
        final(pings).id() == old(pings).id(),
        final(pings).routes() == old(pings).routes(),
        encode_utf8(old(pings).id()).len() <= 255 && (forall|clock: SystemTime|
            (#[trigger] elapsed(clock)) is Some) ==> (ping is Some <==> old(pings).turn() < old(
            pings,
        ).routes().len()),
        encode_utf8(old(pings).id()).len() <= 255 && (forall|clock: SystemTime|
            (#[trigger] elapsed(clock)) is Some) && ping is Some ==> final(pings).turn() == old(
            pings,
        ).turn() + 1,
        ping is None ==> final(pings).turn() == old(pings).routes().len(),
        ping matches Some((packet, route)) ==> {
            &&& old(pings).turn() < final(pings).turn() <= old(pings).routes().len()
            &&& route == old(pings).routes()[final(pings).turn() - 1]
            &&& is_ping_of(old(pings).id(), contents(packet))
        },
{
    if let Some((packet, route)) = ping {
        let clock = choose|clock: SystemTime| #[trigger]
            ping_bytes_at(clock, old(pings).id()) == Ok::<Seq<u8>, PunchError>(contents(packet));
        lemma_ping_bytes_are_ping(clock, old(pings).id(), contents(packet));
    }
    if crate::maintain::is_ping_missing(old(pings).id()) {
        let clock = choose|clock: SystemTime| (#[trigger] ping_bytes_at(clock, old(pings).id()))
            is Err;
        assert(elapsed(clock) is Some || elapsed(clock) is None);
    }
}

/// A heartbeat comes every 15 seconds, and the network is tested as often as every fourth one comes. A route over
/// which nothing came is dropped after 5 seconds, a third of the time between two heartbeats.
pub proof fn lemma_periods_are_multiples()
    ensures
        HEARTBEAT_SECS == 15,
        NAT_TEST_SECS == 4 * HEARTBEAT_SECS,
        HEARTBEAT_SECS == 3 * IDLE_SECS,
{
}

} // verus!
