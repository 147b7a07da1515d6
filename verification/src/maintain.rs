//! What a node does from time to time.
use crate::buffer::contents;
use crate::error::PunchError;
use crate::network::{Model, NatType};
use crate::protocol::{bytes_of, ping, ping_bytes_at, NetPacket};
use crate::tunnel::{gave_routes, TunnelRouter};
use bytes::BytesMut;
use rust_p2p_core::route::route_table::Route;
use std::time::SystemTime;
use vstd::prelude::*;

verus! {

/// The seconds between two heartbeats.
pub const HEARTBEAT_SECS: u64 = 15;

/// The seconds between two tests of the network.
pub const NAT_TEST_SECS: u64 = 60;

/// The seconds after which a route that nothing came over is dropped.
pub const IDLE_SECS: u64 = 5;

/// The routes of all peers, one peer behind the other.
pub open spec fn routes_in<R>(table: Seq<(String, Vec<R>)>) -> Seq<R>
    decreases table.len(),
{
    if table.len() == 0 {
        Seq::empty()
    } else {
        routes_in(table.drop_last()) + table.last().1@
    }
}

/// The pings of a heartbeat, each made when it is asked for.
pub struct RoutePings<R> {
    oneself_id: String,
    routes: Vec<R>,
    next: usize,
}

/// A ping of a node is made while the clock shows some time.
pub open spec fn is_ping(oneself_id: Seq<char>, ping: Seq<u8>) -> bool {
    exists|clock: SystemTime| #[trigger]
        ping_bytes_at(clock, oneself_id) == Ok::<Seq<u8>, PunchError>(ping)
}

/// No ping of a node can be made while the clock shows some time.
pub open spec fn is_ping_missing(oneself_id: Seq<char>) -> bool {
    exists|clock: SystemTime| (#[trigger] ping_bytes_at(clock, oneself_id)) is Err
}

impl<R> RoutePings<R> {
    /// The id of the node.
    pub closed spec fn id(&self) -> Seq<char> {
        self.oneself_id@
    }

    /// The routes, in order.
    pub closed spec fn routes(&self) -> Seq<R> {
        self.routes@
    }

    /// The number of routes that had their turn.
    pub closed spec fn turn(&self) -> int {
        self.next as int
    }

    #[verifier::type_invariant]
    spec fn within(self) -> bool {
        self.next <= self.routes@.len()
    }
}

impl<R: Copy> RoutePings<R> {
    /// The next route, with a ping for it or the reason why there is none.
    pub fn next_route(&mut self) -> (turn: Option<(R, Result<NetPacket<BytesMut>, PunchError>)>)
        ensures
            final(self).id() == old(self).id(),
            final(self).routes() == old(self).routes(),
            if old(self).turn() < old(self).routes().len() {
                &&& final(self).turn() == old(self).turn() + 1
                &&& turn matches Some((route, packet))
                &&& route == old(self).routes()[old(self).turn()]
                &&& exists|clock: SystemTime|
                    bytes_of(packet) == #[trigger] ping_bytes_at(clock, old(self).id())
            } else {
                final(self).turn() == old(self).turn() && turn is None
            },
    {
        proof {
            use_type_invariant(&*self);
        }
        if self.next < self.routes.len() {
            let route: R = self.routes[self.next];
            let packet = ping(self.oneself_id.as_str());
            let ghost clock = choose|clock: SystemTime|
                bytes_of(packet) == #[trigger] ping_bytes_at(clock, self.id());
            assert(bytes_of(packet) == ping_bytes_at(clock, old(self).id()));
            self.next = self.next + 1;
            Some((route, packet))
        } else {
            None
        }
    }

    /// The next ping and the route that it takes. A route for which no ping can be made is passed
    /// over.
    pub fn next(&mut self) -> (ping: Option<(BytesMut, R)>)
        ensures
            final(self).id() == old(self).id(),
            final(self).routes() == old(self).routes(),
            old(self).turn() <= final(self).turn() <= old(self).routes().len(),
            match ping {
                Some((packet, route)) => {
                    &&& old(self).turn() < final(self).turn()
                    &&& is_ping(old(self).id(), contents(packet))
                    &&& route == old(self).routes()[final(self).turn() - 1]
                    &&& final(self).turn() > old(self).turn() + 1 ==> is_ping_missing(
                        old(self).id(),
                    )
                },
                None => {
                    &&& final(self).turn() == old(self).routes().len()
                    &&& final(self).turn() > old(self).turn() ==> is_ping_missing(old(self).id())
                },
            },
    {
        proof {
            use_type_invariant(&*self);
        }
        loop
            invariant
                self.id() == old(self).id(),
                self.routes() == old(self).routes(),
                old(self).turn() <= self.turn() <= self.routes().len(),
                self.turn() > old(self).turn() ==> is_ping_missing(old(self).id()),
            decreases self.routes().len() - self.turn(),
        {
            match self.next_route() {
                Some((route, Ok(packet))) => {
                    assert(is_ping(old(self).id(), packet@));
                    return Some((packet.into_buffer(), route));
                },
                Some((_, Err(_))) => {
                    assert(is_ping_missing(old(self).id()));
                },
                None => return None,
            }
        }
    }
}

/// The pings of a heartbeat over the routes of all peers.
pub fn route_pings<R: Copy>(oneself_id: &String, table: &Vec<(String, Vec<R>)>) -> (pings:
    RoutePings<R>)
    ensures
        pings.id() == oneself_id@,
        pings.routes() == routes_in(table@),
        pings.turn() == 0,
{
    let mut all: Vec<R> = Vec::new();
    for i in 0..table.len()
        invariant
            all@ == routes_in(table@.take(i as int)),
    {
        let routes: &Vec<R> = &table[i].1;
        proof {
            assert(table@.take(i + 1).drop_last() =~= table@.take(i as int));
            assert(table@.take(i + 1).last() == table@[i as int]);
        }
        for k in 0..routes.len()
            invariant
                all@ == routes_in(table@.take(i as int)) + routes@.take(k as int),
        {
            all.push(routes[k]);
            assert(all@ =~= routes_in(table@.take(i as int)) + routes@.take(k + 1));
        }
        assert(routes@.take(routes@.len() as int) =~= routes@);
    }
    assert(table@.take(table@.len() as int) =~= table@);
    RoutePings { oneself_id: oneself_id.clone(), routes: all, next: 0 }
}

/// The pings of a heartbeat over the routes that are known now.
pub fn heartbeat(oneself_id: &String, router: &TunnelRouter) -> (pings: RoutePings<Route>)
    ensures
        pings.id() == oneself_id@,
        exists|table: Seq<(String, Vec<Route>)>| #[trigger]
            gave_routes(router.routes(), table) && pings.routes() == routes_in(table),
        pings.turn() == 0,
{
    let table = router.all_routes();
    route_pings(oneself_id, &table)
}

/// The number of UDP sockets for a network: many where it maps ports for each destination anew, so
/// that a guess is more likely to hit. Without a network type nothing changes.
pub fn nat_test(nat_type: Option<NatType>) -> (model: Option<Model>)
    ensures
        model == (match nat_type {
            Some(NatType::Cone) => Some(Model::Low),
            Some(NatType::Symmetric) => Some(Model::High),
            None => None,
        }),
{
    match nat_type {
        Some(NatType::Cone) => Some(Model::Low),
        Some(NatType::Symmetric) => Some(Model::High),
        None => None,
    }
}

} // verus!
