//! What comes in through the tunnel, and the way out to a peer.
use crate::buffer::{as_slice, contents, extend_from_slice, zeroed};
use crate::clock::{now, timestamp_at};
use crate::error::PunchError;
use crate::network::{Ipv4Address, Ipv6Address, SocketAddress, SocketIndex};
use crate::protocol::{
    bytes_of, convert_ping_pong, fill_header, lemma_filled_ping_pong_reads_back,
    lemma_set_packet_reads_back, ping_pong_bytes, pong, protocol_field, read_ping_pong,
    well_formed, with_length, with_protocol, NetPacket, ProtocolType, HEAD_LEN,
};
use crate::punch::PunchContext;
use bytes::BytesMut;
use rust_p2p_core::route::route_table::{Route, RouteTable};
use rust_p2p_core::route::RouteKey;
use std::time::SystemTime;
use vstd::prelude::*;
use vstd::slice::slice_subrange;

verus! {

#[verifier::external_type_specification]
#[verifier::external_body]
#[verifier::reject_recursive_types(PeerID)]
pub struct ExRouteTable<PeerID>(RouteTable<PeerID>);

#[verifier::external_type_specification]
#[verifier::external_body]
pub struct ExRoute(Route);

#[verifier::external_type_specification]
#[verifier::external_body]
pub struct ExRouteKey(RouteKey);

/// A route, or none, is an answer that a table has given to the question for a route that a packet
/// to a peer takes. At another time it may give another.
pub uninterp spec fn gave_route(
    table: RouteTable<String>,
    id: Seq<char>,
    route: Option<Route>,
) -> bool;

/// `RouteTable::get_route_by_id`: a route to a peer, if the table has one. The table is shared and
/// changes at any time, so it is claimed only that this table has given the answer for this peer.
#[verifier::external_body]
fn route_by_id(table: &RouteTable<String>, id: &String) -> (route: Option<Route>)
    ensures
        gave_route(*table, id@, route),
{
    table.get_route_by_id(id).ok()
}

/// A route, or none, is an answer that a table has given to the question for its first route to a
/// peer. At another time it may give another.
pub uninterp spec fn gave_first_route(
    table: RouteTable<String>,
    id: Seq<char>,
    route: Option<Route>,
) -> bool;

/// `RouteTable::route_one`: the first route to a peer, if the table has one. The table is shared
/// and changes at any time, so it is claimed only that this table has given the answer for this
/// peer.
#[verifier::external_body]
fn first_route(table: &RouteTable<String>, id: &String) -> (route: Option<Route>)
    ensures
        gave_first_route(*table, id@, route),
{
    table.route_one(id)
}

/// A yes or no is an answer that a table has given to the question whether it has a direct route to
/// a peer. At another time it may give another.
pub uninterp spec fn gave_directness(
    table: RouteTable<String>,
    id: Seq<char>,
    direct: bool,
) -> bool;

/// `RouteTable::no_need_punch`: whether the table has a direct route to a peer. The table is shared
/// and changes at any time, so it is claimed only that this table has given the answer for this
/// peer.
#[verifier::external_body]
fn has_direct_route(table: &RouteTable<String>, id: &String) -> (direct: bool)
    ensures
        gave_directness(*table, id@, direct),
{
    table.no_need_punch(id)
}

/// A peer, or none, is an answer that a table has given to the question for the peer at the end of a
/// route. At another time it may give another.
pub uninterp spec fn gave_peer(
    table: RouteTable<String>,
    key: RouteKey,
    id: Option<Seq<char>>,
) -> bool;

/// `RouteTable::get_id_by_route_key`: the peer at the end of a route, if the table has it. The
/// table is shared and changes at any time, so it is claimed only that this table has given the
/// answer for this route.
#[verifier::external_body]
fn id_by_route_key(table: &RouteTable<String>, key: &RouteKey) -> (id: Option<String>)
    ensures
        gave_peer(*table, *key, text_of_id(id)),
{
    table.get_id_by_route_key(key)
}

/// The routes of all peers are an answer that a table has given to the question for them. At another
/// time it may give another.
pub uninterp spec fn gave_routes(
    table: RouteTable<String>,
    routes: Seq<(String, Vec<Route>)>,
) -> bool;

/// `RouteTable::route_table`: the routes of all peers. The table is shared and changes at any time,
/// so it is claimed only that this table has given the answer.
#[verifier::external_body]
fn routes_of_peers(table: &RouteTable<String>) -> (routes: Vec<(String, Vec<Route>)>)
    ensures
        gave_routes(*table, routes@),
{
    table.route_table()
}

/// A route on a way, with a metric and a round trip time.
pub uninterp spec fn route_on(key: RouteKey, metric: u8, rtt: u32) -> Route;

/// `Route::from`: the route on a way, with a metric and a round trip time.
#[verifier::external_body]
fn route_with(key: &RouteKey, metric: u8, rtt: u32) -> (route: Route)
    ensures
        route == route_on(*key, metric, rtt),
{
    Route::from(*key, metric, rtt)
}

/// The round trip time of a route that was not measured.
pub const DEFAULT_RTT: u32 = 9999;

/// `Route::from_default_rt`: the route on a way, with a metric and the round trip time
/// [`DEFAULT_RTT`].
#[verifier::external_body]
fn route_unmeasured(key: &RouteKey, metric: u8) -> (route: Route)
    ensures
        route == route_on(*key, metric, DEFAULT_RTT),
{
    Route::from_default_rt(*key, metric)
}

/// A table has been handed a route to a peer, and has given an answer.
pub uninterp spec fn took_route(
    table: RouteTable<String>,
    id: Seq<char>,
    route: Route,
    answer: bool,
) -> bool;

/// `RouteTable::add_route`: the table is handed a route to a peer, in place of one on the same way.
/// The table is shared and changes at any time, so it is claimed only that it was handed the route
/// and has given the answer.
#[verifier::external_body]
fn add_route(table: &RouteTable<String>, id: String, route: Route) -> (answer: bool)
    ensures
        took_route(*table, id@, route, answer),
{
    table.add_route(id, route)
}

/// A table has been handed a route to a peer for the case that it has none on the same way, and has
/// given an answer.
pub uninterp spec fn took_absent_route(
    table: RouteTable<String>,
    id: Seq<char>,
    route: Route,
    answer: bool,
) -> bool;

/// `RouteTable::add_route_if_absent`: the table is handed a route to a peer, unless it has one on
/// the same way. The table is shared and changes at any time, so it is claimed only that it was
/// handed the route and has given the answer.
#[verifier::external_body]
fn add_route_if_absent(table: &RouteTable<String>, id: String, route: Route) -> (answer: bool)
    ensures
        took_absent_route(*table, id@, route, answer),
{
    table.add_route_if_absent(id, route)
}

/// The text of an id, where there is one.
pub open spec fn text_of_id(id: Option<String>) -> Option<Seq<char>> {
    match id {
        Some(id) => Some(id@),
        None => None,
    }
}

/// A peer counts as reachable or not by an answer of a table: it does if the answer is a route.
pub open spec fn is_reachable_by(
    table: RouteTable<String>,
    peer_id: Seq<char>,
    reachable: bool,
) -> bool {
    exists|route: Option<Route>| #[trigger]
        gave_first_route(table, peer_id, route) && reachable == (route is Some)
}

/// A packet of a stream: a header, and the data behind it.
pub open spec fn stream_packet(data: Seq<u8>) -> Seq<u8> {
    with_length(with_protocol(seq![0u8, 0u8, 0u8, 0u8] + data, ProtocolType::KcpRaw))
}

/// A packet of a stream on its way: it takes the route that was found, if its length fits into the
/// header.
pub open spec fn is_on_route<R>(
    route: Option<R>,
    data: Seq<u8>,
    packet: Result<(BytesMut, R), PunchError>,
) -> bool {
    match route {
        None => packet == Err::<(BytesMut, R), PunchError>(PunchError::RouteNotFound),
        Some(route) => if HEAD_LEN + data.len() < 0x1_0000 {
            packet matches Ok((bytes, taken)) && contents(bytes) == stream_packet(data) && taken
                == route
        } else {
            packet == Err::<(BytesMut, R), PunchError>(PunchError::PacketLenInvalid)
        },
    }
}

/// A packet of a stream on its way, with the route that it takes.
pub fn packet_on_route<R>(route: Option<R>, buf: &[u8]) -> (packet: Result<
    (BytesMut, R),
    PunchError,
>)
    requires
        HEAD_LEN + buf@.len() <= isize::MAX,
    ensures
        is_on_route(route, buf@, packet),
{
    let route = match route {
        Some(route) => route,
        None => return Err(PunchError::RouteNotFound),
    };
    let mut buffer = zeroed(HEAD_LEN);
    extend_from_slice(&mut buffer, buf);
    assert(contents(buffer) =~= seq![0u8, 0u8, 0u8, 0u8] + buf@);
    let mut packet = NetPacket::new_unchecked(buffer);
    fill_header(&mut packet, ProtocolType::KcpRaw);
    match NetPacket::new(packet.into_buffer()) {
        Ok(packet) => Ok((packet.into_buffer(), route)),
        Err(error) => Err(error),
    }
}

/// Finds the way to peers.
pub struct TunnelRouter {
    route_table: RouteTable<String>,
}

impl TunnelRouter {
    /// The table of the routes.
    pub closed spec fn routes(&self) -> RouteTable<String> {
        self.route_table
    }

    pub fn new(route_table: RouteTable<String>) -> (router: Self)
        ensures
            router.routes() == route_table,
    {
        TunnelRouter { route_table }
    }

    /// The table of the routes.
    pub fn route_table(&self) -> (table: &RouteTable<String>)
        ensures
            *table == self.routes(),
    {
        &self.route_table
    }

    /// A packet of a stream for a peer, to be sent if the socket takes it, as
    /// [`packet_on_route`] makes it.
    pub fn try_send_to(&self, buf: &[u8], dest: &String) -> (packet: Result<
        (BytesMut, Route),
        PunchError,
    >)
        requires
            HEAD_LEN + buf@.len() <= isize::MAX,
        ensures
            exists|route: Option<Route>| #[trigger]
                gave_route(self.routes(), dest@, route) && is_on_route(route, buf@, packet),
    {
        let route = route_by_id(&self.route_table, dest);
        let packet = packet_on_route(route, buf);
        assert(gave_route(self.routes(), dest@, route) && is_on_route(route, buf@, packet));
        packet
    }

    /// A packet of a stream for a peer, to be sent when the socket takes it, as
    /// [`packet_on_route`] makes it.
    pub fn send_to(&self, buf: &[u8], dest: &String) -> (packet: Result<
        (BytesMut, Route),
        PunchError,
    >)
        requires
            HEAD_LEN + buf@.len() <= isize::MAX,
        ensures
            exists|route: Option<Route>| #[trigger]
                gave_route(self.routes(), dest@, route) && is_on_route(route, buf@, packet),
    {
        let route = route_by_id(&self.route_table, dest);
        let packet = packet_on_route(route, buf);
        assert(gave_route(self.routes(), dest@, route) && is_on_route(route, buf@, packet));
        packet
    }

    /// Whether there is a route to a peer. The routes change at any time.
    pub fn is_reachable(&self, peer_id: &String) -> (reachable: bool)
        ensures
            is_reachable_by(self.routes(), peer_id@, reachable),
    {
        let route = first_route(&self.route_table, peer_id);
        route.is_some()
    }

    /// Whether there is a direct route to a peer. The routes change at any time.
    pub fn no_need_punch(&self, peer_id: &String) -> (direct: bool)
        ensures
            gave_directness(self.routes(), peer_id@, direct),
    {
        has_direct_route(&self.route_table, peer_id)
    }

    /// The routes of all peers. The routes change at any time.
    pub fn all_routes(&self) -> (routes: Vec<(String, Vec<Route>)>)
        ensures
            gave_routes(self.routes(), routes@),
    {
        routes_of_peers(&self.route_table)
    }

    /// The peer at the end of a route, if it is known. The routes change at any time.
    pub fn peer_of(&self, route_key: &RouteKey) -> (peer_id: Option<String>)
        ensures
            gave_peer(self.routes(), *route_key, text_of_id(peer_id)),
    {
        id_by_route_key(&self.route_table, route_key)
    }

    /// Hands the table the way on which data came that leads to a step, as [`is_learnt`] says.
    pub fn learn(&self, route_key: &RouteKey, step: &DataStep<'_>)
        ensures
            is_learnt(self.routes(), *route_key, *step),
    {
        match step {
            DataStep::Answer { peer_id, .. } => self.learn_if_absent(route_key, peer_id),
            DataStep::Measured { peer_id, rtt } => {
                let route = route_with(route_key, DIRECT_METRIC, *rtt);
                add_route(&self.route_table, peer_id.clone(), route);
            },
            DataStep::Stream { peer_id, .. } => self.learn_if_absent(route_key, peer_id),
            _ => {},
        }
    }

    fn learn_if_absent(&self, route_key: &RouteKey, peer_id: &String)
        ensures
            is_learnt_if_absent(self.routes(), *route_key, peer_id@),
    {
        let route = route_unmeasured(route_key, DIRECT_METRIC);
        add_route_if_absent(&self.route_table, peer_id.clone(), route);
    }
}

/// `rust_p2p_core::stun::is_stun_response`: whether the first byte is one. There has to be a first
/// byte.
#[verifier::external_body]
fn is_stun_response(buf: &[u8]) -> (response: bool)
    requires
        buf@.len() > 0,
    ensures
        response == (buf@[0] == 1),
{
    rust_p2p_core::stun::is_stun_response(buf)
}

/// The number in two bytes, the most significant first.
pub open spec fn number_at(bytes: Seq<u8>, i: int) -> int {
    bytes[i] * 0x100 + bytes[i + 1]
}

/// The largest length of an attribute that can be rounded up to a multiple of four in two bytes.
pub const MAX_ATTRIBUTE_LEN: usize = 0xfffc;

/// The lengths of attributes, one behind the other, can be rounded up, as far as they are read:
/// an attribute that is cut short or that is an address is the last. The attribute that names a
/// password algorithm holds an attribute of its own.
pub open spec fn attributes_fit(attributes: Seq<u8>) -> bool
    decreases attributes.len(),
{
    if attributes.len() < 4 {
        true
    } else {
        let kind = number_at(attributes, 0);
        let len = number_at(attributes, 2);
        let padded = (len + 3) / 4 * 4;
        &&& len <= MAX_ATTRIBUTE_LEN
        &&& kind == 0x1d && 4 <= len <= attributes.len() - 4 ==> number_at(attributes, 6)
            <= MAX_ATTRIBUTE_LEN
        &&& kind == 0x01 || kind == 0x20 || 4 + padded >= attributes.len() || attributes_fit(
            attributes.skip(4 + padded),
        )
    }
}

/// A response to a request of this crate's nodes, whose transaction ids have certain bits set.
pub open spec fn is_tagged(response: Seq<u8>) -> bool {
    &&& response[8] & 0x6c == 0x6c
    &&& response[9] & 0xee == 0xee
    &&& response[10] & 0x30 == 0x30
    &&& response[11] & 0xb8 == 0xb8
}

/// The lengths in the response of a server can be rounded up, as far as they are read. The
/// attributes lie behind the head of twenty bytes, which gives their length, and are read only where
/// the head tells that the response is for one of the nodes.
pub open spec fn stun_lengths_fit(response: Seq<u8>) -> bool {
    response.len() >= 20 && is_tagged(response) && 20 + number_at(response, 2) <= response.len()
        ==> attributes_fit(response.subrange(20, 20 + number_at(response, 2)))
}

/// Whether the lengths in the response of a server can be rounded up.
pub fn check_stun_lengths(response: &[u8]) -> (fit: bool)
    ensures
        fit == stun_lengths_fit(response@),
{
    if response.len() < 20 {
        return true;
    }
    if response[8] & 0x6c != 0x6c || response[9] & 0xee != 0xee || response[10] & 0x30 != 0x30
        || response[11] & 0xb8 != 0xb8 {
        return true;
    }
    let end: usize = 20 + (response[2] as usize * 0x100 + response[3] as usize);
    if end > response.len() {
        return true;
    }
    let ghost all = response@.subrange(20, end as int);
    let mut at: usize = 20;
    assert(response@.subrange(20, end as int) =~= response@.subrange(at as int, end as int));
    while at + 4 <= end
        invariant
            20 <= at <= end <= response@.len(),
            is_tagged(response@),
            end == 20 + number_at(response@, 2),
            all == response@.subrange(20, end as int),
            attributes_fit(all) == attributes_fit(response@.subrange(at as int, end as int)),
        ensures
            attributes_fit(all),
        decreases end - at,
    {
        let ghost rest = response@.subrange(at as int, end as int);
        assert(rest[0] == response@[at as int] && rest[1] == response@[at + 1]);
        assert(rest[2] == response@[at + 2] && rest[3] == response@[at + 3]);
        let kind: usize = response[at] as usize * 0x100 + response[at + 1] as usize;
        let len: usize = response[at + 2] as usize * 0x100 + response[at + 3] as usize;
        if len > MAX_ATTRIBUTE_LEN {
            return false;
        }
        if kind == 0x1d && 4 <= len && len <= end - at - 4 {
            assert(rest[6] == response@[at + 6] && rest[7] == response@[at + 7]);
            if response[at + 6] as usize * 0x100 + response[at + 7] as usize > MAX_ATTRIBUTE_LEN {
                return false;
            }
        }
        let padded: usize = (len + 3) / 4 * 4;
        if kind == 0x01 || kind == 0x20 || 4 + padded >= end - at {
            return true;
        }
        at = at + 4 + padded;
        assert(rest.skip(4 + padded as int) =~= response@.subrange(at as int, end as int));
    }
    true
}

/// The address in the response of a server, if there is one for this node.
pub uninterp spec fn stun_address(response: Seq<u8>) -> Option<SocketAddress>;

/// `rust_p2p_core::stun::recv_stun_response`: the address in the response of a server, which
/// depends on nothing but its bytes. The lengths of the attributes that it reads have to fit when
/// they are rounded up.
#[verifier::external_body]
fn recv_stun_response(buf: &[u8]) -> (address: Option<SocketAddress>)
    requires
        stun_lengths_fit(buf@),
    ensures
        address == stun_address(buf@),
{
    match rust_p2p_core::stun::recv_stun_response(buf) {
        Some(core::net::SocketAddr::V4(addr)) => {
            let [a, b, c, d] = addr.ip().octets();
            Some(SocketAddress::V4(Ipv4Address { a, b, c, d }, addr.port()))
        },
        Some(core::net::SocketAddr::V6(addr)) => {
            let octets = addr.ip().octets();
            Some(SocketAddress::V6(Ipv6Address { octets }, addr.port()))
        },
        None => None,
    }
}

/// What comes next with data that came in.
pub enum DataStep<'a> {
    /// The data is done with.
    Done,
    /// The data is of no use.
    Failed(PunchError),
    /// The data is a ping. The answer is sent back the way that it came, or the reason is told why
    /// there is none.
    Answer { peer_id: String, answer: Result<NetPacket<BytesMut>, PunchError> },
    /// The data is a pong, which measures a round trip time.
    Measured { peer_id: String, rtt: u32 },
    /// The data goes to a stream with the peer.
    Stream { peer_id: String, data: &'a [u8] },
}

/// The metric of a route that leads to a peer directly.
pub const DIRECT_METRIC: u8 = 0;

/// The way on which data came has been handed to the table as a direct route to the peer that the
/// data is from: with the round trip time that was measured, or for the case that the table has none
/// on this way yet.
pub open spec fn is_learnt(
    table: RouteTable<String>,
    key: RouteKey,
    step: DataStep<'_>,
) -> bool {
    match step {
        DataStep::Answer { peer_id, .. } => is_learnt_if_absent(table, key, peer_id@),
        DataStep::Measured { peer_id, rtt } => exists|answer: bool| #[trigger]
            took_route(table, peer_id@, route_on(key, DIRECT_METRIC, rtt), answer),
        DataStep::Stream { peer_id, .. } => is_learnt_if_absent(table, key, peer_id@),
        _ => true,
    }
}

/// A way has been handed to the table as a direct route to a peer, for the case that the table has
/// none on this way yet.
pub open spec fn is_learnt_if_absent(
    table: RouteTable<String>,
    key: RouteKey,
    peer_id: Seq<char>,
) -> bool {
    exists|answer: bool| #[trigger]
        took_absent_route(table, peer_id, route_on(key, DIRECT_METRIC, DEFAULT_RTT), answer)
}

/// The steps to which a packet can lead in a node, with the table of its routes and the way that the
/// packet came.
pub open spec fn is_packet_step(
    oneself_id: Seq<char>,
    table: RouteTable<String>,
    key: RouteKey,
    packet: Seq<u8>,
    step: DataStep<'_>,
) -> bool {
    if !well_formed(packet) {
        step == DataStep::Failed(
            if packet.len() < HEAD_LEN {
                PunchError::PacketTooShort
            } else {
                PunchError::PacketLenInvalid
            },
        )
    } else {
        let payload = packet.skip(HEAD_LEN as int);
        match protocol_field(packet) {
            Err(error) => step == DataStep::Failed(error),
            Ok(ProtocolType::Ping) => match read_ping_pong(payload) {
                Err(error) => step == DataStep::Failed(error),
                Ok((peer_id, time)) => is_ping_step(oneself_id, peer_id, time, step),
            },
            Ok(ProtocolType::Pong) => match read_ping_pong(payload) {
                Err(error) => step == DataStep::Failed(error),
                Ok((peer_id, time)) => is_some_pong_step(peer_id, time, step),
            },
            Ok(ProtocolType::KcpRaw) => is_some_stream_step(table, key, payload, step),
        }
    }
}

/// The step to which a ping leads: a pong with its time, from this node. One from the node itself
/// is refused.
pub open spec fn is_ping_step(
    oneself_id: Seq<char>,
    from: Seq<char>,
    time: u32,
    step: DataStep<'_>,
) -> bool {
    if from == oneself_id {
        step == DataStep::Failed(PunchError::ConnectToOneself)
    } else {
        &&& step matches DataStep::Answer { peer_id, answer }
        &&& peer_id@ == from
        &&& bytes_of(answer) == ping_pong_bytes(ProtocolType::Pong, oneself_id, time)
    }
}

/// The step to which a pong leads: the round trip time is the time that has passed since its
/// timestamp, or zero if that lies ahead.
pub open spec fn is_pong_step(
    from: Seq<char>,
    time: u32,
    now: Result<u32, PunchError>,
    step: DataStep<'_>,
) -> bool {
    match now {
        Err(error) => step == DataStep::Failed(error),
        Ok(now) => step matches DataStep::Measured { peer_id, rtt } && peer_id@ == from && rtt == (
        if now >= time {
            now - time
        } else {
            0
        }),
    }
}

/// The step to which a pong leads while the clock shows some time.
pub open spec fn is_some_pong_step(from: Seq<char>, time: u32, step: DataStep<'_>) -> bool {
    exists|clock: SystemTime| is_pong_step(from, time, #[trigger] timestamp_at(clock), step)
}

/// The step to which data for a stream leads, with the peer at the end of the way that it came.
/// Without a peer it is dropped.
pub open spec fn is_stream_step(
    peer: Option<Seq<char>>,
    payload: Seq<u8>,
    step: DataStep<'_>,
) -> bool {
    match peer {
        Some(peer) => step matches DataStep::Stream { peer_id, data } && peer_id@ == peer && data@
            == payload,
        None => step == DataStep::Done,
    }
}

/// The step to which data for a stream leads, by what the table of the routes says of the peer.
pub open spec fn is_some_stream_step(
    table: RouteTable<String>,
    key: RouteKey,
    payload: Seq<u8>,
    step: DataStep<'_>,
) -> bool {
    exists|peer: Option<Seq<char>>| #[trigger]
        gave_peer(table, key, peer) && is_stream_step(peer, payload, step)
}

/// Goes on with a ping.
pub fn ping_step(oneself_id: &String, from: &str, time: u32) -> (step: DataStep<'static>)
    ensures
        is_ping_step(oneself_id@, from@, time, step),
{
    let peer_id: String = from.to_owned();
    if peer_id == *oneself_id {
        return DataStep::Failed(PunchError::ConnectToOneself);
    }
    let answer = pong(oneself_id.as_str(), time);
    DataStep::Answer { peer_id, answer }
}

/// Goes on with a pong that came in at a time.
pub fn pong_step(from: &str, time: u32, now: Result<u32, PunchError>) -> (step: DataStep<'static>)
    ensures
        is_pong_step(from@, time, now, step),
{
    match now {
        Ok(now) => DataStep::Measured { peer_id: from.to_owned(), rtt: now.saturating_sub(time) },
        Err(error) => DataStep::Failed(error),
    }
}

/// Goes on with data for a stream, with the peer at the end of the way that it came.
pub fn stream_step<'a>(peer_id: Option<String>, data: &'a [u8]) -> (step: DataStep<'a>)
    ensures
        is_stream_step(text_of_id(peer_id), data@, step),
{
    match peer_id {
        Some(peer_id) => DataStep::Stream { peer_id, data },
        None => DataStep::Done,
    }
}

/// Goes on with data that is a packet, if it is one. The way that it came is learnt.
pub fn packet_handle<'a>(
    oneself_id: &String,
    router: &TunnelRouter,
    route_key: &RouteKey,
    buf: &'a [u8],
) -> (step: DataStep<'a>)
    ensures
        is_packet_step(oneself_id@, router.routes(), *route_key, buf@, step),
        is_learnt(router.routes(), *route_key, step),
{
    let step = packet_step(oneself_id, router, route_key, buf);
    router.learn(route_key, &step);
    step
}

/// The step to which data leads that is a packet, if it is one.
fn packet_step<'a>(
    oneself_id: &String,
    router: &TunnelRouter,
    route_key: &RouteKey,
    buf: &'a [u8],
) -> (step: DataStep<'a>)
    ensures
        is_packet_step(oneself_id@, router.routes(), *route_key, buf@, step),
{
    let packet = match NetPacket::new(buf) {
        Ok(packet) => packet,
        Err(error) => return DataStep::Failed(error),
    };
    let protocol = match packet.protocol() {
        Ok(protocol) => protocol,
        Err(error) => return DataStep::Failed(error),
    };
    let payload = slice_subrange(buf, HEAD_LEN, buf.len());
    assert(payload@ =~= buf@.skip(HEAD_LEN as int));
    match protocol {
        ProtocolType::Ping => match convert_ping_pong(payload) {
            Ok((peer_id, time)) => ping_step(oneself_id, peer_id, time),
            Err(error) => DataStep::Failed(error),
        },
        ProtocolType::Pong => match convert_ping_pong(payload) {
            Ok((peer_id, time)) => {
                let now = now();
                let step = pong_step(peer_id, time, now);
                assert(is_some_pong_step(peer_id@, time, step));
                step
            },
            Err(error) => DataStep::Failed(error),
        },
        ProtocolType::KcpRaw => {
            let step = stream_step(router.peer_of(route_key), payload);
            assert(is_some_stream_step(router.routes(), *route_key, payload@, step));
            step
        },
    }
}

/// Goes on with data that was read as the response of a server. The node takes up the address in
/// it; data without an address may still be a packet.
pub fn response_handle<'a>(
    context: &mut PunchContext,
    router: &TunnelRouter,
    route_key: &RouteKey,
    index: SocketIndex,
    buf: &'a [u8],
    address: Option<SocketAddress>,
) -> (step: DataStep<'a>)
    ensures
        final(context).same_node(&*old(context)),
        is_learnt(router.routes(), *route_key, step),
        match address {
            Some(address) => step == DataStep::Done && final(context).info() == old(
                context,
            ).info().with_public_addr(index, address),
            None => final(context).info() == old(context).info() && is_packet_step(
                old(context).oneself_id@,
                router.routes(),
                *route_key,
                buf@,
                step,
            ),
        },
{
    match address {
        Some(address) => {
            context.update_public_addr(index, address);
            DataStep::Done
        },
        None => packet_handle(&context.oneself_id, router, route_key, buf),
    }
}

/// Deals with data that came in on a way through one of the node's sockets. The response of a server
/// tells the node an address, and anything else is a packet, if it is of any use.
pub fn data_handle<'a>(
    context: &mut PunchContext,
    router: &TunnelRouter,
    route_key: &RouteKey,
    index: SocketIndex,
    buf: &'a [u8],
) -> (step: DataStep<'a>)
    requires
        buf@.len() > 0,
        buf@[0] == 1 ==> stun_lengths_fit(buf@),
    ensures
        final(context).same_node(&*old(context)),
        is_learnt(router.routes(), *route_key, step),
        if buf@[0] == 1 && stun_address(buf@) is Some {
            step == DataStep::Done && final(context).info() == old(context).info().with_public_addr(
                index,
                stun_address(buf@)->0,
            )
        } else {
            final(context).info() == old(context).info() && is_packet_step(
                old(context).oneself_id@,
                router.routes(),
                *route_key,
                buf@,
                step,
            )
        },
{
    if is_stun_response(buf) {
        let address = recv_stun_response(buf);
        return response_handle(context, router, route_key, index, buf, address);
    }
    packet_handle(&context.oneself_id, router, route_key, buf)
}

/// A ping that a node makes is not mistaken for the response of a server, and leads to an answer to
/// that node.
pub proof fn lemma_ping_is_answered(
    oneself_id: Seq<char>,
    table: RouteTable<String>,
    key: RouteKey,
    id: Seq<char>,
    time: u32,
    ping: Seq<u8>,
    step: DataStep<'_>,
)
    requires
        ping_pong_bytes(ProtocolType::Ping, id, time) == Ok::<Seq<u8>, PunchError>(ping),
        is_packet_step(oneself_id, table, key, ping, step),
    ensures
        ping[0] != 1,
        is_ping_step(oneself_id, id, time, step),
{
    lemma_filled_ping_pong_reads_back(ProtocolType::Ping, id, time);
}

/// A pong that a node makes is not mistaken for the response of a server, and leads to a route to
/// that node with the time that has passed since the ping.
pub proof fn lemma_pong_is_measured(
    oneself_id: Seq<char>,
    table: RouteTable<String>,
    key: RouteKey,
    id: Seq<char>,
    time: u32,
    pong: Seq<u8>,
    step: DataStep<'_>,
)
    requires
        ping_pong_bytes(ProtocolType::Pong, id, time) == Ok::<Seq<u8>, PunchError>(pong),
        is_packet_step(oneself_id, table, key, pong, step),
    ensures
        pong[0] != 1,
        is_some_pong_step(id, time, step),
{
    lemma_filled_ping_pong_reads_back(ProtocolType::Pong, id, time);
}

/// A packet of a stream is not mistaken for the response of a server. It comes from the peer at the
/// end of its way with the data that went in, or is dropped where that peer is not known.
pub proof fn lemma_stream_data_comes_out(
    oneself_id: Seq<char>,
    table: RouteTable<String>,
    key: RouteKey,
    data: Seq<u8>,
    step: DataStep<'_>,
)
    requires
        HEAD_LEN + data.len() < 0x1_0000,
        is_packet_step(oneself_id, table, key, stream_packet(data), step),
    ensures
        stream_packet(data)[0] != 1,
        is_some_stream_step(table, key, data, step),
{
    let blank = seq![0u8, 0u8, 0u8, 0u8] + data;
    lemma_set_packet_reads_back(blank, ProtocolType::KcpRaw);
    assert(blank.skip(HEAD_LEN as int) =~= data);
}

/// The most datagrams that are taken from a socket at once.
pub const BATCH_LEN: usize = 16;

/// The most bytes that are taken of one datagram.
pub const DATAGRAM_LEN: usize = 65536;

/// The buffers for a batch of datagrams.
pub fn batch_buffers() -> (buffers: Vec<BytesMut>)
    ensures
        buffers@.len() == BATCH_LEN,
        forall|i: int|
            0 <= i < BATCH_LEN ==> contents(#[trigger] buffers@[i]) == Seq::new(
                DATAGRAM_LEN as nat,
                |k: int| 0u8,
            ),
{
    let mut buffers: Vec<BytesMut> = Vec::with_capacity(BATCH_LEN);
    while buffers.len() < BATCH_LEN
        invariant
            buffers@.len() <= BATCH_LEN,
            forall|i: int|
                0 <= i < buffers@.len() ==> contents(#[trigger] buffers@[i]) == Seq::new(
                    DATAGRAM_LEN as nat,
                    |k: int| 0u8,
                ),
        decreases BATCH_LEN - buffers@.len(),
    {
        buffers.push(zeroed(DATAGRAM_LEN));
    }
    buffers
}

/// The datagrams of a batch, out of the buffers and the lengths that were written to.
pub fn batch<'a>(buffers: &'a Vec<BytesMut>, sizes: &Vec<usize>, count: usize) -> (datagrams: Vec<
    &'a [u8],
>)
    requires
        count <= buffers@.len(),
        count <= sizes@.len(),
        forall|i: int| 0 <= i < count ==> sizes@[i] <= contents(#[trigger] buffers@[i]).len(),
    ensures
        datagrams@.len() == count,
        forall|i: int|
            0 <= i < count ==> (#[trigger] datagrams@[i])@ == contents(buffers@[i]).take(
                sizes@[i] as int,
            ),
{
    let mut datagrams: Vec<&'a [u8]> = Vec::new();
    for index in 0..count
        invariant
            count <= buffers@.len(),
            count <= sizes@.len(),
            forall|i: int| 0 <= i < count ==> sizes@[i] <= contents(#[trigger] buffers@[i]).len(),
            datagrams@.len() == index,
            forall|i: int|
                0 <= i < index ==> (#[trigger] datagrams@[i])@ == contents(buffers@[i]).take(
                    sizes@[i] as int,
                ),
    {
        let len: usize = sizes[index];
        assert(len <= contents(buffers@[index as int]).len());
        let datagram = slice_subrange(as_slice(&buffers[index]), 0, len);
        assert(datagram@ =~= contents(buffers@[index as int]).take(len as int));
        datagrams.push(datagram);
    }
    datagrams
}

} // verus!
