//! A node's own state, and the steps of a hole punching attempt.
use crate::error::PunchError;
use crate::kcp_stream::{opened, KcpContext, KcpStream};
use crate::network::{
    Ipv4Address, Ipv6Address, NatInfo, NatInfoView, NatType, SocketAddress, SocketIndex,
};
use crate::protocol::{bytes_of, ping, ping_bytes_at, NetPacket};
use crate::tunnel::{gave_directness, is_reachable_by, TunnelRouter};
use bytes::BytesMut;
use rand::seq::SliceRandom;
use rust_p2p_core::punch::{PunchInfo, Puncher as CorePuncher};
use rust_p2p_core::route::route_table::RouteTable;
use std::time::SystemTime;
use vstd::prelude::*;
use vstd::utf8::encode_utf8;

verus! {

/// The texts of several strings.
pub open spec fn texts(strings: Seq<String>) -> Seq<Seq<char>> {
    Seq::new(strings.len(), |i: int| strings[i]@)
}

/// How many servers one test of the network asks.
pub const SERVERS_PER_TEST: usize = 3;

/// `SliceRandom::shuffle` with `rand::thread_rng`: the same strings in some order. Which order is
/// left to chance.
#[verifier::external_body]
fn shuffle(strings: &mut Vec<String>)
    ensures
        final(strings)@.to_multiset() == old(strings)@.to_multiset(),
{
    strings.shuffle(&mut rand::thread_rng())
}

/// The servers to be asked, out of all of them in some order: the first few.
pub fn servers_to_ask(shuffled: Vec<String>) -> (servers: Vec<String>)
    ensures
        servers@ == (if shuffled@.len() > SERVERS_PER_TEST {
            shuffled@.take(SERVERS_PER_TEST as int)
        } else {
            shuffled@
        }),
{
    let mut servers = shuffled;
    if servers.len() > SERVERS_PER_TEST {
        servers.truncate(SERVERS_PER_TEST);
        assert(servers@ =~= shuffled@.take(SERVERS_PER_TEST as int));
    }
    servers
}

/// What a node knows of itself.
#[derive(Debug)]
pub struct PunchContext {
    pub oneself_id: String,
    pub tcp_stun_servers: Vec<String>,
    pub udp_stun_servers: Vec<String>,
    pub nat_info: NatInfo,
}

impl PunchContext {
    /// What is known of the network.
    pub open spec fn info(&self) -> NatInfoView {
        self.nat_info@
    }

    /// Everything but what is known of the network is the same.
    pub open spec fn same_node(&self, other: &PunchContext) -> bool {
        &&& self.oneself_id == other.oneself_id
        &&& self.tcp_stun_servers == other.tcp_stun_servers
        &&& self.udp_stun_servers == other.udp_stun_servers
    }

    pub fn new(
        oneself_id: String,
        tcp_stun_servers: Vec<String>,
        udp_stun_servers: Vec<String>,
        local_udp_ports: Vec<u16>,
        local_tcp_port: u16,
    ) -> (context: PunchContext)
        ensures
            context.oneself_id == oneself_id,
            context.tcp_stun_servers == tcp_stun_servers,
            context.udp_stun_servers == udp_stun_servers,
            context.info() == NatInfoView::initial(local_udp_ports@, local_tcp_port),
            context.info().wf(),
    {
        PunchContext {
            oneself_id,
            tcp_stun_servers,
            udp_stun_servers,
            nat_info: NatInfo::initial(local_udp_ports, local_tcp_port),
        }
    }

    /// Takes up what a test of the network has found. Only global addresses are taken.
    pub fn set_public_info(
        &mut self,
        nat_type: NatType,
        ips: Vec<Ipv4Address>,
        public_port_range: u16,
    )
        ensures
            final(self).same_node(&*old(self)),
            final(self).info() == old(self).info().with_public_info(
                nat_type,
                ips@,
                public_port_range,
            ),
    {
        self.nat_info.set_public_info(nat_type, ips, public_port_range);
    }

    /// Takes up the public address of the TCP service.
    pub fn update_tcp_public_addr(&mut self, addr: SocketAddress)
        ensures
            final(self).same_node(&*old(self)),
            final(self).info() == old(self).info().with_tcp_public_addr(addr),
    {
        self.nat_info.update_tcp_public_addr(addr);
    }

    /// Takes up the public address of a socket.
    pub fn update_public_addr(&mut self, index: SocketIndex, addr: SocketAddress)
        ensures
            final(self).same_node(&*old(self)),
            final(self).info() == old(self).info().with_public_addr(index, addr),
    {
        self.nat_info.update_public_addr(index, addr);
    }

    /// Takes up the local addresses, as far as they were found.
    pub fn update_local_addr(
        &mut self,
        local_ipv4: Option<Ipv4Address>,
        local_ipv6: Option<Ipv6Address>,
    )
        ensures
            final(self).same_node(&*old(self)),
            final(self).info() == old(self).info().with_local_addr(local_ipv4, local_ipv6),
    {
        self.nat_info.update_local_addr(local_ipv4, local_ipv6);
    }

    /// The servers to be asked in a test of the network: all of them, or some few.
    pub fn stun_servers(&self) -> (servers: Vec<String>)
        ensures
            exists|shuffled: Seq<String>| #[trigger]
                shuffled.to_multiset() == self.udp_stun_servers@.to_multiset() && servers@ == (
                if shuffled.len() > SERVERS_PER_TEST {
                    shuffled.take(SERVERS_PER_TEST as int)
                } else {
                    shuffled
                }),
            servers@.len() == (if self.udp_stun_servers@.len() > SERVERS_PER_TEST {
                SERVERS_PER_TEST as nat
            } else {
                self.udp_stun_servers@.len()
            }),
    {
        let mut shuffled = self.udp_stun_servers.clone();
        assert(shuffled@ =~= self.udp_stun_servers@);
        shuffle(&mut shuffled);
        proof {
            self.udp_stun_servers@.to_multiset_ensures();
            shuffled@.to_multiset_ensures();
        }
        servers_to_ask(shuffled)
    }

    /// Takes up the outcome of a test of the network, and tells what is known then. A test that
    /// failed leaves everything as it was.
    pub fn update_nat_info(&mut self, found: Option<(NatType, Vec<Ipv4Address>, u16)>) -> (info:
        Option<NatInfo>)
        ensures
            final(self).same_node(&*old(self)),
            match found {
                Some((nat_type, ips, range)) => {
                    &&& final(self).info() == old(self).info().with_public_info(
                        nat_type,
                        ips@,
                        range,
                    )
                    &&& info matches Some(info) && info@ == final(self).info()
                },
                None => info is None && final(self).info() == old(self).info(),
            },
    {
        match found {
            Some((nat_type, ips, range)) => {
                self.set_public_info(nat_type, ips, range);
                Some(self.nat_info())
            },
            None => None,
        }
    }

    /// What is known of the network.
    pub fn nat_info(&self) -> (info: NatInfo)
        ensures
            info@ == self.info(),
    {
        self.nat_info.copy()
    }
}

/// The servers that tell a TCP socket its public address.
pub open spec fn default_tcp_servers() -> Seq<Seq<char>> {
    seq!["stun.flashdance.cx"@, "stun.sipnet.net"@, "stun.nextcloud.com:443"@]
}

/// The servers that tell a UDP socket its public address.
pub open spec fn default_udp_servers() -> Seq<Seq<char>> {
    seq![
        "stun.miwifi.com"@,
        "stun.chat.bilibili.com"@,
        "stun.hitv.com"@,
        "stun.l.google.com:19302"@,
        "stun1.l.google.com:19302"@,
        "stun2.l.google.com:19302"@,
    ]
}

/// The longest id that a node can have, in bytes.
pub const MAX_ID_LEN: usize = 255;

/// Refuses an id that a ping could not carry.
pub fn check_oneself_id(oneself_id: &str) -> (checked: Result<(), PunchError>)
    ensures
        checked == (if encode_utf8(oneself_id@).len() > MAX_ID_LEN {
            Err(PunchError::OneselfIdTooLong)
        } else {
            Ok(())
        }),
{
    if oneself_id.as_bytes().len() > MAX_ID_LEN {
        return Err(PunchError::OneselfIdTooLong);
    }
    Ok(())
}

/// A node with the servers that it asks by default. The TCP port and the UDP ports are those of
/// its sockets, where it has such sockets.
pub fn new_tunnel_component(
    oneself_id: String,
    tcp_port: Option<u16>,
    udp_ports: Option<Vec<u16>>,
) -> (context: Result<PunchContext, PunchError>)
    ensures
        match context {
            Ok(context) => {
                &&& encode_utf8(oneself_id@).len() <= MAX_ID_LEN
                &&& context.oneself_id == oneself_id
                &&& texts(context.tcp_stun_servers@) == default_tcp_servers()
                &&& texts(context.udp_stun_servers@) == default_udp_servers()
                &&& context.info() == NatInfoView::initial(
                    match udp_ports {
                        Some(ports) => ports@,
                        None => Seq::empty(),
                    },
                    match tcp_port {
                        Some(port) => port,
                        None => 0,
                    },
                )
            },
            Err(error) => encode_utf8(oneself_id@).len() > MAX_ID_LEN && error
                == PunchError::OneselfIdTooLong,
        },
{
    match check_oneself_id(oneself_id.as_str()) {
        Ok(()) => {},
        Err(error) => return Err(error),
    }
    let local_tcp_port: u16 = match tcp_port {
        Some(port) => port,
        None => 0,
    };
    let local_udp_ports: Vec<u16> = match udp_ports {
        Some(ports) => ports,
        None => Vec::new(),
    };
    let tcp_stun_servers = vec![
        "stun.flashdance.cx".to_owned(),
        "stun.sipnet.net".to_owned(),
        "stun.nextcloud.com:443".to_owned(),
    ];
    let udp_stun_servers = vec![
        "stun.miwifi.com".to_owned(),
        "stun.chat.bilibili.com".to_owned(),
        "stun.hitv.com".to_owned(),
        "stun.l.google.com:19302".to_owned(),
        "stun1.l.google.com:19302".to_owned(),
        "stun2.l.google.com:19302".to_owned(),
    ];
    assert(texts(tcp_stun_servers@) =~= default_tcp_servers());
    assert(texts(udp_stun_servers@) =~= default_udp_servers());
    Ok(
        PunchContext::new(
            oneself_id,
            tcp_stun_servers,
            udp_stun_servers,
            local_udp_ports,
            local_tcp_port,
        ),
    )
}

#[verifier::external_type_specification]
#[verifier::external_body]
pub struct ExCorePuncher(CorePuncher);

#[verifier::external_type_specification]
#[verifier::external_body]
pub struct ExPunchInfo(PunchInfo);

/// A yes or no is an answer that a puncher has given to the question whether this is the time for
/// an attempt to reach a peer. At another time it may give another.
pub uninterp spec fn gave_need(puncher: CorePuncher, punch_info: PunchInfo, needed: bool) -> bool;

/// `rust_p2p_core::punch::Puncher::need_punch`: whether this is the time for an attempt. It depends
/// on the attempts before, so it is claimed only that this puncher has given the answer for this
/// peer.
#[verifier::external_body]
fn need_punch(puncher: &CorePuncher, punch_info: &PunchInfo) -> (needed: bool)
    ensures
        gave_need(*puncher, *punch_info, needed),
{
    puncher.need_punch(punch_info)
}

/// What comes next in a hole punching attempt.
pub enum PunchStep {
    /// The attempt is over.
    Finish(Result<(), PunchError>),
    /// It is asked whether this is the time for an attempt.
    AskPuncher,
    /// It is asked whether the peer is connected directly already.
    AskRoutes,
    /// The packet is sent to wherever the peer may be.
    Send(NetPacket<BytesMut>),
}

/// The step that makes a ping while the clock shows a time: the ping is sent, or the reason is told
/// why there is none.
pub open spec fn is_ping_at(clock: SystemTime, oneself_id: Seq<char>, step: PunchStep) -> bool {
    match ping_bytes_at(clock, oneself_id) {
        Ok(bytes) => step matches PunchStep::Send(packet) && packet@ == bytes,
        Err(error) => step == PunchStep::Finish(Err(error)),
    }
}

/// The step of an attempt with whether the peer is connected directly already. If not, a ping is
/// made.
pub open spec fn is_unrouted_step(oneself_id: Seq<char>, direct: bool, step: PunchStep) -> bool {
    if direct {
        step == PunchStep::Finish(Ok(()))
    } else {
        exists|clock: SystemTime| #[trigger] is_ping_at(clock, oneself_id, step)
    }
}

/// The step of an attempt with whether this is the time for it. If so, the table of the routes says
/// whether the peer is connected directly already.
pub open spec fn is_needed_step(
    oneself_id: Seq<char>,
    table: RouteTable<String>,
    peer_id: Seq<char>,
    needed: bool,
    step: PunchStep,
) -> bool {
    if needed {
        exists|direct: bool| #[trigger]
            gave_directness(table, peer_id, direct) && is_unrouted_step(oneself_id, direct, step)
    } else {
        step == PunchStep::Finish(Ok(()))
    }
}

/// Punches holes for a node.
pub struct Puncher {
    oneself_id: String,
    puncher: CorePuncher,
    tunnel_router: TunnelRouter,
}

impl Puncher {
    /// The id of the node.
    pub closed spec fn id(&self) -> Seq<char> {
        self.oneself_id@
    }

    /// What sends the packets of an attempt.
    pub closed spec fn spec_sender(&self) -> CorePuncher {
        self.puncher
    }

    /// What finds the way to peers.
    pub closed spec fn spec_router(&self) -> TunnelRouter {
        self.tunnel_router
    }

    pub fn new(oneself_id: String, puncher: CorePuncher, tunnel_router: TunnelRouter) -> (new: Self)
        ensures
            new.id() == oneself_id@,
            new.spec_sender() == puncher,
            new.spec_router() == tunnel_router,
    {
        Puncher { oneself_id, puncher, tunnel_router }
    }

    /// What sends the packets of an attempt.
    pub fn sender(&self) -> (puncher: &CorePuncher)
        ensures
            *puncher == self.spec_sender(),
    {
        &self.puncher
    }

    /// What finds the way to peers.
    pub fn router(&self) -> (router: &TunnelRouter)
        ensures
            *router == self.spec_router(),
    {
        &self.tunnel_router
    }

    /// What is known of the network.
    pub fn nat_info(&self, context: &PunchContext) -> (info: NatInfo)
        ensures
            info@ == context.info(),
    {
        context.nat_info()
    }

    /// Makes an attempt to reach a peer, up to the ping that is sent. `locked` says that no other
    /// attempt is under way.
    pub fn punch(&self, locked: bool, peer_id: &String, punch_info: &PunchInfo) -> (step: PunchStep)
        ensures
            if !locked {
                step == PunchStep::Finish(Ok(()))
            } else if peer_id@ == self.id() {
                step == PunchStep::Finish(Err(PunchError::ConnectToOneself))
            } else {
                exists|needed: bool| #[trigger]
                    gave_need(self.spec_sender(), *punch_info, needed) && is_needed_step(
                        self.id(),
                        self.spec_router().routes(),
                        peer_id@,
                        needed,
                        step,
                    )
            },
    {
        let step = self.punch_allowed(locked, peer_id);
        match step {
            PunchStep::AskPuncher => {},
            step => return step,
        }
        let needed = need_punch(&self.puncher, punch_info);
        let step = self.punch_needed(needed);
        match step {
            PunchStep::AskRoutes => {
                let direct = self.tunnel_router.no_need_punch(peer_id);
                let step = self.punch_unrouted(direct);
                assert(gave_directness(self.spec_router().routes(), peer_id@, direct)
                    && is_unrouted_step(self.id(), direct, step));
                assert(gave_need(self.spec_sender(), *punch_info, needed));
                step
            },
            step => {
                assert(gave_need(self.spec_sender(), *punch_info, needed));
                step
            },
        }
    }

    /// Starts an attempt. While another one is under way, nothing is done.
    pub fn punch_allowed(&self, locked: bool, peer_id: &String) -> (step: PunchStep)
        ensures
            step == (if !locked {
                PunchStep::Finish(Ok(()))
            } else if peer_id@ == self.id() {
                PunchStep::Finish(Err(PunchError::ConnectToOneself))
            } else {
                PunchStep::AskPuncher
            }),
    {
        if !locked {
            return PunchStep::Finish(Ok(()));
        }
        if *peer_id == self.oneself_id {
            return PunchStep::Finish(Err(PunchError::ConnectToOneself));
        }
        PunchStep::AskPuncher
    }

    /// Goes on with whether this is the time for an attempt.
    pub fn punch_needed(&self, need_punch: bool) -> (step: PunchStep)
        ensures
            step == (if need_punch {
                PunchStep::AskRoutes
            } else {
                PunchStep::Finish(Ok(()))
            }),
    {
        if !need_punch {
            return PunchStep::Finish(Ok(()));
        }
        PunchStep::AskRoutes
    }

    /// Goes on with whether the peer is connected directly already. If not, a ping is sent, or the
    /// reason is told why there is none.
    pub fn punch_unrouted(&self, no_need_punch: bool) -> (step: PunchStep)
        ensures
            is_unrouted_step(self.id(), no_need_punch, step),
    {
        if no_need_punch {
            return PunchStep::Finish(Ok(()));
        }
        let packet = ping(self.oneself_id.as_str());
        let ghost clock = choose|clock: SystemTime|
            bytes_of(packet) == #[trigger] ping_bytes_at(clock, self.id());
        let step = match packet {
            Ok(packet) => PunchStep::Send(packet),
            Err(error) => PunchStep::Finish(Err(error)),
        };
        assert(is_ping_at(clock, self.id(), step));
        step
    }

    /// Whether there is a route to a peer. The routes change at any time.
    pub fn is_reachable(&self, peer_id: &String) -> (reachable: bool)
        ensures
            is_reachable_by(self.spec_router().routes(), peer_id@, reachable),
    {
        self.tunnel_router.is_reachable(peer_id)
    }

    /// Opens a stream to a peer that can be reached, but not to the node itself. `sender` is the
    /// value through which packets reach the stream.
    pub fn connect<V>(&self, context: &mut KcpContext<V>, peer_id: String, sender: V) -> (stream:
        Result<KcpStream, PunchError>)
        requires
            old(context).wf(),
        ensures
            final(context).wf(),
            if peer_id@ == self.id() {
                &&& stream == Err::<KcpStream, PunchError>(PunchError::ConnectToOneself)
                &&& *final(context) == *old(context)
            } else {
                &&& final(context).next_conv() == (old(context).next_conv() + 1) % 0x1_0000_0000
                &&& opened(
                    old(context).streams(),
                    final(context).streams(),
                    (peer_id@, old(context).next_conv()),
                    sender,
                    stream,
                )
            },
    {
        if peer_id == self.oneself_id {
            return Err(PunchError::ConnectToOneself);
        }
        context.new_stream(peer_id, sender)
    }
}

} // verus!
