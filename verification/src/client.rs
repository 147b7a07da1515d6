//! A client's connection to a peer: relayed by a server, and direct where that is possible.
use crate::error::PunchError;
use crate::kcp_stream::{opened, KcpContext, KcpStream};
use crate::punch::Puncher;
use crate::tunnel::is_reachable_by;
use bytes::BytesMut;
use vstd::prelude::*;

verus! {

/// The way that a message takes.
#[derive(Clone, Copy, Debug, PartialEq, Eq, Structural)]
pub enum Way {
    /// The direct stream.
    Direct,
    /// The relay.
    Relay,
}

/// What came in, or that nothing more comes, and from where.
pub enum Incoming<E> {
    Direct(Option<Result<BytesMut, E>>),
    Relay(Option<Result<BytesMut, E>>),
}

/// A connection to a peer.
pub struct ClientFramedStream<F> {
    pub peer_id: String,
    /// The stream that a server relays.
    pub relay_framed: F,
    /// The direct stream, while there is one.
    pub kcp_framed: Option<F>,
}

/// An attempt to open the direct stream, with whether the peer can be reached. It is made only
/// where there is none yet and the peer is another node that can be reached.
pub open spec fn is_attempt<V>(
    direct: bool,
    reachable: bool,
    oneself_id: Seq<char>,
    peer_id: Seq<char>,
    sender: V,
    before: KcpContext<V>,
    after: KcpContext<V>,
    stream: Option<KcpStream>,
) -> bool {
    if direct || !reachable || peer_id == oneself_id {
        stream is None && after == before
    } else {
        &&& after.next_conv() == (before.next_conv() + 1) % 0x1_0000_0000
        &&& opened(
            before.streams(),
            after.streams(),
            (peer_id, before.next_conv()),
            sender,
            match stream {
                Some(stream) => Ok::<KcpStream, PunchError>(stream),
                None => Err::<KcpStream, PunchError>(PunchError::StreamExists),
            },
        )
    }
}

/// The first way of a message. The direct stream is dropped if the peer cannot be reached any more.
pub open spec fn is_send_way<F>(
    before: ClientFramedStream<F>,
    reachable: bool,
    way: Way,
    after: ClientFramedStream<F>,
) -> bool {
    &&& after.same_relay(&before)
    &&& if before.kcp_framed is Some && reachable {
        way == Way::Direct && after.kcp_framed == before.kcp_framed
    } else {
        way == Way::Relay && after.kcp_framed is None
    }
}

/// The way of a message after the direct stream. A direct stream that has not taken the message is
/// dropped.
pub open spec fn is_way_after_direct<F>(
    before: ClientFramedStream<F>,
    sent: bool,
    way: Option<Way>,
    after: ClientFramedStream<F>,
) -> bool {
    &&& after.same_relay(&before)
    &&& if sent {
        way is None && after.kcp_framed == before.kcp_framed
    } else {
        way == Some(Way::Relay) && after.kcp_framed is None
    }
}

impl<F> ClientFramedStream<F> {
    /// A connection that is relayed only.
    pub fn new(peer_id: String, relay_framed: F) -> (stream: Self)
        ensures
            stream.peer_id == peer_id,
            stream.relay_framed == relay_framed,
            stream.kcp_framed is None,
    {
        ClientFramedStream { peer_id, relay_framed, kcp_framed: None }
    }

    /// Everything but the direct stream is the same.
    pub open spec fn same_relay(&self, other: &Self) -> bool {
        self.peer_id == other.peer_id && self.relay_framed == other.relay_framed
    }

    /// Opens a stream for a direct connection, where there is none yet and the peer can be reached.
    /// `sender` is the value through which packets reach the stream.
    pub fn try_create_kcp_stream<V>(
        &self,
        puncher: &Puncher,
        context: &mut KcpContext<V>,
        sender: V,
    ) -> (stream: Option<KcpStream>)
        requires
            old(context).wf(),
        ensures
            final(context).wf(),
            exists|reachable: bool| #[trigger]
                is_reachable_by(puncher.spec_router().routes(), self.peer_id@, reachable)
                    && is_attempt(
                    self.kcp_framed is Some,
                    reachable,
                    puncher.id(),
                    self.peer_id@,
                    sender,
                    *old(context),
                    *final(context),
                    stream,
                ),
    {
        let reachable = puncher.is_reachable(&self.peer_id);
        self.create_if_reachable(reachable, puncher, context, sender)
    }

    /// Opens a stream for a direct connection, where there is none yet and the peer can be reached.
    pub fn create_if_reachable<V>(
        &self,
        reachable: bool,
        puncher: &Puncher,
        context: &mut KcpContext<V>,
        sender: V,
    ) -> (stream: Option<KcpStream>)
        requires
            old(context).wf(),
        ensures
            final(context).wf(),
            is_attempt(
                self.kcp_framed is Some,
                reachable,
                puncher.id(),
                self.peer_id@,
                sender,
                *old(context),
                *final(context),
                stream,
            ),
    {
        if self.kcp_framed.is_some() {
            return None;
        }
        if reachable {
            if let Ok(stream) = puncher.connect(context, self.peer_id.clone(), sender) {
                return Some(stream);
            }
        }
        None
    }

    /// The way that a message takes first. The direct stream is dropped if the peer cannot be
    /// reached any more.
    pub fn send_way(&mut self, reachable: bool) -> (way: Way)
        ensures
            is_send_way(*old(self), reachable, way, *final(self)),
    {
        if self.kcp_framed.is_some() {
            if reachable {
                return Way::Direct;
            }
            self.kcp_framed = None;
        }
        Way::Relay
    }

    /// The way that a message takes after the direct stream, if it still has to take one. A direct
    /// stream that has not taken the message is dropped.
    pub fn direct_sent(&mut self, sent: bool) -> (way: Option<Way>)
        ensures
            is_way_after_direct(*old(self), sent, way, *final(self)),
    {
        if sent {
            return None;
        }
        self.kcp_framed = None;
        Some(Way::Relay)
    }

    /// What to return of what came in, or nothing if the wait goes on. A direct stream that brings
    /// anything but data is dropped, and what the relay brings is returned as it is.
    pub fn next<E>(&mut self, incoming: Incoming<E>) -> (returned: Option<
        Option<Result<BytesMut, E>>,
    >)
        requires
            old(self).kcp_framed is Some,
        ensures
            final(self).same_relay(&*old(self)),
            match incoming {
                Incoming::Direct(Some(Ok(data))) => {
                    &&& returned == Some(Some(Ok::<BytesMut, E>(data)))
                    &&& final(self).kcp_framed == old(self).kcp_framed
                },
                Incoming::Direct(_) => returned is None && final(self).kcp_framed is None,
                Incoming::Relay(message) => returned == Some(message) && final(self).kcp_framed
                    == old(self).kcp_framed,
            },
    {
        match incoming {
            Incoming::Direct(Some(Ok(data))) => Some(Some(Ok(data))),
            Incoming::Direct(_) => {
                self.kcp_framed = None;
                None
            },
            Incoming::Relay(message) => Some(message),
        }
    }
}

/// The ways that a message takes, one after the other: first the direct stream where there is one
/// and the peer can be reached, and then the relay unless the direct stream has taken the message.
pub open spec fn ways(direct: bool, reachable: bool, sent: bool) -> Seq<Way> {
    if direct && reachable {
        if sent {
            seq![Way::Direct]
        } else {
            seq![Way::Direct, Way::Relay]
        }
    } else {
        seq![Way::Relay]
    }
}

/// A message always takes some way, never the relay once the direct stream has taken it, and the
/// relay in every other case. The direct stream stays exactly if it has taken the message.
pub proof fn lemma_message_finds_a_way<F>(
    start: ClientFramedStream<F>,
    between: ClientFramedStream<F>,
    end: ClientFramedStream<F>,
    reachable: bool,
    sent: bool,
    first: Way,
    second: Option<Way>,
)
    requires
        is_send_way(start, reachable, first, between),
        if first == Way::Direct {
            is_way_after_direct(between, sent, second, end)
        } else {
            second is None && end == between
        },
    ensures
        end.same_relay(&start),
        ways(start.kcp_framed is Some, reachable, sent) == (match second {
            Some(second) => seq![first, second],
            None => seq![first],
        }),
        ways(start.kcp_framed is Some, reachable, sent).contains(Way::Relay) <==> !(
        start.kcp_framed is Some && reachable && sent),
        end.kcp_framed is Some <==> start.kcp_framed is Some && reachable && sent,
{
    let all = ways(start.kcp_framed is Some, reachable, sent);
    if start.kcp_framed is Some && reachable {
        if !sent {
            assert(all[1] == Way::Relay);
        }
    } else {
        assert(all[0] == Way::Relay);
    }
}

} // verus!
