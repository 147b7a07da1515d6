//! Laws of a client's connection.
use crate::client::{ClientFramedStream, Incoming, Way};
use crate::kcp_stream::{KcpContext, KcpStream};
use crate::laws::kcp_stream::follows;
use crate::punch::Puncher;
use crate::tunnel::gave_first_route;
use bytes::BytesMut;
use rust_p2p_core::route::route_table::Route;
use vstd::prelude::*;

verus! {

/// A connection starts with the peer and the relay that it is made with, and without a direct stream:
/// its first message takes the relay, whether the peer can be reached or not.
pub proof fn lemma_connection_starts_relayed<F>(
    peer_id: String,
    relay: F,
    made: ClientFramedStream<F>,
    stream: &mut ClientFramedStream<F>,
    reachable: bool,
    way: Way,
)
    requires
        call_ensures(ClientFramedStream::<F>::new, (peer_id, relay), made),
        *old(stream) == made,
        call_ensures(ClientFramedStream::<F>::send_way, (stream, reachable), way),
    ensures
        made.peer_id@ == peer_id@,
        made.relay_framed == relay,
        way == Way::Relay,
        *final(stream) == made,
{
}

/// A message takes the direct stream exactly if there is one and the peer can be reached, and then
/// nothing changes. It takes the relay otherwise, and there is no direct stream any more.
pub proof fn lemma_message_goes_direct_if_it_can<F>(
    stream: &mut ClientFramedStream<F>,
    reachable: bool,
    way: Way,
)
    requires
        call_ensures(ClientFramedStream::<F>::send_way, (stream, reachable), way),
    ensures
        way == Way::Direct <==> old(stream).kcp_framed is Some && reachable,
        way == Way::Direct ==> *final(stream) == *old(stream),
        way == Way::Relay ==> final(stream).kcp_framed is None,
        final(stream).peer_id == old(stream).peer_id,
        final(stream).relay_framed == old(stream).relay_framed,
{
}

/// A message that the direct stream has taken takes no further way, and nothing changes. One that it
/// has not taken goes to the relay, and so do all messages after it.
pub proof fn lemma_refused_message_goes_to_the_relay<F>(
    stream: &mut ClientFramedStream<F>,
    sent: bool,
    way: Option<Way>,
    stream_again: &mut ClientFramedStream<F>,
    reachable: bool,
    next_way: Way,
)
    requires
        call_ensures(ClientFramedStream::<F>::direct_sent, (stream, sent), way),
        *old(stream_again) == *final(stream),
        call_ensures(ClientFramedStream::<F>::send_way, (stream_again, reachable), next_way),
    ensures
        sent ==> way is None && *final(stream) == *old(stream),
        !sent ==> way == Some(Way::Relay) && next_way == Way::Relay,
        final(stream).peer_id == old(stream).peer_id,
        final(stream).relay_framed == old(stream).relay_framed,
{
}

/// Data that came in is returned as it is, whichever way it came. So is the end of the relay, or its
/// failure. A direct stream that brings anything but data is dropped, and the wait goes on.
pub proof fn lemma_incoming_data_is_returned<F, E>(
    stream: &mut ClientFramedStream<F>,
    incoming: Incoming<E>,
    returned: Option<Option<Result<BytesMut, E>>>,
)
    requires
        call_ensures(ClientFramedStream::<F>::next::<E>, (stream, incoming), returned),
    ensures
        incoming matches Incoming::Relay(message) ==> returned == Some(message),
        incoming matches Incoming::Direct(message) ==> {
            &&& returned is Some <==> (message matches Some(Ok(_)))
            &&& returned is Some ==> returned->0 == message
        },
        returned is None ==> final(stream).kcp_framed is None,
        returned is Some ==> *final(stream) == *old(stream),
        final(stream).peer_id == old(stream).peer_id,
        final(stream).relay_framed == old(stream).relay_framed,
{
}

/// A stream for a direct connection was opened, or was not: it was where there was none, the peer
/// could be reached and is another node, unless the next conversation is taken. It has the peer of
/// the connection and that conversation, which then finds the sender.
pub open spec fn opens_direct_stream<F, V>(
    connection: ClientFramedStream<F>,
    reachable: bool,
    puncher: Puncher,
    before: KcpContext<V>,
    sender: V,
    after: KcpContext<V>,
    stream: Option<KcpStream>,
) -> bool {
    let key = (connection.peer_id@, before.next_conv());
    let tried = connection.kcp_framed is None && reachable && connection.peer_id@ != puncher.id();
    &&& stream is Some <==> tried && !before.streams().dom().contains(key)
    &&& stream matches Some(stream) ==> stream.key() == key && stream.unread().len() == 0
    &&& stream is Some ==> after.streams().dom().contains(key) && after.streams()[key] == sender
    &&& stream is Some ==> after.streams().remove(key) == before.streams()
    &&& stream is None ==> after.streams() == before.streams()
    &&& if tried {
        follows(before.next_conv(), after.next_conv())
    } else {
        after == before
    }
}

/// A stream for a direct connection is opened where there is none yet and the peer can be reached.
pub proof fn lemma_direct_stream_is_opened<F, V>(
    connection: &ClientFramedStream<F>,
    reachable: bool,
    puncher: &Puncher,
    context: &mut KcpContext<V>,
    sender: V,
    stream: Option<KcpStream>,
)
    requires
        call_ensures(
            ClientFramedStream::<F>::create_if_reachable::<V>,
            (connection, reachable, puncher, context, sender),
            stream,
        ),
    ensures
        opens_direct_stream(
            *connection,
            reachable,
            *puncher,
            *old(context),
            sender,
            *final(context),
            stream,
        ),
{
    let key = (connection.peer_id@, old(context).next_conv());
    if stream is Some {
        assert(final(context).streams().remove(key) =~= old(context).streams());
    }
}

/// Whether the peer can be reached is asked of the routes: it can if they give one.
pub proof fn lemma_routes_decide_on_a_direct_stream<F, V>(
    connection: &ClientFramedStream<F>,
    puncher: &Puncher,
    context: &mut KcpContext<V>,
    sender: V,
    stream: Option<KcpStream>,
)
    requires
        call_ensures(
            ClientFramedStream::<F>::try_create_kcp_stream::<V>,
            (connection, puncher, context, sender),
            stream,
        ),
    ensures
        exists|route: Option<Route>| #[trigger]
            gave_first_route(puncher.spec_router().routes(), connection.peer_id@, route)
                && opens_direct_stream(
                *connection,
                route is Some,
                *puncher,
                *old(context),
                sender,
                *final(context),
                stream,
            ),
{
    let key = (connection.peer_id@, old(context).next_conv());
    if stream is Some {
        assert(final(context).streams().remove(key) =~= old(context).streams());
    }
}

} // verus!
