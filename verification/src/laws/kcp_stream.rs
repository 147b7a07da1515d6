//! Laws of streams over KCP.
use crate::buffer::contents;
use crate::error::PunchError;
use crate::kcp_stream::{
    filled, room, AcceptStep, Counter, InputStep, KcpContext, KcpStream, KcpStreamListener,
    KcpStreamRead, KcpStreamWrite, OwnedKcp, ReadStep, Received, Reserved, StreamMap, WriteStep,
};
use bytes::BytesMut;
use tokio::io::ReadBuf;
use vstd::prelude::*;

verus! {

/// One number comes after another: the next larger one, or zero behind the largest.
pub open spec fn follows(number: u32, next: u32) -> bool {
    if number == u32::MAX {
        next == 0
    } else {
        next == number + 1
    }
}

/// A counter starts with the number that it was made with, and each number follows the one before
/// it.
pub proof fn lemma_numbers_follow_each_other(
    start: u32,
    made: Counter,
    counter: &mut Counter,
    first: u32,
    counter_again: &mut Counter,
    second: u32,
)
    requires
        call_ensures(Counter::new, (start,), made),
        *old(counter) == made,
        *old(counter_again) == *final(counter),
        call_ensures(Counter::add, (counter,), first),
        call_ensures(Counter::add, (counter_again,), second),
    ensures
        first == start,
        follows(first, second),
{
}

/// A number follows the one before it, wherever a counter stands.
pub proof fn lemma_next_number_follows(
    counter: &mut Counter,
    first: u32,
    counter_again: &mut Counter,
    second: u32,
)
    requires
        *old(counter_again) == *final(counter),
        call_ensures(Counter::add, (counter,), first),
        call_ensures(Counter::add, (counter_again,), second),
    ensures
        follows(first, second),
{
}

/// No stream is open among new ones.
pub proof fn lemma_no_stream_is_open_at_first<V>(
    map: StreamMap<V>,
    peer_id: &String,
    conv: u32,
    value: Option<&V>,
    open: bool,
)
    requires
        call_ensures(StreamMap::<V>::new, (), map),
        call_ensures(StreamMap::<V>::get, (&map, peer_id, conv), value),
        call_ensures(StreamMap::<V>::contains_key, (&map, peer_id, conv), open),
    ensures
        value is None,
        !open,
{
}

/// A stream is open exactly where it has a value.
pub proof fn lemma_open_stream_has_a_value<V>(
    map: &StreamMap<V>,
    peer_id: &String,
    conv: u32,
    value: Option<&V>,
    open: bool,
)
    requires
        call_ensures(StreamMap::<V>::get, (map, peer_id, conv), value),
        call_ensures(StreamMap::<V>::contains_key, (map, peer_id, conv), open),
    ensures
        open <==> value is Some,
{
}

/// A stream that was taken up has the value that it was taken up with, and every other is as before.
pub proof fn lemma_stream_is_taken_up<V>(
    map: &mut StreamMap<V>,
    peer_id: String,
    conv: u32,
    value: V,
    other_peer: &String,
    other_conv: u32,
    before: Option<&V>,
    after: Option<&V>,
)
    requires
        call_ensures(StreamMap::<V>::insert, (map, peer_id, conv, value), ()),
        call_ensures(StreamMap::<V>::get, (&*old(map), other_peer, other_conv), before),
        call_ensures(StreamMap::<V>::get, (&*final(map), other_peer, other_conv), after),
    ensures
        if other_peer@ == peer_id@ && other_conv == conv {
            after == Some(&value)
        } else {
            after == before
        },
{
}

/// A stream that was dropped is not open, and every other is as before.
pub proof fn lemma_stream_is_dropped<V>(
    map: &mut StreamMap<V>,
    peer_id: &String,
    conv: u32,
    other_peer: &String,
    other_conv: u32,
    before: Option<&V>,
    after: Option<&V>,
)
    requires
        call_ensures(StreamMap::<V>::remove, (map, peer_id, conv), ()),
        call_ensures(StreamMap::<V>::get, (&*old(map), other_peer, other_conv), before),
        call_ensures(StreamMap::<V>::get, (&*final(map), other_peer, other_conv), after),
    ensures
        if other_peer@ == peer_id@ && other_conv == conv {
            after is None
        } else {
            after == before
        },
{
}

/// A stream opens unless it is open already, with the peer and the conversation that were asked for
/// and with nothing to read. Packets then reach it through its value. Every other stream is as
/// before, and all of them are if it does not open.
pub proof fn lemma_stream_opens<V>(
    peer_id: String,
    conv: u32,
    map: &mut StreamMap<V>,
    sender: V,
    stream: Result<KcpStream, PunchError>,
    of_conv: u32,
    of_peer: &String,
    was_open: bool,
    other_peer: &String,
    other_conv: u32,
    before: Option<&V>,
    after: Option<&V>,
)
    requires
        call_ensures(KcpStream::new::<V>, (peer_id, conv, map, sender), stream),
        stream is Ok ==> call_ensures(KcpStream::conv, (&stream->Ok_0,), of_conv),
        stream is Ok ==> call_ensures(KcpStream::peer_id, (&stream->Ok_0,), of_peer),
        call_ensures(StreamMap::<V>::contains_key, (&*old(map), &peer_id, conv), was_open),
        call_ensures(StreamMap::<V>::get, (&*old(map), other_peer, other_conv), before),
        call_ensures(StreamMap::<V>::get, (&*final(map), other_peer, other_conv), after),
    ensures
        stream is Ok <==> !was_open,
        stream matches Err(error) ==> error == PunchError::StreamExists,
        stream is Ok ==> of_conv == conv && of_peer@ == peer_id@ && stream->Ok_0.unread().len()
            == 0,
        if stream is Ok && other_peer@ == peer_id@ && other_conv == conv {
            after == Some(&sender)
        } else {
            after == before
        },
{
}

/// The first stream that a node opens has the conversation that it was made to start at.
pub proof fn lemma_conversations_start<V>(
    start: u32,
    made: KcpContext<V>,
    context: &mut KcpContext<V>,
    peer_id: String,
    sender: V,
    stream: Result<KcpStream, PunchError>,
    conv: u32,
)
    requires
        call_ensures(KcpContext::<V>::starting_at, (start,), made),
        *old(context) == made,
        call_ensures(KcpContext::<V>::new_stream, (context, peer_id, sender), stream),
        stream is Ok ==> call_ensures(KcpStream::conv, (&stream->Ok_0,), conv),
    ensures
        stream is Ok,
        conv == start,
{
}

/// The conversations of the streams that a node opens follow each other, and each stream has the
/// peer that was asked for.
pub proof fn lemma_conversations_follow_each_other<V>(
    context: &mut KcpContext<V>,
    peer_id: String,
    sender: V,
    first: Result<KcpStream, PunchError>,
    first_conv: u32,
    first_peer: &String,
    context_again: &mut KcpContext<V>,
    other_peer_id: String,
    other_sender: V,
    second: Result<KcpStream, PunchError>,
    second_conv: u32,
)
    requires
        first is Ok,
        second is Ok,
        *old(context_again) == *final(context),
        call_ensures(KcpContext::<V>::new_stream, (context, peer_id, sender), first),
        call_ensures(
            KcpContext::<V>::new_stream,
            (context_again, other_peer_id, other_sender),
            second,
        ),
        call_ensures(KcpStream::conv, (&first->Ok_0,), first_conv),
        call_ensures(KcpStream::peer_id, (&first->Ok_0,), first_peer),
        call_ensures(KcpStream::conv, (&second->Ok_0,), second_conv),
    ensures
        follows(first_conv, second_conv),
        first_peer@ == peer_id@,
{
}

/// A conversation is used up even if a stream has it already: it is refused then, nothing opens, and
/// the next stream has the conversation behind it.
pub proof fn lemma_refused_conversation_is_used_up<V>(
    context: &mut KcpContext<V>,
    peer_id: String,
    sender: V,
    refused: Result<KcpStream, PunchError>,
    context_again: &mut KcpContext<V>,
    other_peer_id: String,
    other_sender: V,
    stream: Result<KcpStream, PunchError>,
    conv: u32,
)
    requires
        refused is Err,
        stream is Ok,
        *old(context_again) == *final(context),
        call_ensures(KcpContext::<V>::new_stream, (context, peer_id, sender), refused),
        call_ensures(
            KcpContext::<V>::new_stream,
            (context_again, other_peer_id, other_sender),
            stream,
        ),
        call_ensures(KcpStream::conv, (&stream->Ok_0,), conv),
    ensures
        refused == Err::<KcpStream, PunchError>(PunchError::StreamExists),
        old(context).streams().dom().contains((peer_id@, old(context).next_conv())),
        final(context).streams() == old(context).streams(),
        follows(old(context).next_conv(), conv),
{
}

/// A stream that a node opened gets the packets of its peer in its conversation, and no other stream
/// loses its value.
pub proof fn lemma_opened_stream_gets_packets<'a, V>(
    context: &mut KcpContext<V>,
    peer_id: String,
    sender: V,
    stream: Result<KcpStream, PunchError>,
    conv: u32,
    listener: &KcpStreamListener,
    other_peer: &String,
    other_conv: u32,
    before: Result<&'a V, PunchError>,
    after: Result<&'a V, PunchError>,
)
    requires
        stream is Ok,
        call_ensures(KcpContext::<V>::new_stream, (context, peer_id, sender), stream),
        call_ensures(KcpStream::conv, (&stream->Ok_0,), conv),
        call_ensures(
            KcpStreamListener::get_stream_sender::<V>,
            (listener, &*old(context), other_peer, other_conv),
            before,
        ),
        call_ensures(
            KcpStreamListener::get_stream_sender::<V>,
            (listener, &*final(context), other_peer, other_conv),
            after,
        ),
    ensures
        if other_peer@ == peer_id@ && other_conv == conv {
            before == Err::<&V, PunchError>(PunchError::StreamNotFound) && after == Ok::<
                &V,
                PunchError,
            >(&sender)
        } else {
            after == before
        },
{
}

/// The number in the first four bytes of a packet, the least significant first.
pub open spec fn starts_with(packet: Seq<u8>, conv: u32) -> bool {
    packet.len() >= 24 && packet[0] + 256 * (packet[1] + 256 * (packet[2] + 256 * packet[3]))
        == conv
}

/// A packet goes to the stream of its peer that has the conversation in its first four bytes, through
/// the value of that stream. It goes to the listener if that is not open, and an empty packet goes
/// nowhere.
pub proof fn lemma_packet_goes_to_its_stream<'a, V>(
    context: &'a KcpContext<V>,
    buf: &[u8],
    peer_id: &String,
    step: InputStep<'a, V>,
    listener: &KcpStreamListener,
    conv: u32,
    sender: Result<&'a V, PunchError>,
)
    requires
        buf@.len() == 0 || starts_with(buf@, conv),
        call_ensures(KcpContext::<V>::input, (context, buf, peer_id), step),
        call_ensures(
            KcpStreamListener::get_stream_sender::<V>,
            (listener, context, peer_id, conv),
            sender,
        ),
    ensures
        buf@.len() == 0 <==> step is Ignore,
        buf@.len() > 0 ==> match sender {
            Ok(value) => step matches InputStep::Stream(to) && to == value,
            Err(error) => step is Listener && error == PunchError::StreamNotFound,
        },
{
}

/// A packet that its stream has not taken goes to the listener, and one that it has taken goes
/// nowhere else.
pub proof fn lemma_refused_packet_goes_to_the_listener<'a, V>(
    context: &'a KcpContext<V>,
    taken: InputStep<'a, V>,
    refused: InputStep<'a, V>,
)
    requires
        call_ensures(KcpContext::<V>::input_sent, (context, true), taken),
        call_ensures(KcpContext::<V>::input_sent, (context, false), refused),
    ensures
        taken is Ignore,
        refused is Listener,
{
}

/// Among the streams of a new node, or of a new listener, none is open.
pub proof fn lemma_new_node_has_no_streams<'a, V>(
    context: KcpContext<V>,
    pair: (KcpContext<V>, KcpStreamListener),
    listener: &KcpStreamListener,
    peer_id: &String,
    conv: u32,
    sender: Result<&'a V, PunchError>,
    other_sender: Result<&'a V, PunchError>,
)
    requires
        call_ensures(KcpContext::<V>::new, (), context),
        call_ensures(KcpStreamListener::new::<V>, (), pair),
        call_ensures(
            KcpStreamListener::get_stream_sender::<V>,
            (listener, &context, peer_id, conv),
            sender,
        ),
        call_ensures(
            KcpStreamListener::get_stream_sender::<V>,
            (listener, &pair.0, peer_id, conv),
            other_sender,
        ),
    ensures
        sender == Err::<&V, PunchError>(PunchError::StreamNotFound),
        other_sender == Err::<&V, PunchError>(PunchError::StreamNotFound),
{
}

/// A stream that gave its place up is not open any more. Every other is as before, and the
/// conversations go on where they were.
pub proof fn lemma_released_stream_is_closed<'a, V>(
    stream: &KcpStream,
    conv: u32,
    peer_id: &String,
    owned: OwnedKcp,
    context: &mut KcpContext<V>,
    listener: &KcpStreamListener,
    other_peer: &String,
    other_conv: u32,
    before: Result<&'a V, PunchError>,
    after: Result<&'a V, PunchError>,
)
    requires
        call_ensures(KcpStream::conv, (stream,), conv),
        call_ensures(KcpStream::peer_id, (stream,), peer_id),
        call_ensures(KcpStream::owned, (stream,), owned),
        call_ensures(OwnedKcp::release::<V>, (&owned, context), ()),
        call_ensures(
            KcpStreamListener::get_stream_sender::<V>,
            (listener, &*old(context), other_peer, other_conv),
            before,
        ),
        call_ensures(
            KcpStreamListener::get_stream_sender::<V>,
            (listener, &*final(context), other_peer, other_conv),
            after,
        ),
    ensures
        final(context).next_conv() == old(context).next_conv(),
        if other_peer@ == peer_id@ && other_conv == conv {
            after == Err::<&V, PunchError>(PunchError::StreamNotFound)
        } else {
            after == before
        },
{
}

/// The reading half of a stream has all that was not read yet.
pub proof fn lemma_halves_keep_unread_bytes(
    stream: KcpStream,
    halves: (KcpStreamWrite, KcpStreamRead),
)
    requires
        call_ensures(KcpStream::split, (stream,), halves),
    ensures
        halves.1@ == stream.unread(),
{
}

/// A stream that was just opened has nothing to read: it has to be asked for what has come in.
pub proof fn lemma_new_stream_has_nothing_to_read<V>(
    peer_id: String,
    conv: u32,
    map: &mut StreamMap<V>,
    sender: V,
    stream: Result<KcpStream, PunchError>,
    halves: (KcpStreamWrite, KcpStreamRead),
    read: &mut KcpStreamRead,
    buf: &mut ReadBuf<'_>,
    step: ReadStep,
)
    requires
        stream is Ok,
        call_ensures(KcpStream::new::<V>, (peer_id, conv, map, sender), stream),
        call_ensures(KcpStream::split, (stream->Ok_0,), halves),
        *old(read) == halves.1,
        call_ensures(KcpStreamRead::poll_read, (read, buf), step),
    ensures
        step == ReadStep::Receive,
        *final(buf) == *old(buf),
{
}

/// A buffer takes bytes from the front of some data until either is used up: no byte is lost,
/// doubled or moved, and what the buffer held stays.
pub open spec fn moves_bytes(
    before: ReadBuf<'_>,
    after: ReadBuf<'_>,
    data: Seq<u8>,
    rest: Seq<u8>,
) -> bool {
    &&& filled(after) + rest == filled(before) + data
    &&& filled(after).len() >= filled(before).len()
    &&& room(after) + filled(after).len() == room(before) + filled(before).len()
    &&& room(after) == 0 || rest.len() == 0
}

/// A read gives the bytes that are still there, as many as there is room for. It asks for more only
/// if there are none, and then nothing changes.
pub proof fn lemma_unread_bytes_are_read(
    read: &mut KcpStreamRead,
    buf: &mut ReadBuf<'_>,
    step: ReadStep,
)
    requires
        call_ensures(KcpStreamRead::poll_read, (read, buf), step),
    ensures
        step == ReadStep::Receive <==> old(read)@.len() == 0,
        step == ReadStep::Ready <==> old(read)@.len() > 0,
        old(read)@.len() == 0 ==> final(read)@.len() == 0 && *final(buf) == *old(buf),
        old(read)@.len() > 0 ==> moves_bytes(*old(buf), *final(buf), old(read)@, final(read)@),
{
}

/// What came in is read, as much as there is room for, and the rest is kept for the next read. Data
/// without bytes closes the stream. Without data nothing changes: the read waits, or is done where no
/// more will come.
pub proof fn lemma_received_bytes_are_read(
    read: &mut KcpStreamRead,
    received: Received,
    buf: &mut ReadBuf<'_>,
    step: ReadStep,
)
    requires
        old(read)@.len() == 0,
        call_ensures(KcpStreamRead::received, (read, received, buf), step),
    ensures
        received matches Received::Data(data) ==> if contents(data).len() > 0 {
            step == ReadStep::Ready && moves_bytes(
                *old(buf),
                *final(buf),
                contents(data),
                final(read)@,
            )
        } else {
            step == ReadStep::Close && final(read)@.len() == 0 && *final(buf) == *old(buf)
        },
        received is Closed ==> step == ReadStep::Ready,
        received is Pending ==> step == ReadStep::Pending,
        !(received is Data) ==> final(read)@.len() == 0 && *final(buf) == *old(buf),
{
}

/// Data that does not fit into one buffer is read in order: what the second read gives follows what
/// the first one gave.
pub proof fn lemma_reads_go_on_in_order(
    read: &mut KcpStreamRead,
    data: BytesMut,
    buf: &mut ReadBuf<'_>,
    first: ReadStep,
    read_again: &mut KcpStreamRead,
    other_buf: &mut ReadBuf<'_>,
    second: ReadStep,
)
    requires
        old(read)@.len() == 0,
        *old(read_again) == *final(read),
        filled(*old(buf)).len() == 0,
        filled(*old(other_buf)).len() == 0,
        0 < room(*old(buf)) < contents(data).len() <= room(*old(buf)) + room(*old(other_buf)),
        call_ensures(KcpStreamRead::received, (read, Received::Data(data), buf), first),
        call_ensures(KcpStreamRead::poll_read, (read_again, other_buf), second),
    ensures
        first == ReadStep::Ready,
        second == ReadStep::Ready,
        filled(*final(buf)) + filled(*final(other_buf)) == contents(data),
        final(read_again)@.len() == 0,
{
    lemma_received_bytes_are_read(read, Received::Data(data), buf, first);
    lemma_unread_bytes_are_read(read_again, other_buf, second);
    assert(filled(*old(buf)) + contents(data) =~= contents(data));
    assert(filled(*old(other_buf)) + old(read_again)@ =~= old(read_again)@);
    assert(filled(*final(other_buf)) + final(read_again)@ =~= filled(*final(other_buf)));
}

/// A write hands the front of the data to the engine, all of it up to 10240 bytes, and counts as many
/// bytes as written. It waits while the engine takes nothing, and fails once it takes nothing any
/// more.
pub proof fn lemma_front_of_data_is_written(
    write: &KcpStreamWrite,
    buf: &[u8],
    waits: WriteStep,
    fails: WriteStep,
    sends: WriteStep,
    sent: Result<usize, PunchError>,
    refused: Result<usize, PunchError>,
)
    requires
        call_ensures(KcpStreamWrite::poll_write, (write, Reserved::Pending, buf), waits),
        call_ensures(KcpStreamWrite::poll_write, (write, Reserved::Closed, buf), fails),
        call_ensures(KcpStreamWrite::poll_write, (write, Reserved::Ready, buf), sends),
        call_ensures(KcpStreamWrite::written, (write, buf, true), sent),
        call_ensures(KcpStreamWrite::written, (write, buf, false), refused),
    ensures
        waits == WriteStep::Pending,
        fails == WriteStep::Failed(PunchError::WriteZero),
        refused == Err::<usize, PunchError>(PunchError::WriteZero),
        sends matches WriteStep::Send(piece) && {
            &&& contents(piece).len() <= 10240
            &&& contents(piece).len() == buf@.len() || contents(piece).len() == 10240
                && buf@.len() > 10240
            &&& forall|i: int|
                0 <= i < contents(piece).len() ==> #[trigger] contents(piece)[i] == buf@[i]
            &&& sent matches Ok(len) && len == contents(piece).len()
        },
{
}

/// A listener makes nothing of an empty packet, and ends when no more packets come. Neither changes
/// the streams.
pub proof fn lemma_listener_waits_for_packets<V>(
    listener: &KcpStreamListener,
    context: &mut KcpContext<V>,
    message: Option<(String, BytesMut)>,
    sender: V,
    step: AcceptStep,
)
    requires
        message matches Some((_, bytes)) ==> contents(bytes).len() == 0,
        call_ensures(KcpStreamListener::accept::<V>, (listener, context, message, sender), step),
    ensures
        message is None ==> step == AcceptStep::Failed(PunchError::ListenerClosed),
        message is Some ==> step == AcceptStep::Again,
        final(context).streams() == old(context).streams(),
        final(context).next_conv() == old(context).next_conv(),
{
}

/// A packet opens the stream of its peer that has the conversation in its first four bytes, and goes
/// to it as it is. If that stream is open already, the packet goes to it and nothing else happens.
/// Either way every other stream is as before.
pub proof fn lemma_packet_opens_a_stream<'a, V>(
    listener: &KcpStreamListener,
    context: &mut KcpContext<V>,
    peer_id: String,
    bytes: BytesMut,
    sender: V,
    step: AcceptStep,
    conv: u32,
    of_conv: u32,
    of_peer: &String,
    other_peer: &String,
    other_conv: u32,
    was_open: Result<&'a V, PunchError>,
    before: Result<&'a V, PunchError>,
    after: Result<&'a V, PunchError>,
)
    requires
        starts_with(contents(bytes), conv),
        call_ensures(
            KcpStreamListener::accept::<V>,
            (listener, context, Some((peer_id, bytes)), sender),
            step,
        ),
        step is Accept ==> call_ensures(KcpStream::conv, (&step->Accept_0,), of_conv),
        step is Accept ==> call_ensures(KcpStream::peer_id, (&step->Accept_0,), of_peer),
        call_ensures(
            KcpStreamListener::get_stream_sender::<V>,
            (listener, &*old(context), &peer_id, conv),
            was_open,
        ),
        call_ensures(
            KcpStreamListener::get_stream_sender::<V>,
            (listener, &*old(context), other_peer, other_conv),
            before,
        ),
        call_ensures(
            KcpStreamListener::get_stream_sender::<V>,
            (listener, &*final(context), other_peer, other_conv),
            after,
        ),
    ensures
        final(context).next_conv() == old(context).next_conv(),
        was_open is Ok ==> {
            &&& step matches AcceptStep::Deliver(to, to_conv, packet)
            &&& to@ == peer_id@
            &&& to_conv == conv
            &&& packet == bytes
            &&& after == before
        },
        was_open is Err ==> {
            &&& step matches AcceptStep::Accept(stream, packet)
            &&& of_conv == conv
            &&& of_peer@ == peer_id@
            &&& stream.unread().len() == 0
            &&& packet == bytes
            &&& if other_peer@ == peer_id@ && other_conv == conv {
                after == Ok::<&V, PunchError>(&sender)
            } else {
                after == before
            }
        },
{
}

/// A packet that its stream has not taken finds no stream.
pub proof fn lemma_delivery_is_told(
    listener: &KcpStreamListener,
    taken: Result<(), PunchError>,
    refused: Result<(), PunchError>,
)
    requires
        call_ensures(KcpStreamListener::delivered, (listener, true), taken),
        call_ensures(KcpStreamListener::delivered, (listener, false), refused),
    ensures
        taken is Ok,
        refused == Err::<(), PunchError>(PunchError::StreamNotFound),
{
}

} // verus!
