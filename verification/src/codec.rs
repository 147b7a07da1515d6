//! Packets on a byte stream: cutting what arrives into packets, and writing packets out.
//!
//! Reads and writes are made by the caller. A decoder says when to read more and hands out a
//! packet when there is one. An encoder says what is to be written next.
use crate::buffer::{
    advance, as_slice, clear, contents, copy_to_front, empty, extend_from_slice,
};
use crate::error::PunchError;
use crate::protocol::{length_field, well_formed, NetPacket, HEAD_LEN};
use bytes::BytesMut;
use vstd::prelude::*;
use vstd::slice::slice_subrange;

verus! {

/// A stream holds a packet at its front once the header and as many bytes as it says are there.
pub open spec fn has_packet(stream: Seq<u8>) -> bool {
    stream.len() >= HEAD_LEN && length_field(stream) <= stream.len()
}

/// The packet at the front of a stream.
pub open spec fn front_packet(stream: Seq<u8>) -> Seq<u8> {
    stream.take(length_field(stream))
}

/// A stream behind the packet at its front.
pub open spec fn behind_packet(stream: Seq<u8>) -> Seq<u8> {
    stream.skip(length_field(stream))
}

/// A stream whose next packet has a header that says more than `room` bytes.
pub open spec fn packet_too_long(stream: Seq<u8>, room: int) -> bool {
    stream.len() >= HEAD_LEN && length_field(stream) > room
}

/// Cuts a byte stream into packets. Holds the bytes that arrived behind the last packet.
pub struct LengthPrefixedDecoder {
    buf: BytesMut,
}

impl View for LengthPrefixedDecoder {
    type V = Seq<u8>;

    closed spec fn view(&self) -> Seq<u8> {
        contents(self.buf)
    }
}

/// What a decoder needs or has.
#[derive(Clone, Copy, Debug, PartialEq, Eq, Structural)]
pub enum DecodeStep {
    /// More bytes are to be read into the caller's buffer, from this offset on.
    Read(usize),
    /// A packet of this length stands at the front of the caller's buffer.
    Packet(usize),
    /// No packet can be handed out.
    Failed(PunchError),
}

impl LengthPrefixedDecoder {
    /// A decoder that holds nothing.
    pub fn new() -> (decoder: Self)
        ensures
            decoder@ == Seq::<u8>::empty(),
    {
        LengthPrefixedDecoder { buf: empty() }
    }

    /// Looks for a packet in the bytes that are held.
    ///
    /// A packet goes to the front of `src`, and what is behind it stays. Bytes that are no packet
    /// yet all move to the front of `src`, and `offset` grows by their number.
    pub fn process_buf(&mut self, src: &mut [u8], offset: &mut usize) -> (found: Option<
        Result<usize, PunchError>,
    >)
        requires
            old(src)@.len() >= HEAD_LEN,
            *old(offset) + old(self)@.len() <= usize::MAX,
        ensures
            packet_too_long(old(self)@, old(src)@.len() as int) ==> {
                &&& found == Some(Err::<usize, _>(PunchError::BufferTooShort))
                &&& final(self)@ == old(self)@
                &&& final(src)@ == old(src)@
                &&& *final(offset) == *old(offset)
            },
            !packet_too_long(old(self)@, old(src)@.len() as int) && has_packet(old(self)@) ==> {
                &&& found matches Some(Ok(length)) && length == length_field(old(self)@)
                &&& final(src)@ == front_packet(old(self)@) + old(src)@.skip(
                    length_field(old(self)@),
                )
                &&& final(self)@ == behind_packet(old(self)@)
                &&& *final(offset) == *old(offset)
            },
            !packet_too_long(old(self)@, old(src)@.len() as int) && !has_packet(old(self)@) ==> {
                &&& found is None
                &&& final(src)@ == old(self)@ + old(src)@.skip(old(self)@.len() as int)
                &&& final(self)@ == Seq::<u8>::empty()
                &&& *final(offset) == *old(offset) + old(self)@.len()
            },
    {
        let len: usize = as_slice(&self.buf).len();
        if len < HEAD_LEN {
            copy_to_front(src, as_slice(&self.buf));
            *offset = *offset + len;
            clear(&mut self.buf);
            return None;
        }
        let packet = NetPacket::new_unchecked(as_slice(&self.buf));
        let data_length: usize = packet.data_length() as usize;
        if data_length > src.len() {
            return Some(Err(PunchError::BufferTooShort));
        }
        if data_length > len {
            copy_to_front(src, as_slice(&self.buf));
            *offset = *offset + len;
            clear(&mut self.buf);
            None
        } else {
            copy_to_front(src, slice_subrange(as_slice(&self.buf), 0, data_length));
            assert(contents(self.buf).subrange(0, data_length as int) =~= contents(self.buf).take(
                data_length as int,
            ));
            if data_length == len {
                clear(&mut self.buf);
                assert(old(self)@.skip(data_length as int) =~= Seq::<u8>::empty());
            } else {
                advance(&mut self.buf, data_length);
            }
            Some(Ok(data_length))
        }
    }

    /// Looks for a packet in the first `offset` bytes of `src`, which were read.
    ///
    /// Bytes behind a packet are kept.
    pub fn process_packet(&mut self, src: &[u8], offset: usize) -> (found: Option<
        Result<usize, PunchError>,
    >)
        requires
            src@.len() >= HEAD_LEN,
            offset <= src@.len(),
            old(self)@.len() + offset <= isize::MAX,
        ensures
            packet_too_long(src@.take(offset as int), src@.len() as int) ==> {
                &&& found == Some(Err::<usize, _>(PunchError::BufferTooShort))
                &&& final(self)@ == old(self)@
            },
            !packet_too_long(src@.take(offset as int), src@.len() as int) && has_packet(
                src@.take(offset as int),
            ) ==> {
                &&& found matches Some(Ok(length)) && length == length_field(src@)
                &&& final(self)@ == old(self)@ + behind_packet(src@.take(offset as int))
            },
            !packet_too_long(src@.take(offset as int), src@.len() as int) && !has_packet(
                src@.take(offset as int),
            ) ==> {
                &&& found is None
                &&& final(self)@ == old(self)@
            },
    {
        if offset < HEAD_LEN {
            return None;
        }
        let packet = NetPacket::new_unchecked(src);
        let data_length: usize = packet.data_length() as usize;
        if data_length > src.len() {
            return Some(Err(PunchError::BufferTooShort));
        }
        if data_length < offset {
            extend_from_slice(&mut self.buf, slice_subrange(src, data_length, offset));
            assert(src@.subrange(data_length as int, offset as int) =~= src@.take(
                offset as int,
            ).skip(data_length as int));
            Some(Ok(data_length))
        } else if data_length == offset {
            assert(src@.take(offset as int).skip(data_length as int) =~= Seq::<u8>::empty());
            assert(self@ =~= old(self)@ + behind_packet(src@.take(offset as int)));
            Some(Ok(data_length))
        } else {
            None
        }
    }

    /// Starts to decode a packet into `src`.
    ///
    /// Bytes that are held and are no packet yet go to the front of `src`.
    pub fn decode(&mut self, src: &mut [u8]) -> (step: DecodeStep)
        ensures
            old(src)@.len() < HEAD_LEN || packet_too_long(old(self)@, old(src)@.len() as int) ==> {
                &&& step == DecodeStep::Failed(PunchError::BufferTooShort)
                &&& final(self)@ == old(self)@
                &&& final(src)@ == old(src)@
            },
            old(src)@.len() >= HEAD_LEN && !packet_too_long(old(self)@, old(src)@.len() as int)
                && has_packet(old(self)@) ==> {
                &&& step matches DecodeStep::Packet(length) && length == length_field(old(self)@)
                &&& final(src)@ == front_packet(old(self)@) + old(src)@.skip(
                    length_field(old(self)@),
                )
                &&& final(self)@ == behind_packet(old(self)@)
            },
            old(src)@.len() >= HEAD_LEN && !packet_too_long(old(self)@, old(src)@.len() as int)
                && !has_packet(old(self)@) ==> {
                &&& step matches DecodeStep::Read(offset) && offset == old(self)@.len()
                &&& final(src)@ == old(self)@ + old(src)@.skip(old(self)@.len() as int)
                &&& final(self)@ == Seq::<u8>::empty()
            },
    {
        if src.len() < HEAD_LEN {
            return DecodeStep::Failed(PunchError::BufferTooShort);
        }
        let mut offset: usize = 0;
        if as_slice(&self.buf).len() == 0 {
            assert(self@ =~= Seq::<u8>::empty());
            assert(src@ =~= self@ + src@.skip(0));
            return DecodeStep::Read(offset);
        }
        match self.process_buf(src, &mut offset) {
            Some(Ok(length)) => DecodeStep::Packet(length),
            Some(Err(error)) => DecodeStep::Failed(error),
            None => DecodeStep::Read(offset),
        }
    }

    /// Goes on to decode, after `len` bytes were read into `src` from `offset` on.
    pub fn decode_read(&mut self, src: &[u8], offset: usize, len: usize) -> (step: DecodeStep)
        requires
            old(self)@.len() == 0,
            src@.len() >= HEAD_LEN,
            offset + len <= src@.len(),
            offset + len <= isize::MAX,
        ensures
            packet_too_long(src@.take(offset + len), src@.len() as int) ==> {
                &&& step == DecodeStep::Failed(PunchError::BufferTooShort)
                &&& final(self)@ == Seq::<u8>::empty()
            },
            !packet_too_long(src@.take(offset + len), src@.len() as int) && has_packet(
                src@.take(offset + len),
            ) ==> {
                &&& step matches DecodeStep::Packet(length) && length == length_field(src@)
                    && src@.take(length as int) == front_packet(src@.take(offset + len))
                &&& final(self)@ == behind_packet(src@.take(offset + len))
            },
            !packet_too_long(src@.take(offset + len), src@.len() as int) && !has_packet(
                src@.take(offset + len),
            ) ==> {
                &&& step matches DecodeStep::Read(next) && next == offset + len
                &&& final(self)@ == Seq::<u8>::empty()
            },
    {
        let read: usize = offset + len;
        assert(self@ =~= Seq::<u8>::empty());
        let found = self.process_packet(src, read);
        assert(Seq::<u8>::empty() + behind_packet(src@.take(read as int)) =~= behind_packet(
            src@.take(read as int),
        ));
        assert(has_packet(src@.take(read as int)) ==> src@.take(length_field(src@))
            =~= front_packet(src@.take(read as int)));
        match found {
            Some(Ok(length)) => DecodeStep::Packet(length),
            Some(Err(error)) => DecodeStep::Failed(error),
            None => DecodeStep::Read(read),
        }
    }

    /// Stops decoding after a read failed with `offset` bytes in `src`.
    ///
    /// Where the read would only have had to wait, the bytes are kept for the next attempt.
    /// Otherwise they are lost.
    pub fn try_decode_failed(&mut self, src: &[u8], offset: usize, would_block: bool)
        requires
            offset <= src@.len(),
            old(self)@.len() + offset <= isize::MAX,
        ensures
            final(self)@ == (if would_block {
                old(self)@ + src@.take(offset as int)
            } else {
                old(self)@
            }),
    {
        if would_block && offset > 0 {
            assert(src@.subrange(0, offset as int) =~= src@.take(offset as int));
            extend_from_slice(&mut self.buf, slice_subrange(src, 0, offset));
        } else {
            assert(would_block ==> old(self)@ + src@.take(offset as int) =~= old(self)@);
        }
    }
}

/// The parts of a stream, one behind the other.
pub open spec fn joined(parts: Seq<Seq<u8>>) -> Seq<u8>
    decreases parts.len(),
{
    if parts.len() == 0 {
        Seq::empty()
    } else {
        joined(parts.drop_last()) + parts.last()
    }
}

/// The parts before some part and those from it on are all of them.
pub proof fn lemma_joined_split(parts: Seq<Seq<u8>>, n: int)
    requires
        0 <= n <= parts.len(),
    ensures
        joined(parts) == joined(parts.take(n)) + joined(parts.skip(n)),
    decreases parts.len() - n,
{
    if n == parts.len() {
        assert(parts.take(n) =~= parts);
        assert(joined(parts) =~= joined(parts.take(n)) + joined(parts.skip(n)));
    } else {
        let shorter = parts.drop_last();
        lemma_joined_split(shorter, n);
        assert(shorter.take(n) =~= parts.take(n));
        assert(parts.skip(n).drop_last() =~= shorter.skip(n));
        assert(parts.skip(n).last() == parts.last());
        assert(joined(parts) =~= joined(parts.take(n)) + joined(parts.skip(n)));
    }
}

/// A part in front of others comes first.
pub proof fn lemma_joined_front(first: Seq<u8>, parts: Seq<Seq<u8>>)
    ensures
        joined(seq![first] + parts) == first + joined(parts),
{
    let all = seq![first] + parts;
    lemma_joined_split(all, 1);
    assert(all.take(1) =~= seq![first]);
    assert(all.skip(1) =~= parts);
    assert(joined(seq![first]) =~= first) by {
        assert(seq![first].drop_last() =~= Seq::empty());
        assert(joined(seq![first].drop_last()) =~= Seq::<u8>::empty());
    }
}

/// Bytes that come later change nothing about the packet at the front of a stream.
pub proof fn lemma_later_bytes_keep_packet(stream: Seq<u8>, later: Seq<u8>)
    requires
        has_packet(stream),
    ensures
        has_packet(stream + later),
        front_packet(stream + later) == front_packet(stream),
        behind_packet(stream + later) == behind_packet(stream) + later,
{
    assert(front_packet(stream + later) =~= front_packet(stream));
    assert(behind_packet(stream + later) =~= behind_packet(stream) + later);
}

/// One packet handed out by a decoder: what was read for it, and the packet.
pub struct Delivery {
    pub received: Seq<u8>,
    pub packet: Seq<u8>,
}

/// What a new decoder holds after a run of deliveries.
pub open spec fn held_after(run: Seq<Delivery>) -> Seq<u8>
    decreases run.len(),
{
    if run.len() == 0 {
        Seq::empty()
    } else {
        behind_packet(held_after(run.drop_last()) + run.last().received)
    }
}

/// A run of deliveries of a new decoder: each packet is the one at the front of what was held and
/// read, and what is behind it is held for the next.
pub open spec fn is_run(run: Seq<Delivery>) -> bool {
    forall|k: int|
        0 <= k < run.len() ==> {
            let stream = held_after(run.take(k)) + (#[trigger] run[k]).received;
            has_packet(stream) && run[k].packet == front_packet(stream)
        }
}

/// Everything that was read in a run.
pub open spec fn received_in(run: Seq<Delivery>) -> Seq<u8> {
    joined(Seq::new(run.len(), |k: int| run[k].received))
}

/// The packets of a run.
pub open spec fn packets_in(run: Seq<Delivery>) -> Seq<Seq<u8>> {
    Seq::new(run.len(), |k: int| run[k].packet)
}

proof fn lemma_run_prefix(run: Seq<Delivery>)
    requires
        is_run(run),
        run.len() > 0,
    ensures
        is_run(run.drop_last()),
        received_in(run) == received_in(run.drop_last()) + run.last().received,
        packets_in(run) == packets_in(run.drop_last()).push(run.last().packet),
        has_packet(held_after(run.drop_last()) + run.last().received),
        run.last().packet == front_packet(held_after(run.drop_last()) + run.last().received),
{
    let shorter = run.drop_last();
    assert forall|k: int| 0 <= k < shorter.len() implies {
        let stream = held_after(shorter.take(k)) + (#[trigger] shorter[k]).received;
        has_packet(stream) && shorter[k].packet == front_packet(stream)
    } by {
        assert(shorter.take(k) =~= run.take(k));
        assert(shorter[k] == run[k]);
    }
    let parts = Seq::new(run.len(), |k: int| run[k].received);
    assert(parts.drop_last() =~= Seq::new(shorter.len(), |k: int| shorter[k].received));
    assert(packets_in(run) =~= packets_in(shorter).push(run.last().packet));
    let last = run.len() - 1;
    assert(run.take(last) =~= shorter);
    assert(run[last] == run.last());
}

/// No byte is lost, doubled or moved: the packets of a run and what is held after it are what was
/// read, in order.
pub proof fn lemma_run_keeps_every_byte(run: Seq<Delivery>)
    requires
        is_run(run),
    ensures
        joined(packets_in(run)) + held_after(run) == received_in(run),
    decreases run.len(),
{
    if run.len() == 0 {
        assert(joined(packets_in(run)) + held_after(run) =~= received_in(run));
    } else {
        let shorter = run.drop_last();
        lemma_run_prefix(run);
        lemma_run_keeps_every_byte(shorter);
        let stream = held_after(shorter) + run.last().received;
        assert(front_packet(stream) + behind_packet(stream) =~= stream);
        assert(packets_in(run).drop_last() =~= packets_in(shorter));
        assert(joined(packets_in(run)) =~= joined(packets_in(shorter)) + run.last().packet);
        assert(joined(packets_in(run)) + held_after(run) =~= joined(packets_in(shorter)) + (
        run.last().packet + held_after(run)));
        assert(joined(packets_in(run)) + held_after(run) =~= (joined(packets_in(shorter))
            + held_after(shorter)) + run.last().received);
    }
}

/// Streams that are equal behind the same front are equal.
proof fn lemma_same_behind_front(front: Seq<u8>, one: Seq<u8>, other: Seq<u8>)
    requires
        front + one == front + other,
    ensures
        one == other,
{
    assert((front + one).skip(front.len() as int) =~= one);
    assert((front + other).skip(front.len() as int) =~= other);
}

/// The packet at the front of whole packets is the first of them.
proof fn lemma_front_of_sent(sent: Seq<Seq<u8>>)
    requires
        sent.len() > 0,
        well_formed(sent[0]),
    ensures
        front_packet(joined(sent)) == sent[0],
{
    assert(sent =~= seq![sent[0]] + sent.skip(1));
    lemma_joined_front(sent[0], sent.skip(1));
    assert(front_packet(joined(sent)) =~= sent[0]);
}

/// What one side sends is what the other side is handed: if whole packets are written one behind
/// the other, and a decoder has read some front part of that stream in pieces of any size, then
/// the packets that it handed out are the first ones that were sent, in order.
pub proof fn lemma_run_hands_out_what_was_sent(
    run: Seq<Delivery>,
    sent: Seq<Seq<u8>>,
    unread: Seq<u8>,
)
    requires
        is_run(run),
        forall|k: int| 0 <= k < sent.len() ==> well_formed(#[trigger] sent[k]),
        received_in(run) + unread == joined(sent),
    ensures
        run.len() <= sent.len(),
        packets_in(run) == sent.take(run.len() as int),
    decreases run.len(),
{
    if run.len() == 0 {
        assert(packets_in(run) =~= sent.take(0));
    } else {
        let shorter = run.drop_last();
        let n = shorter.len() as int;
        let last = run.last();
        lemma_run_prefix(run);
        assert(received_in(shorter) + (last.received + unread) =~= received_in(run) + unread);
        lemma_run_hands_out_what_was_sent(shorter, sent, last.received + unread);
        let stream = held_after(shorter) + last.received;
        let ahead = joined(sent.skip(n));
        // What is held and still to be read is what was sent behind the first `n` packets.
        assert(stream + unread == ahead) by {
            let front = joined(sent.take(n));
            lemma_run_keeps_every_byte(shorter);
            lemma_joined_split(sent, n);
            assert(front + (stream + unread) =~= (front + held_after(shorter)) + (last.received
                + unread));
            lemma_same_behind_front(front, stream + unread, ahead);
        }
        lemma_later_bytes_keep_packet(stream, unread);
        if sent.len() == n {
            assert(sent.skip(n) =~= Seq::empty());
            assert(false);
        }
        assert(sent.skip(n)[0] == sent[n]);
        lemma_front_of_sent(sent.skip(n));
        assert(packets_in(run) =~= sent.take(n + 1));
    }
}

/// One call hands out the next frame whole, however the stream is cut: if what is held and what is
/// still to come are a whole packet with something behind it, then no part of it that was read is
/// refused, reading goes on exactly as long as the packet is not there, and there is room to read
/// then. The packet is the one that is handed out, and what is held then and what was not read yet
/// is what came behind it.
pub proof fn lemma_call_hands_out_next_packet(
    held: Seq<u8>,
    chunks: Seq<Seq<u8>>,
    unread: Seq<u8>,
    packet: Seq<u8>,
    rest: Seq<u8>,
    room: int,
)
    requires
        well_formed(packet),
        packet.len() <= room,
        held + joined(chunks) + unread == packet + rest,
    ensures
        forall|i: int|
            0 <= i <= chunks.len() ==> {
                let stream = held + joined(#[trigger] chunks.take(i));
                &&& !packet_too_long(stream, room)
                &&& has_packet(stream) <==> packet.len() <= stream.len()
                &&& !has_packet(stream) ==> stream.len() < room
            },
        has_packet(held + joined(chunks)) ==> front_packet(held + joined(chunks)) == packet
            && behind_packet(held + joined(chunks)) + unread == rest,
{
    let all = packet + rest;
    assert forall|i: int| 0 <= i <= chunks.len() implies {
        let stream = held + joined(#[trigger] chunks.take(i));
        &&& !packet_too_long(stream, room)
        &&& has_packet(stream) <==> packet.len() <= stream.len()
        &&& !has_packet(stream) ==> stream.len() < room
    } by {
        let stream = held + joined(chunks.take(i));
        let later = joined(chunks.skip(i)) + unread;
        lemma_joined_split(chunks, i);
        assert(stream + later =~= all);
        lemma_front_of_packet(stream, later, packet, rest);
    }
    let stream = held + joined(chunks);
    lemma_front_of_packet(stream, unread, packet, rest);
}

/// A stream that is the front of a packet and something behind it holds a packet once the whole of
/// that packet is there, and then it is that packet.
proof fn lemma_front_of_packet(stream: Seq<u8>, later: Seq<u8>, packet: Seq<u8>, rest: Seq<u8>)
    requires
        well_formed(packet),
        stream + later == packet + rest,
    ensures
        stream.len() >= HEAD_LEN ==> length_field(stream) == packet.len(),
        has_packet(stream) <==> packet.len() <= stream.len(),
        has_packet(stream) ==> front_packet(stream) == packet && behind_packet(stream) + later
            == rest,
{
    let all = packet + rest;
    if stream.len() >= HEAD_LEN {
        assert(stream[1] == all[1] && stream[2] == all[2]);
        assert(packet[1] == all[1] && packet[2] == all[2]);
        if packet.len() <= stream.len() {
            assert forall|i: int| 0 <= i < packet.len() implies stream[i] == packet[i] by {
                assert((stream + later)[i] == all[i]);
            }
            assert(front_packet(stream) =~= packet);
            assert(behind_packet(stream) + later =~= all.skip(packet.len() as int)) by {
                assert(behind_packet(stream) + later =~= (stream + later).skip(
                    packet.len() as int,
                ));
            }
            assert(all.skip(packet.len() as int) =~= rest);
        }
    }
}

/// Lets packets out onto a byte stream.
pub struct LengthPrefixedEncoder {}

impl LengthPrefixedEncoder {
    pub fn new() -> (encoder: Self) {
        LengthPrefixedEncoder {  }
    }

    /// Starts to write several buffers, one behind the other.
    pub fn encode_multiple(&self, bufs: &[&[u8]]) -> (write: MultiWrite)
        requires
            joined(parts_of(bufs@)).len() <= usize::MAX,
        ensures
            write.wf(parts_of(bufs@)),
            write.index() == 0,
            write.written() == 0,
    {
        MultiWrite::new(bufs)
    }

    /// The bytes to be written for `data`: all of them, if their number is what their header says.
    pub fn encode<'a>(&self, data: &'a [u8]) -> (bytes: Result<&'a [u8], PunchError>)
        requires
            data@.len() >= 3,
        ensures
            match bytes {
                Ok(bytes) => length_field(data@) == data@.len() && bytes@ == data@,
                Err(error) => length_field(data@) != data@.len() && error
                    == PunchError::FrameLenInvalid,
            },
    {
        let len: usize = data.len();
        let packet = NetPacket::new_unchecked(data);
        if packet.data_length() as usize != len {
            return Err(PunchError::FrameLenInvalid);
        }
        Ok(data)
    }
}

/// The bytes of several buffers.
pub open spec fn parts_of(bufs: Seq<&[u8]>) -> Seq<Seq<u8>> {
    Seq::new(bufs.len(), |i: int| bufs[i]@)
}

/// The buffer in which `written` bytes end that were taken from buffer `index` on, and how many of
/// them lie in it. A buffer that ends with them is left behind.
pub open spec fn landing(parts: Seq<Seq<u8>>, index: int, written: int) -> (int, int)
    decreases parts.len() - index,
{
    if index < 0 || index >= parts.len() || parts[index].len() > written {
        (index, written)
    } else {
        landing(parts, index + 1, written - parts[index].len())
    }
}

/// What is to be done after a write that took its bytes from several buffers.
#[derive(Clone, Copy, Debug, PartialEq, Eq)]
pub struct WritePlan {
    /// First the rest of this buffer is written, from this byte on.
    pub rest: Option<(usize, usize)>,
    /// Then the whole of this buffer is written.
    pub whole: Option<usize>,
    /// Then the work is over. If it is not, the buffers from the index on are written together.
    pub done: bool,
}

/// Writes several buffers, one behind the other, through a writer that takes as many bytes as it
/// likes from all of them at once.
pub struct MultiWrite {
    index: usize,
    total_written: usize,
    total: usize,
}

impl MultiWrite {
    /// The first buffer that is to be written.
    pub closed spec fn index(&self) -> int {
        self.index as int
    }

    /// The number of bytes that were written.
    pub closed spec fn written(&self) -> int {
        self.total_written as int
    }

    /// The buffers before the index were written, and nothing else.
    pub closed spec fn wf(&self, parts: Seq<Seq<u8>>) -> bool {
        &&& self.index <= parts.len()
        &&& self.total == joined(parts).len()
        &&& self.total_written == joined(parts.take(self.index as int)).len()
    }

    /// Nothing is written yet.
    pub fn new(bufs: &[&[u8]]) -> (write: Self)
        requires
            joined(parts_of(bufs@)).len() <= usize::MAX,
        ensures
            write.wf(parts_of(bufs@)),
            write.index() == 0,
            write.written() == 0,
    {
        let mut total: usize = 0;
        let ghost parts = parts_of(bufs@);
        let count: usize = bufs.len();
        for i in 0..count
            invariant
                count == bufs@.len(),
                parts == parts_of(bufs@),
                total == joined(parts.take(i as int)).len(),
                joined(parts).len() <= usize::MAX,
        {
            proof {
                lemma_joined_split(parts, i + 1);
                assert(parts.take(i + 1).drop_last() =~= parts.take(i as int));
                assert(parts.take(i + 1).last() == bufs@[i as int]@);
            }
            total = total + bufs[i].len();
        }
        assert(parts.take(count as int) =~= parts);
        assert(joined(parts.take(0)) =~= Seq::<u8>::empty());
        MultiWrite { index: 0, total_written: 0, total }
    }

    /// The first buffer that is to be written with the next write.
    pub fn next_index(&self) -> (index: usize)
        ensures
            index == self.index(),
    {
        self.index
    }

    /// The number of bytes that are still to be written.
    pub fn remaining(&self, bufs: &[&[u8]]) -> (count: usize)
        requires
            self.wf(parts_of(bufs@)),
        ensures
            count == joined(parts_of(bufs@)).len() - self.written(),
            count == joined(parts_of(bufs@).skip(self.index())).len(),
    {
        proof {
            lemma_joined_split(parts_of(bufs@), self.index as int);
        }
        self.total - self.total_written
    }

    /// Says what is to be done after `len` bytes of the buffers from the index on were written.
    ///
    /// Where these end within a buffer, its rest is written next. The buffer that is then written
    /// whole, if only one is left, is the one that was just completed.
    pub fn wrote(&mut self, bufs: &[&[u8]], len: usize) -> (plan: Result<WritePlan, PunchError>)
        requires
            old(self).wf(parts_of(bufs@)),
            old(self).written() + len <= joined(parts_of(bufs@)).len(),
        ensures
            match plan {
                Ok(plan) => len > 0 && is_plan(
                    parts_of(bufs@),
                    old(self).index(),
                    len as int,
                    plan,
                    final(self).index(),
                ) && (!plan.done ==> final(self).wf(parts_of(bufs@)) && final(self).written()
                    == joined(parts_of(bufs@).take(final(self).index())).len()),
                Err(error) => len == 0 && error == PunchError::WriteZero && *final(self)
                    == *old(self),
            },
    {
        if len == 0 {
            return Err(PunchError::WriteZero);
        }
        let ghost parts = parts_of(bufs@);
        let ghost start = self.index as int;
        let count: usize = bufs.len();
        proof {
            lemma_joined_split(parts, start);
        }
        self.total_written = self.total_written + len;
        if self.total_written == self.total {
            return Ok(WritePlan { rest: None, whole: None, done: true });
        }
        let mut written: usize = len;
        proof {
            lemma_landing(parts, start, len as int);
        }
        while self.index < count && bufs[self.index].len() <= written
            invariant
                count == bufs@.len(),
                parts == parts_of(bufs@),
                self.index <= count,
                landing(parts, self.index as int, written as int) == landing(
                    parts,
                    start,
                    len as int,
                ),
                self.total_written == old(self).total_written + len,
                self.total == old(self).total,
            decreases count - self.index,
        {
            written = written - bufs[self.index].len();
            self.index = self.index + 1;
        }
        let at: usize = self.index;
        assert(landing(parts, start, len as int) == (at as int, written as int));
        let mut rest: Option<(usize, usize)> = None;
        if written != 0 {
            proof {
                assert(parts.take(at + 1).drop_last() =~= parts.take(at as int));
                assert(parts.take(at + 1).last() == parts[at as int]);
                lemma_joined_split(parts, at + 1);
            }
            self.index = at + 1;
            self.total_written = self.total_written + (bufs[at].len() - written);
            rest = Some((at, written));
            if self.index == count {
                return Ok(WritePlan { rest, whole: None, done: true });
            }
        }
        if self.index == count - 1 {
            return Ok(WritePlan { rest, whole: Some(at), done: true });
        }
        Ok(WritePlan { rest, whole: None, done: false })
    }
}

/// What is to be done after `len` bytes of the buffers from `index` on were written, and the index
/// that comes next.
pub open spec fn is_plan(
    parts: Seq<Seq<u8>>,
    index: int,
    len: int,
    plan: WritePlan,
    next: int,
) -> bool {
    let (at, within) = landing(parts, index, len);
    if len == joined(parts.skip(index)).len() {
        &&& plan.rest is None
        &&& plan.whole is None
        &&& plan.done
        &&& next == index
    } else if within != 0 {
        &&& plan.rest matches Some(rest) && rest.0 == at && rest.1 == within
        &&& if at + 1 == parts.len() - 1 {
            plan.whole matches Some(whole) && whole == at
        } else {
            plan.whole is None
        }
        &&& plan.done == (at + 1 >= parts.len() - 1)
        &&& next == at + 1
    } else {
        &&& plan.rest is None
        &&& if at == parts.len() - 1 {
            plan.whole matches Some(whole) && whole == at
        } else {
            plan.whole is None
        }
        &&& plan.done == (at == parts.len() - 1)
        &&& next == at
    }
}

/// Bytes that were taken from buffer `index` on and leave some over end in a later buffer, short
/// of its end: they are the buffers before it and its first bytes.
pub proof fn lemma_landing(parts: Seq<Seq<u8>>, index: int, len: int)
    requires
        0 <= index <= parts.len(),
        0 <= len < joined(parts.skip(index)).len(),
    ensures
        ({
            let (at, within) = landing(parts, index, len);
            &&& index <= at < parts.len()
            &&& 0 <= within < parts[at].len()
            &&& joined(parts.take(index)).len() + len == joined(parts.take(at)).len() + within
            &&& joined(parts.take(index)) + joined(parts.skip(index)).take(len) == joined(
                parts.take(at),
            ) + parts[at].take(within)
        }),
    decreases parts.len() - index,
{
    if index == parts.len() {
        assert(parts.skip(index) =~= Seq::empty());
    } else {
        let part = parts[index];
        let ahead = parts.skip(index);
        lemma_joined_front(part, parts.skip(index + 1));
        assert(ahead =~= seq![part] + parts.skip(index + 1));
        if part.len() > len {
            assert(joined(ahead).take(len) =~= part.take(len));
        } else {
            lemma_landing(parts, index + 1, len - part.len());
            assert(parts.take(index + 1).drop_last() =~= parts.take(index));
            assert(parts.take(index + 1).last() == part);
            assert(joined(parts.take(index)) + joined(ahead).take(len) =~= joined(
                parts.take(index + 1),
            ) + joined(parts.skip(index + 1)).take(len - part.len()));
        }
    }
}

/// The bytes that a plan writes.
pub open spec fn planned_bytes(parts: Seq<Seq<u8>>, plan: WritePlan) -> Seq<u8> {
    (match plan.rest {
        Some(rest) => parts[rest.0 as int].skip(rest.1 as int),
        None => Seq::empty(),
    }) + (match plan.whole {
        Some(whole) => parts[whole as int],
        None => Seq::empty(),
    })
}

/// The buffers go out one behind the other, each once: after a plan was carried out, exactly the
/// buffers before the next index are written, or all of them where the work is over.
///
/// A plan that completes one buffer and then writes one whole is left out: it writes the completed
/// buffer again, and not the last one.
pub proof fn lemma_plan_writes_in_order(
    parts: Seq<Seq<u8>>,
    index: int,
    len: int,
    plan: WritePlan,
    next: int,
)
    requires
        0 <= index <= parts.len(),
        0 < len <= joined(parts.skip(index)).len(),
        is_plan(parts, index, len, plan, next),
        !(plan.rest is Some && plan.whole is Some),
    ensures
        joined(parts.take(index)) + joined(parts.skip(index)).take(len) + planned_bytes(parts, plan)
            == (if plan.done {
            joined(parts)
        } else {
            joined(parts.take(next))
        }),
{
    let before = joined(parts.take(index));
    let went_out = joined(parts.skip(index)).take(len);
    lemma_joined_split(parts, index);
    if len == joined(parts.skip(index)).len() {
        assert(before + went_out + planned_bytes(parts, plan) =~= joined(parts));
    } else {
        lemma_landing(parts, index, len);
        let (at, within) = landing(parts, index, len);
        assert(parts.take(at + 1).drop_last() =~= parts.take(at));
        assert(parts.take(at + 1).last() == parts[at]);
        assert(joined(parts.take(at + 1)) == joined(parts.take(at)) + parts[at]);
        assert(parts.take(parts.len() as int) =~= parts);
        if within != 0 {
            assert(before + went_out + planned_bytes(parts, plan) =~= joined(parts.take(at)) + (
            parts[at].take(within) + parts[at].skip(within)));
            assert(parts[at].take(within) + parts[at].skip(within) =~= parts[at]);
        } else {
            assert(before + went_out =~= joined(parts.take(at)));
            if at == parts.len() - 1 {
                assert(planned_bytes(parts, plan) =~= parts[at]);
            } else {
                assert(planned_bytes(parts, plan) =~= Seq::<u8>::empty());
            }
        }
    }
}

/// One round of writing several buffers: how many bytes the writer took from them, the plan that was
/// carried out then, and the index that came next.
pub struct WriteRound {
    pub len: int,
    pub plan: WritePlan,
    pub next: int,
}

/// The first buffer that is to be written after some rounds.
pub open spec fn index_after(run: Seq<WriteRound>) -> int {
    if run.len() == 0 {
        0
    } else {
        run.last().next
    }
}

/// Rounds of writing several buffers, from the first one on. Every write takes something, and the
/// rounds go on until a plan says that the work is over.
pub open spec fn is_write_run(parts: Seq<Seq<u8>>, run: Seq<WriteRound>) -> bool {
    forall|k: int|
        0 <= k < run.len() ==> {
            let index = index_after(run.take(k));
            &&& 0 < (#[trigger] run[k]).len <= joined(parts.skip(index)).len()
            &&& is_plan(parts, index, run[k].len, run[k].plan, run[k].next)
            &&& k < run.len() - 1 ==> !run[k].plan.done
        }
}

/// The bytes that a writer took from the buffers end within the last but one.
pub open spec fn ends_in_last_but_one(parts: Seq<Seq<u8>>, index: int, len: int) -> bool {
    let (at, within) = landing(parts, index, len);
    at == parts.len() - 2 && within != 0
}

/// All that was written in some rounds, in order.
pub open spec fn written_in(parts: Seq<Seq<u8>>, run: Seq<WriteRound>) -> Seq<u8>
    decreases run.len(),
{
    if run.len() == 0 {
        Seq::empty()
    } else {
        let before = run.drop_last();
        written_in(parts, before) + joined(parts.skip(index_after(before))).take(run.last().len)
            + planned_bytes(parts, run.last().plan)
    }
}

/// Several buffers go out one behind the other, each once, wherever the writes end: after some
/// rounds exactly the buffers before the index are written, and all of them once the work is over.
/// There are no more rounds than buffers.
///
/// Rounds in which a write ends within the last but one buffer are left out: that buffer is then
/// written again, and not the last one.
pub proof fn lemma_run_writes_every_buffer(parts: Seq<Seq<u8>>, run: Seq<WriteRound>)
    requires
        is_write_run(parts, run),
        forall|k: int|
            0 <= k < run.len() ==> !ends_in_last_but_one(
                parts,
                index_after(run.take(k)),
                (#[trigger] run[k]).len,
            ),
    ensures
        0 <= index_after(run) <= parts.len(),
        run.len() <= parts.len(),
        run.len() > 0 && run.last().plan.done ==> written_in(parts, run) == joined(parts),
        run.len() > 0 && !run.last().plan.done ==> run.len() <= index_after(run),
        run.len() == 0 || !run.last().plan.done ==> written_in(parts, run) == joined(
            parts.take(index_after(run)),
        ),
    decreases run.len(),
{
    if run.len() == 0 {
        assert(joined(parts.take(0)) =~= Seq::<u8>::empty());
    } else {
        let before = run.drop_last();
        let last = run.len() - 1;
        assert(run.take(last) =~= before);
        assert(run[last] == run.last());
        assert forall|k: int| 0 <= k < before.len() implies {
            let index = index_after(before.take(k));
            &&& 0 < (#[trigger] before[k]).len <= joined(parts.skip(index)).len()
            &&& is_plan(parts, index, before[k].len, before[k].plan, before[k].next)
            &&& !before[k].plan.done
            &&& !ends_in_last_but_one(parts, index, before[k].len)
        } by {
            assert(before[k] == run[k]);
            assert(before.take(k) =~= run.take(k));
        }
        if before.len() > 0 {
            assert(!before[before.len() - 1].plan.done);
        }
        lemma_run_writes_every_buffer(parts, before);
        let index = index_after(before);
        let len = run.last().len;
        if index == parts.len() {
            assert(parts.skip(index) =~= Seq::empty());
        }
        if len < joined(parts.skip(index)).len() {
            lemma_landing(parts, index, len);
            lemma_landing_moves_on(parts, index, len);
        }
        lemma_plan_writes_in_order(parts, index, len, run.last().plan, run.last().next);
    }
}

/// A write that takes something and leaves something over ends behind the buffer that it started
/// with, or within it.
proof fn lemma_landing_moves_on(parts: Seq<Seq<u8>>, index: int, len: int)
    requires
        0 <= index < parts.len(),
        len > 0,
    ensures
        landing(parts, index, len).0 > index || landing(parts, index, len).1 > 0,
{
    if parts[index].len() <= len {
        lemma_landing_not_before(parts, index + 1, len - parts[index].len());
    }
}

proof fn lemma_landing_not_before(parts: Seq<Seq<u8>>, index: int, len: int)
    ensures
        landing(parts, index, len).0 >= index,
    decreases parts.len() - index,
{
    if !(index < 0 || index >= parts.len() || parts[index].len() > len) {
        lemma_landing_not_before(parts, index + 1, len - parts[index].len());
    }
}

} // verus!
