//! Laws of packets on a byte stream.
use crate::codec::{
    ends_in_last_but_one, joined, lemma_plan_writes_in_order, parts_of, DecodeStep,
    LengthPrefixedDecoder, LengthPrefixedEncoder, MultiWrite, WritePlan,
};
use crate::error::PunchError;
use vstd::prelude::*;

verus! {

/// A new decoder holds nothing.
pub proof fn lemma_new_decoder_is_empty(decoder: LengthPrefixedDecoder)
    requires
        call_ensures(LengthPrefixedDecoder::new, (), decoder),
    ensures
        decoder@.len() == 0,
{
}

/// Starting to decode moves bytes and loses none. What is held is a packet that is handed out and
/// the bytes behind it, if it has a header and as many bytes as its second and third byte say.
/// Otherwise it goes to the caller's buffer, and reading goes on behind it. Only a buffer that is
/// shorter than a header, or than the packet, makes it fail, and then nothing moves.
pub proof fn lemma_decode_moves_bytes(
    decoder: &mut LengthPrefixedDecoder,
    src: &mut [u8],
    step: DecodeStep,
)
    requires
        call_ensures(LengthPrefixedDecoder::decode, (decoder, src), step),
    ensures
        match step {
            DecodeStep::Packet(length) => {
                &&& 4 <= old(decoder)@.len()
                &&& length == old(decoder)@[1] * 256 + old(decoder)@[2]
                &&& length <= old(decoder)@.len()
                &&& length <= old(src)@.len() == final(src)@.len()
                &&& final(src)@.take(length as int) + final(decoder)@ == old(decoder)@
                &&& final(src)@.skip(length as int) == old(src)@.skip(length as int)
            },
            DecodeStep::Read(offset) => {
                &&& 4 <= old(src)@.len() == final(src)@.len()
                &&& offset == old(decoder)@.len()
                &&& offset < old(src)@.len()
                &&& offset >= 4 ==> offset < old(decoder)@[1] * 256 + old(decoder)@[2] <= old(
                    src,
                )@.len()
                &&& final(src)@.take(offset as int) == old(decoder)@
                &&& final(src)@.skip(offset as int) == old(src)@.skip(offset as int)
                &&& final(decoder)@.len() == 0
            },
            DecodeStep::Failed(error) => {
                &&& error == PunchError::BufferTooShort
                &&& old(src)@.len() < 4 || (old(decoder)@.len() >= 4 && old(decoder)@[1] * 256
                    + old(decoder)@[2] > old(src)@.len())
                &&& final(decoder)@ == old(decoder)@
                &&& final(src)@ == old(src)@
            },
        },
{
    let held = old(decoder)@;
    if let DecodeStep::Packet(length) = step {
        assert(final(src)@.take(length as int) =~= held.take(length as int));
        assert(held.take(length as int) + held.skip(length as int) =~= held);
        assert(final(src)@.skip(length as int) =~= old(src)@.skip(length as int));
    }
    if let DecodeStep::Read(offset) = step {
        assert(final(src)@.take(offset as int) =~= held);
        assert(final(src)@.skip(offset as int) =~= old(src)@.skip(offset as int));
    }
}

/// Going on after a read loses no byte. The bytes that were read so far are a packet at the front of
/// the caller's buffer and the bytes behind it, which are held then, if they have a header and are
/// as many as their second and third byte say. Otherwise reading goes on behind them, or fails where
/// the buffer is shorter than the packet.
pub proof fn lemma_decode_goes_on(
    decoder: &mut LengthPrefixedDecoder,
    src: &[u8],
    offset: usize,
    len: usize,
    step: DecodeStep,
)
    requires
        old(decoder)@.len() == 0,
        4 <= src@.len(),
        offset + len <= src@.len(),
        call_ensures(LengthPrefixedDecoder::decode_read, (decoder, src, offset, len), step),
    ensures
        match step {
            DecodeStep::Packet(length) => {
                &&& 4 <= offset + len
                &&& length == src@[1] * 256 + src@[2]
                &&& length <= offset + len
                &&& src@.take(length as int) + final(decoder)@ == src@.take(offset + len)
            },
            DecodeStep::Read(next) => {
                &&& next == offset + len
                &&& next >= 4 ==> next < src@[1] * 256 + src@[2] <= src@.len()
                &&& final(decoder)@.len() == 0
            },
            DecodeStep::Failed(error) => {
                &&& error == PunchError::BufferTooShort
                &&& offset + len >= 4
                &&& src@[1] * 256 + src@[2] > src@.len()
                &&& final(decoder)@.len() == 0
            },
        },
{
    if let DecodeStep::Packet(length) = step {
        let stream = src@.take(offset + len);
        assert(src@.take(length as int) =~= stream.take(length as int));
        assert(stream.take(length as int) + stream.skip(length as int) =~= stream);
    }
}

/// What is held and is a packet is handed out with the bytes behind it kept, and what is no packet
/// yet moves to the caller's buffer as a whole.
pub proof fn lemma_held_bytes_move(
    decoder: &mut LengthPrefixedDecoder,
    src: &mut [u8],
    offset: &mut usize,
    found: Option<Result<usize, PunchError>>,
)
    requires
        4 <= old(src)@.len(),
        call_ensures(LengthPrefixedDecoder::process_buf, (decoder, src, offset), found),
    ensures
        match found {
            Some(Ok(length)) => {
                &&& 4 <= old(decoder)@.len()
                &&& length == old(decoder)@[1] * 256 + old(decoder)@[2]
                &&& length <= old(src)@.len() == final(src)@.len()
                &&& final(src)@.take(length as int) + final(decoder)@ == old(decoder)@
                &&& final(src)@.skip(length as int) == old(src)@.skip(length as int)
                &&& *final(offset) == *old(offset)
            },
            Some(Err(error)) => {
                &&& error == PunchError::BufferTooShort
                &&& old(decoder)@.len() >= 4
                &&& old(decoder)@[1] * 256 + old(decoder)@[2] > old(src)@.len()
                &&& final(decoder)@ == old(decoder)@
                &&& final(src)@ == old(src)@
                &&& *final(offset) == *old(offset)
            },
            None => {
                &&& old(decoder)@.len() >= 4 ==> old(decoder)@.len() < old(decoder)@[1] * 256
                    + old(decoder)@[2]
                &&& final(src)@.take(old(decoder)@.len() as int) == old(decoder)@
                &&& final(src)@.skip(old(decoder)@.len() as int) == old(src)@.skip(
                    old(decoder)@.len() as int,
                )
                &&& final(decoder)@.len() == 0
                &&& *final(offset) == *old(offset) + old(decoder)@.len()
            },
        },
{
    let held = old(decoder)@;
    if let Some(Ok(length)) = found {
        assert(final(src)@.take(length as int) =~= held.take(length as int));
        assert(held.take(length as int) + held.skip(length as int) =~= held);
        assert(final(src)@.skip(length as int) =~= old(src)@.skip(length as int));
    }
    if found is None {
        assert(final(src)@.take(held.len() as int) =~= held);
        assert(final(src)@.skip(held.len() as int) =~= old(src)@.skip(held.len() as int));
    }
}

/// Of bytes that were read, those behind the packet at their front are held behind what is held
/// already.
pub proof fn lemma_read_bytes_are_kept(
    decoder: &mut LengthPrefixedDecoder,
    src: &[u8],
    offset: usize,
    found: Option<Result<usize, PunchError>>,
)
    requires
        4 <= src@.len(),
        offset <= src@.len(),
        call_ensures(LengthPrefixedDecoder::process_packet, (decoder, src, offset), found),
    ensures
        match found {
            Some(Ok(length)) => {
                &&& 4 <= offset
                &&& length == src@[1] * 256 + src@[2]
                &&& length <= offset
                &&& final(decoder)@ == old(decoder)@ + src@.subrange(length as int, offset as int)
            },
            Some(Err(error)) => {
                &&& error == PunchError::BufferTooShort
                &&& 4 <= offset
                &&& src@[1] * 256 + src@[2] > src@.len()
                &&& final(decoder)@ == old(decoder)@
            },
            None => {
                &&& 4 <= offset ==> offset < src@[1] * 256 + src@[2] <= src@.len()
                &&& final(decoder)@ == old(decoder)@
            },
        },
{
    if let Some(Ok(length)) = found {
        assert(src@.subrange(length as int, offset as int) =~= src@.take(offset as int).skip(
            length as int,
        ));
    }
}

/// An attempt to decode that has to wait loses nothing: the next one starts with the same bytes.
/// After any other failure it starts with what was held.
pub proof fn lemma_waiting_keeps_bytes(
    decoder: &mut LengthPrefixedDecoder,
    src: &[u8],
    offset: usize,
    would_block: bool,
)
    requires
        offset <= src@.len(),
        call_ensures(
            LengthPrefixedDecoder::try_decode_failed,
            (decoder, src, offset, would_block),
            (),
        ),
    ensures
        would_block ==> final(decoder)@ == old(decoder)@ + src@.subrange(0, offset as int),
        !would_block ==> final(decoder)@ == old(decoder)@,
{
    assert(src@.subrange(0, offset as int) =~= src@.take(offset as int));
}

/// Data is written as it is, exactly if it is as long as its second and third byte say.
pub proof fn lemma_data_is_written_as_it_is<'a>(
    encoder: &LengthPrefixedEncoder,
    data: &'a [u8],
    bytes: Result<&'a [u8], PunchError>,
)
    requires
        data@.len() >= 3,
        call_ensures(LengthPrefixedEncoder::encode, (encoder, data), bytes),
    ensures
        bytes is Ok <==> data@[1] * 256 + data@[2] == data@.len(),
        bytes matches Ok(bytes) ==> bytes@ == data@,
        bytes matches Err(error) ==> error == PunchError::FrameLenInvalid,
{
}

/// Writing several buffers starts with the first one, however it is started, and all bytes remain.
pub proof fn lemma_writing_starts_at_the_front(
    encoder: &LengthPrefixedEncoder,
    bufs: &[&[u8]],
    write: MultiWrite,
    index: usize,
    count: usize,
    made: MultiWrite,
    made_index: usize,
    made_count: usize,
)
    requires
        call_ensures(LengthPrefixedEncoder::encode_multiple, (encoder, bufs), write),
        call_ensures(MultiWrite::next_index, (&write,), index),
        call_ensures(MultiWrite::remaining, (&write, bufs), count),
        call_ensures(MultiWrite::new, (bufs,), made),
        call_ensures(MultiWrite::next_index, (&made,), made_index),
        call_ensures(MultiWrite::remaining, (&made, bufs), made_count),
    ensures
        index == 0,
        count == joined(Seq::new(bufs@.len(), |i: int| bufs@[i]@)).len(),
        made_index == 0,
        made_count == count,
{
    assert(parts_of(bufs@) =~= Seq::new(bufs@.len(), |i: int| bufs@[i]@));
}

/// A write that takes nothing fails. After any other, what was written before it, what it took from
/// the buffers, and what its plan writes, is a number of whole buffers from the first one on, in
/// order: those before the next index, or all of them where the plan ends the work. Left out are
/// writes that end within the last but one buffer.
pub proof fn lemma_write_goes_on_in_order(
    write: &mut MultiWrite,
    bufs: &[&[u8]],
    len: usize,
    plan: Result<WritePlan, PunchError>,
)
    requires
        0 <= old(write).index() <= bufs@.len(),
        len <= joined(parts_of(bufs@).skip(old(write).index())).len(),
        !ends_in_last_but_one(parts_of(bufs@), old(write).index(), len as int),
        call_ensures(MultiWrite::wrote, (write, bufs, len), plan),
    ensures
        plan is Ok <==> len > 0,
        plan matches Err(error) ==> error == PunchError::WriteZero && *final(write) == *old(write),
        plan matches Ok(plan) ==> {
            let parts = Seq::new(bufs@.len(), |i: int| bufs@[i]@);
            let rest = match plan.rest {
                Some((at, from)) => parts[at as int].skip(from as int),
                None => Seq::empty(),
            };
            let whole = match plan.whole {
                Some(at) => parts[at as int],
                None => Seq::empty(),
            };
            joined(parts.take(old(write).index())) + joined(parts.skip(old(write).index())).take(
                len as int,
            ) + (rest + whole) == (if plan.done {
                joined(parts)
            } else {
                joined(parts.take(final(write).index()))
            })
        },
{
    let parts = Seq::new(bufs@.len(), |i: int| bufs@[i]@);
    assert(parts_of(bufs@) =~= parts);
    if let Ok(plan) = plan {
        lemma_plan_writes_in_order(
            parts,
            old(write).index(),
            len as int,
            plan,
            final(write).index(),
        );
    }
}

/// What remains to be written is the buffers from the next index on.
pub proof fn lemma_buffers_from_the_index_remain(
    write: &MultiWrite,
    bufs: &[&[u8]],
    index: usize,
    count: usize,
)
    requires
        call_ensures(MultiWrite::next_index, (write,), index),
        call_ensures(MultiWrite::remaining, (write, bufs), count),
    ensures
        count == joined(Seq::new(bufs@.len(), |i: int| bufs@[i]@).skip(index as int)).len(),
{
    assert(parts_of(bufs@) =~= Seq::new(bufs@.len(), |i: int| bufs@[i]@));
}

/// A write ends with `within` bytes in buffer `at`, with more of it to come.
pub open spec fn ends_at(
    parts: Seq<Seq<u8>>,
    index: int,
    len: int,
    at: int,
    within: int,
) -> bool {
    &&& 0 <= index <= at < parts.len()
    &&& 0 <= within < parts[at].len()
    &&& joined(parts.take(index)).len() + len == joined(parts.take(at)).len() + within
}

/// A write ends in one buffer only.
pub proof fn lemma_write_ends_in_one_buffer(
    parts: Seq<Seq<u8>>,
    index: int,
    len: int,
    at: int,
    within: int,
    other: int,
    other_within: int,
)
    requires
        ends_at(parts, index, len, at, within),
        ends_at(parts, index, len, other, other_within),
    ensures
        at == other,
        within == other_within,
{
    if at < other {
        lemma_front_is_shorter(parts, at, other);
    } else if other < at {
        lemma_front_is_shorter(parts, other, at);
    }
}

proof fn lemma_front_is_shorter(parts: Seq<Seq<u8>>, at: int, later: int)
    requires
        0 <= at < later <= parts.len(),
    ensures
        joined(parts.take(at)).len() + parts[at].len() <= joined(parts.take(later)).len(),
{
    crate::codec::lemma_joined_split(parts.take(later), at + 1);
    assert(parts.take(later).take(at + 1) =~= parts.take(at + 1));
    assert(parts.take(at + 1).drop_last() =~= parts.take(at));
    assert(parts.take(at + 1).last() == parts[at]);
}

/// After a write that ends in a buffer, the rest of that buffer is written, if it was begun. The
/// buffer that comes then is next. If it is the last one, the buffer in which the write ended is
/// written whole, and the work is over, as it is if none comes then.
pub proof fn lemma_rest_of_a_buffer_is_written(
    write: &mut MultiWrite,
    bufs: &[&[u8]],
    len: usize,
    at: int,
    within: int,
    plan: Result<WritePlan, PunchError>,
)
    requires
        len > 0,
        ends_at(parts_of(bufs@), old(write).index(), len as int, at, within),
        call_ensures(MultiWrite::wrote, (write, bufs, len), plan),
    ensures
        plan matches Ok(plan) && {
            let next = if within > 0 {
                at + 1
            } else {
                at
            };
            &&& within == 0 ==> plan.rest is None
            &&& within > 0 ==> (plan.rest matches Some(rest) && rest.0 == at && rest.1 == within)
            &&& next == bufs@.len() - 1 ==> (plan.whole matches Some(whole) && whole == at)
            &&& next != bufs@.len() - 1 ==> plan.whole is None
            &&& plan.done <==> next >= bufs@.len() - 1
            &&& final(write).index() == next
        },
{
    let parts = parts_of(bufs@);
    let index = old(write).index();
    crate::codec::lemma_joined_split(parts, index);
    crate::codec::lemma_joined_split(parts, at);
    lemma_front_is_shorter(parts, at, parts.len() as int);
    assert(parts.take(parts.len() as int) =~= parts);
    crate::codec::lemma_landing(parts, index, len as int);
    let (found, found_within) = crate::codec::landing(parts, index, len as int);
    lemma_write_ends_in_one_buffer(parts, index, len as int, at, within, found, found_within);
}

/// After a write that took all that remained, the work is over and nothing more is written. A write
/// that took nothing fails, and nothing changes.
pub proof fn lemma_last_write_ends_the_work(
    write: &mut MultiWrite,
    bufs: &[&[u8]],
    count: usize,
    plan: Result<WritePlan, PunchError>,
    write_nothing: &mut MultiWrite,
    nothing: Result<WritePlan, PunchError>,
)
    requires
        count > 0,
        call_ensures(MultiWrite::remaining, (&*old(write), bufs), count),
        call_ensures(MultiWrite::wrote, (write, bufs, count), plan),
        call_ensures(MultiWrite::wrote, (write_nothing, bufs, 0), nothing),
    ensures
        plan == Ok::<WritePlan, PunchError>(WritePlan { rest: None, whole: None, done: true }),
        nothing == Err::<WritePlan, PunchError>(PunchError::WriteZero),
        *final(write_nothing) == *old(write_nothing),
{
}

/// Buffers that are joined are their bytes, one behind the other: nothing for none, and for one more
/// buffer its bytes in front.
pub proof fn lemma_joined_is_all_bytes(first: Seq<u8>, parts: Seq<Seq<u8>>)
    ensures
        joined(Seq::empty()) == Seq::<u8>::empty(),
        joined(seq![first] + parts) == first + joined(parts),
        joined(parts.push(first)) == joined(parts) + first,
{
    crate::codec::lemma_joined_front(first, parts);
    assert(parts.push(first).drop_last() =~= parts);
}

} // verus!
