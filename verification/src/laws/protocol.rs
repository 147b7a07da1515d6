//! Laws of packets on the wire.
use crate::buffer::{contents, ByteBuffer, ByteBufferMut};
use crate::clock::{elapsed, millis_of};
use crate::error::PunchError;
use crate::protocol::{
    convert_ping_pong, fill_header, lemma_read_ping_pong_is_payload, ping, ping_pong_buffer,
    ping_pong_time, pong, NetPacket, ProtocolType,
};
use bytes::BytesMut;
use std::time::SystemTime;
use vstd::prelude::*;
use vstd::utf8::{encode_utf8, valid_utf8};

verus! {

/// A buffer is taken as a packet exactly if it is at least as long as a header, and as long as the
/// second and the third byte say. Each of the two errors tells which of these is not so.
pub proof fn lemma_packet_is_whole<B: ByteBuffer>(
    buffer: B,
    packet: Result<NetPacket<B>, PunchError>,
)
    requires
        call_ensures(NetPacket::<B>::new, (buffer,), packet),
    ensures
        packet is Ok <==> buffer.bytes().len() >= 4 && buffer.bytes()[1] * 256 + buffer.bytes()[2]
            == buffer.bytes().len(),
        packet matches Ok(packet) ==> packet@ == buffer.bytes(),
        packet == Err::<NetPacket<B>, _>(PunchError::PacketTooShort) <==> buffer.bytes().len() < 4,
        packet == Err::<NetPacket<B>, _>(PunchError::PacketLenInvalid) <==> buffer.bytes().len()
            >= 4 && buffer.bytes()[1] * 256 + buffer.bytes()[2] != buffer.bytes().len(),
{
}

/// A buffer that is taken as it is holds the same bytes as before, and gives them back.
pub proof fn lemma_packet_gives_its_buffer_back<B: ByteBuffer>(
    buffer: B,
    packet: NetPacket<B>,
    bytes: &[u8],
    back: B,
)
    requires
        call_ensures(NetPacket::<B>::new_unchecked, (buffer,), packet),
        call_ensures(NetPacket::<B>::buffer, (&packet,), bytes),
        call_ensures(NetPacket::<B>::into_buffer, (packet,), back),
    ensures
        packet@ == buffer.bytes(),
        bytes@ == buffer.bytes(),
        back == buffer,
{
}

/// The length in a header is the number that its second and third byte make.
pub proof fn lemma_length_is_in_two_bytes<B: ByteBuffer>(packet: &NetPacket<B>, length: u16)
    requires
        packet@.len() >= 3,
        call_ensures(NetPacket::<B>::data_length, (packet,), length),
    ensures
        packet@[1] == length / 256,
        packet@[2] == length % 256,
{
}

/// The protocol of a packet is the one whose number stands in the low seven bits of its first byte,
/// and a number that no protocol has is told in the error.
pub proof fn lemma_protocol_is_in_seven_bits<B: ByteBuffer>(
    packet: &NetPacket<B>,
    protocol: Result<ProtocolType, PunchError>,
)
    requires
        packet@.len() >= 1,
        call_ensures(NetPacket::<B>::protocol, (packet,), protocol),
    ensures
        protocol == Ok::<_, PunchError>(ProtocolType::Ping) <==> packet@[0] == 1 || packet@[0]
            == 129,
        protocol == Ok::<_, PunchError>(ProtocolType::Pong) <==> packet@[0] == 2 || packet@[0]
            == 130,
        protocol == Ok::<_, PunchError>(ProtocolType::KcpRaw) <==> packet@[0] == 3 || packet@[0]
            == 131,
        protocol matches Err(error) ==> (error matches PunchError::InvalidProtocol(number)
            && number < 128 && (packet@[0] == number || packet@[0] == number + 128)),
{
}

/// A packet is four bytes of header and its payload.
pub proof fn lemma_payload_is_behind_the_header<B: ByteBuffer>(
    packet: &NetPacket<B>,
    payload: &[u8],
)
    requires
        packet@.len() >= 4,
        call_ensures(NetPacket::<B>::payload, (packet,), payload),
    ensures
        payload@.len() + 4 == packet@.len(),
        packet@.take(4) + payload@ == packet@,
{
    assert(packet@.take(4) + payload@ =~= packet@);
}

/// Setting the protocol of a packet changes its first byte only, which is then the number of the
/// protocol with the first bit set.
pub proof fn lemma_protocol_is_set<B: ByteBufferMut>(
    packet: &mut NetPacket<B>,
    protocol: ProtocolType,
)
    requires
        old(packet)@.len() >= 1,
        call_ensures(NetPacket::<B>::set_protocol, (packet, protocol), ()),
    ensures
        final(packet)@.len() == old(packet)@.len(),
        protocol == ProtocolType::Ping ==> final(packet)@[0] == 129,
        protocol == ProtocolType::Pong ==> final(packet)@[0] == 130,
        protocol == ProtocolType::KcpRaw ==> final(packet)@[0] == 131,
        forall|i: int|
            0 < i < old(packet)@.len() ==> #[trigger] final(packet)@[i] == old(packet)@[i],
{
}

/// Setting the length of a packet changes its second and third byte only, which then make the
/// length of the packet as far as two bytes do.
pub proof fn lemma_length_is_set<B: ByteBufferMut>(packet: &mut NetPacket<B>)
    requires
        old(packet)@.len() >= 3,
        call_ensures(NetPacket::<B>::reset_data_len, (packet,), ()),
    ensures
        final(packet)@.len() == old(packet)@.len(),
        (old(packet)@.len() - (final(packet)@[1] * 256 + final(packet)@[2])) % 0x1_0000 == 0,
        old(packet)@.len() < 0x1_0000 ==> final(packet)@[1] * 256 + final(packet)@[2] == old(
            packet,
        )@.len(),
        forall|i: int|
            0 <= i < old(packet)@.len() && i != 1 && i != 2 ==> #[trigger] final(packet)@[i]
                == old(packet)@[i],
{
}

/// Filling in a header sets the first byte to the protocol and the next two to the length, and
/// leaves the rest of the packet.
pub proof fn lemma_header_is_filled<B: ByteBufferMut>(
    packet: &mut NetPacket<B>,
    protocol: ProtocolType,
)
    requires
        3 <= old(packet)@.len() < 0x1_0000,
        call_ensures(fill_header::<B>, (packet, protocol), ()),
    ensures
        final(packet)@.len() == old(packet)@.len(),
        protocol == ProtocolType::Ping ==> final(packet)@[0] == 129,
        protocol == ProtocolType::Pong ==> final(packet)@[0] == 130,
        protocol == ProtocolType::KcpRaw ==> final(packet)@[0] == 131,
        final(packet)@[1] * 256 + final(packet)@[2] == old(packet)@.len(),
        forall|i: int|
            3 <= i < old(packet)@.len() ==> #[trigger] final(packet)@[i] == old(packet)@[i],
{
}

/// The bytes of a ping or pong behind its header: the length of the id, the id, and the four bytes
/// of the time, the most significant first.
pub open spec fn has_id_and_time(bytes: Seq<u8>, id: Seq<char>, time: u32) -> bool {
    let end = 5 + encode_utf8(id).len() as int;
    &&& bytes.len() == end + 4
    &&& bytes[4] == encode_utf8(id).len()
    &&& bytes.subrange(5, end) == encode_utf8(id)
    &&& bytes[end] * 0x100_0000 + bytes[end + 1] * 0x1_0000 + bytes[end + 2] * 0x100 + bytes[end
        + 3] == time
}

/// A ping or pong has its id and its time behind its header, whether that is filled in or not.
pub proof fn lemma_filled_has_id_and_time(protocol: ProtocolType, id: Seq<char>, time: u32)
    requires
        encode_utf8(id).len() <= 255,
    ensures
        has_id_and_time(crate::protocol::blank_ping_pong(id, time), id, time),
        has_id_and_time(crate::protocol::filled_ping_pong(protocol, id, time), id, time),
{
    let blank = crate::protocol::blank_ping_pong(id, time);
    let filled = crate::protocol::filled_ping_pong(protocol, id, time);
    let end = 5 + encode_utf8(id).len() as int;
    let bytes = crate::buffer::be_bytes(time);
    crate::buffer::lemma_be_u32_of_bytes(time);
    assert(bytes[0] * 0x100_0000 + bytes[1] * 0x1_0000 + bytes[2] * 0x100 + bytes[3] == time);
    assert(blank.subrange(5, end) =~= encode_utf8(id));
    assert(filled.subrange(5, end) =~= encode_utf8(id));
    assert forall|i: int| 0 <= i < 4 implies blank[end + i] == #[trigger] bytes[i] && filled[end
        + i] == bytes[i] by {}
    assert(blank[end] == bytes[0] && blank[end + 1] == bytes[1] && blank[end + 2] == bytes[2]
        && blank[end + 3] == bytes[3]);
    assert(filled[end] == bytes[0] && filled[end + 1] == bytes[1] && filled[end + 2] == bytes[2]
        && filled[end + 3] == bytes[3]);
}

/// The bytes of a ping or pong without its header are made exactly for an id of at most 255 bytes.
/// They start with four zeros, and hold the id and the time.
pub proof fn lemma_blank_ping_pong_layout(
    id: &str,
    time: u32,
    buffer: Result<BytesMut, PunchError>,
)
    requires
        call_ensures(ping_pong_buffer, (id, time), buffer),
    ensures
        buffer is Ok <==> encode_utf8(id@).len() <= 255,
        buffer matches Ok(buffer) ==> contents(buffer).take(4) == seq![0u8, 0u8, 0u8, 0u8]
            && has_id_and_time(contents(buffer), id@, time),
        buffer matches Err(error) ==> error == PunchError::IdTooLong,
{
    if let Ok(buffer) = buffer {
        lemma_filled_has_id_and_time(ProtocolType::Ping, id@, time);
        assert(contents(buffer).take(4) =~= seq![0u8, 0u8, 0u8, 0u8]);
    }
}

/// A ping or pong is made exactly for an id of at most 255 bytes. Its first byte is the number of
/// its protocol with the first bit set, the next two are its length, the fourth is zero, and the id
/// and the time follow.
pub proof fn lemma_ping_pong_layout(
    protocol: ProtocolType,
    id: &str,
    time: u32,
    packet: Result<NetPacket<BytesMut>, PunchError>,
)
    requires
        call_ensures(ping_pong_time, (protocol, id, time), packet),
    ensures
        packet is Ok <==> encode_utf8(id@).len() <= 255,
        packet matches Err(error) ==> error == PunchError::IdTooLong,
        packet matches Ok(packet) ==> {
            &&& protocol == ProtocolType::Ping ==> packet@[0] == 129
            &&& protocol == ProtocolType::Pong ==> packet@[0] == 130
            &&& protocol == ProtocolType::KcpRaw ==> packet@[0] == 131
            &&& packet@[1] * 256 + packet@[2] == packet@.len()
            &&& packet@[3] == 0
            &&& has_id_and_time(packet@, id@, time)
        },
{
    if packet is Ok {
        lemma_filled_has_id_and_time(protocol, id@, time);
    }
}

/// A ping is laid out as such, with the low 32 bits of the milliseconds from the epoch to what a
/// clock showed. There is none only for an id of more than 255 bytes, or while a clock stood before
/// the epoch.
pub proof fn lemma_ping_layout(id: &str, packet: Result<NetPacket<BytesMut>, PunchError>)
    requires
        call_ensures(ping, (id,), packet),
    ensures
        packet matches Ok(packet) ==> {
            &&& packet@[0] == 129
            &&& packet@[1] * 256 + packet@[2] == packet@.len()
            &&& packet@[3] == 0
            &&& exists|clock: SystemTime, time: u32| #[trigger]
                has_id_and_time(packet@, id@, time) && (#[trigger] elapsed(clock)) is Some && (
                millis_of(elapsed(clock)->0) - time) % 0x1_0000_0000 == 0
        },
        packet matches Err(error) ==> {
            ||| error == PunchError::IdTooLong && encode_utf8(id@).len() > 255
            ||| error == PunchError::ClockBehind && exists|clock: SystemTime|
                (#[trigger] elapsed(clock)) is None
        },
{
    let clock = choose|clock: SystemTime|
        crate::protocol::bytes_of(packet) == #[trigger] crate::protocol::ping_bytes_at(clock, id@);
    assert(elapsed(clock) is Some || elapsed(clock) is None);
    if packet is Ok {
        let time = (millis_of(elapsed(clock)->0) % 0x1_0000_0000) as u32;
        lemma_filled_has_id_and_time(ProtocolType::Ping, id@, time);
        assert(has_id_and_time(packet->Ok_0@, id@, time));
    }
}

/// A pong is laid out as such, with the time that it is given.
pub proof fn lemma_pong_layout(id: &str, time: u32, packet: Result<NetPacket<BytesMut>, PunchError>)
    requires
        call_ensures(pong, (id, time), packet),
    ensures
        packet is Ok <==> encode_utf8(id@).len() <= 255,
        packet matches Err(error) ==> error == PunchError::IdTooLong,
        packet matches Ok(packet) ==> {
            &&& packet@[0] == 130
            &&& packet@[1] * 256 + packet@[2] == packet@.len()
            &&& packet@[3] == 0
            &&& has_id_and_time(packet@, id@, time)
        },
{
    if packet is Ok {
        lemma_filled_has_id_and_time(ProtocolType::Pong, id@, time);
    }
}

/// An id and a time are read from a payload exactly if it consists of the length of the id, the id,
/// and the four bytes of the time. A payload of less than five bytes is too short, and any other is
/// invalid.
pub proof fn lemma_ping_pong_is_read(payload: &[u8], read: Result<(&str, u32), PunchError>)
    requires
        call_ensures(convert_ping_pong, (payload,), read),
    ensures
        read is Ok <==> payload@.len() >= 5 && payload@.len() == payload@[0] + 5 && valid_utf8(
            payload@.subrange(1, payload@[0] + 1),
        ),
        read matches Ok((id, time)) ==> has_id_and_time(
            seq![0u8, 0u8, 0u8, 0u8] + payload@,
            id@,
            time,
        ),
        read matches Err(error) ==> error == (if payload@.len() < 5 {
            PunchError::PingPongTooShort
        } else {
            PunchError::PingPongInvalid
        }),
{
    lemma_read_ping_pong_is_payload(payload@);
    if let Ok((id, time)) = read {
        lemma_filled_has_id_and_time(ProtocolType::Ping, id@, time);
        assert(seq![0u8, 0u8, 0u8, 0u8] + payload@ =~= crate::protocol::blank_ping_pong(id@, time));
    }
}

/// The number of a protocol leads back to it. There are three of them, and any other number is
/// refused and told.
pub proof fn lemma_protocol_has_its_number(
    protocol: ProtocolType,
    number: u8,
    back: Result<ProtocolType, PunchError>,
    other: u8,
    read: Result<ProtocolType, PunchError>,
)
    requires
        call_ensures(<u8 as From<ProtocolType>>::from, (protocol,), number),
        call_ensures(<ProtocolType as TryFrom<u8>>::try_from, (number,), back),
        call_ensures(<ProtocolType as TryFrom<u8>>::try_from, (other,), read),
    ensures
        back == Ok::<ProtocolType, PunchError>(protocol),
        protocol == ProtocolType::Ping ==> number == 1,
        protocol == ProtocolType::Pong ==> number == 2,
        protocol == ProtocolType::KcpRaw ==> number == 3,
        read is Ok <==> 1 <= other <= 3,
        read is Err ==> read == Err::<ProtocolType, PunchError>(PunchError::InvalidProtocol(other)),
{
}

} // verus!
