//! Packets on the wire.
//!
//! A packet starts with four bytes: a set bit and the protocol in seven bits, the length of the
//! whole packet in two bytes, the most significant first, and one byte in reserve. The payload
//! follows. That of a ping or pong is the length of an id in one byte, the id, and a timestamp in
//! four bytes, the most significant first.
use crate::buffer::{
    be_bytes, be_u32, contents, lemma_be_bytes_of_u32, lemma_be_u32_of_bytes, put_slice, put_u32,
    put_u8, resize, with_capacity, ByteBuffer, ByteBufferMut,
};
use crate::clock::{now, timestamp_at};
use crate::error::PunchError;
use bytes::BytesMut;
use std::time::SystemTime;
use vstd::prelude::*;
use vstd::slice::slice_subrange;
use vstd::utf8::{
    decode_utf8, decode_utf8_encode_utf8, encode_utf8, encode_utf8_decode_utf8,
    encode_utf8_valid_utf8, valid_utf8,
};

verus! {

/// The length of a packet's header.
pub const HEAD_LEN: usize = 4;

/// What a packet is for.
#[derive(Clone, Copy, Debug, PartialEq, Eq, Structural)]
pub enum ProtocolType {
    Ping,
    Pong,
    KcpRaw,
}

impl ProtocolType {
    /// The number of a protocol on the wire.
    pub open spec fn number(self) -> u8 {
        match self {
            ProtocolType::Ping => 1,
            ProtocolType::Pong => 2,
            ProtocolType::KcpRaw => 3,
        }
    }
}

/// The protocol that has a number.
pub open spec fn protocol_of_number(value: u8) -> Result<ProtocolType, PunchError> {
    if value == 1 {
        Ok(ProtocolType::Ping)
    } else if value == 2 {
        Ok(ProtocolType::Pong)
    } else if value == 3 {
        Ok(ProtocolType::KcpRaw)
    } else {
        Err(PunchError::InvalidProtocol(value))
    }
}

impl vstd::std_specs::convert::TryFromSpecImpl<u8> for ProtocolType {
    open spec fn obeys_try_from_spec() -> bool {
        true
    }

    open spec fn try_from_spec(value: u8) -> Result<Self, PunchError> {
        protocol_of_number(value)
    }
}

impl TryFrom<u8> for ProtocolType {
    type Error = PunchError;

    fn try_from(value: u8) -> (protocol: Result<Self, PunchError>) {
        match value {
            1 => Ok(ProtocolType::Ping),
            2 => Ok(ProtocolType::Pong),
            3 => Ok(ProtocolType::KcpRaw),
            _ => Err(PunchError::InvalidProtocol(value)),
        }
    }
}

impl vstd::std_specs::convert::FromSpecImpl<ProtocolType> for u8 {
    open spec fn obeys_from_spec() -> bool {
        true
    }

    open spec fn from_spec(protocol: ProtocolType) -> u8 {
        protocol.number()
    }
}

impl From<ProtocolType> for u8 {
    fn from(protocol: ProtocolType) -> (number: u8) {
        match protocol {
            ProtocolType::Ping => 1,
            ProtocolType::Pong => 2,
            ProtocolType::KcpRaw => 3,
        }
    }
}

/// The length that a packet's header gives.
pub open spec fn length_field(packet: Seq<u8>) -> int {
    packet[1] * 256 + packet[2]
}

/// A whole packet: a header, and as many bytes as the header says.
pub open spec fn well_formed(packet: Seq<u8>) -> bool {
    packet.len() >= HEAD_LEN && length_field(packet) == packet.len()
}

/// The protocol that a packet's header gives, whatever its first bit.
pub open spec fn protocol_field(packet: Seq<u8>) -> Result<ProtocolType, PunchError> {
    protocol_of_number((packet[0] % 128) as u8)
}

/// A packet with its protocol set, and its first bit.
pub open spec fn with_protocol(packet: Seq<u8>, protocol: ProtocolType) -> Seq<u8> {
    packet.update(0, (128 + protocol.number()) as u8)
}

/// A packet with its actual length in the header, as far as two bytes hold it.
pub open spec fn with_length(packet: Seq<u8>) -> Seq<u8> {
    packet.update(1, (packet.len() / 256 % 256) as u8).update(2, (packet.len() % 256) as u8)
}

/// A packet over the bytes of a buffer.
pub struct NetPacket<B> {
    buffer: B,
}

impl<B> NetPacket<B> {
    /// The buffer that the packet lies over.
    pub closed spec fn inner(&self) -> B {
        self.buffer
    }
}

impl<B: ByteBuffer> View for NetPacket<B> {
    type V = Seq<u8>;

    open spec fn view(&self) -> Seq<u8> {
        self.inner().bytes()
    }
}

impl<B: ByteBuffer> NetPacket<B> {
    /// Takes a buffer as a packet, whatever it holds.
    pub fn new_unchecked(buffer: B) -> (packet: NetPacket<B>)
        ensures
            packet.inner() == buffer,
    {
        NetPacket { buffer }
    }

    /// Takes a buffer as a packet, if it holds exactly one.
    pub fn new(buffer: B) -> (packet: Result<NetPacket<B>, PunchError>)
        ensures
            match packet {
                Ok(packet) => packet.inner() == buffer && well_formed(buffer.bytes()),
                Err(error) => !well_formed(buffer.bytes()) && error == (if buffer.bytes().len()
                    < HEAD_LEN {
                    PunchError::PacketTooShort
                } else {
                    PunchError::PacketLenInvalid
                }),
            },
    {
        let len: usize = buffer.as_bytes().len();
        if len < HEAD_LEN {
            return Err(PunchError::PacketTooShort);
        }
        let packet = NetPacket::new_unchecked(buffer);
        if packet.data_length() as usize != len {
            return Err(PunchError::PacketLenInvalid);
        }
        Ok(packet)
    }

    /// The protocol of the packet.
    pub fn protocol(&self) -> (protocol: Result<ProtocolType, PunchError>)
        requires
            self@.len() >= 1,
        ensures
            protocol == protocol_field(self@),
    {
        let first: u8 = self.buffer.as_bytes()[0];
        assert(first & 0x7F == first % 128) by (bit_vector);
        ProtocolType::try_from(first & 0x7F)
    }

    /// The length of the packet, as its header gives it.
    pub fn data_length(&self) -> (length: u16)
        requires
            self@.len() >= 3,
        ensures
            length == length_field(self@),
    {
        let high: u8 = self.buffer.as_bytes()[1];
        let low: u8 = self.buffer.as_bytes()[2];
        assert(((high as u16) << 8) | (low as u16) == high * 256 + low) by (bit_vector);
        ((high as u16) << 8) | (low as u16)
    }

    /// All the bytes of the packet.
    pub fn buffer(&self) -> (bytes: &[u8])
        ensures
            bytes@ == self@,
    {
        self.buffer.as_bytes()
    }

    /// The buffer that the packet lies over.
    pub fn into_buffer(self) -> (buffer: B)
        ensures
            buffer == self.inner(),
    {
        self.buffer
    }

    /// The bytes behind the header.
    pub fn payload(&self) -> (bytes: &[u8])
        requires
            self@.len() >= HEAD_LEN,
        ensures
            bytes@ == self@.skip(HEAD_LEN as int),
    {
        let bytes = self.buffer.as_bytes();
        assert(bytes@.subrange(HEAD_LEN as int, bytes@.len() as int) =~= bytes@.skip(
            HEAD_LEN as int,
        ));
        slice_subrange(bytes, HEAD_LEN, bytes.len())
    }
}

impl<B: ByteBufferMut> NetPacket<B> {
    /// Sets the first bit.
    pub(crate) fn set_high_flag(&mut self)
        requires
            old(self)@.len() >= 1,
        ensures
            final(self)@ == old(self)@.update(0, (128 + old(self)@[0] % 128) as u8),
    {
        let bytes = self.buffer.as_bytes_mut();
        let first: u8 = bytes[0];
        assert(first | 0x80 == 128 + first % 128) by (bit_vector);
        bytes[0] = first | 0x80;
    }

    /// Sets the protocol, and the first bit.
    pub fn set_protocol(&mut self, protocol_type: ProtocolType)
        requires
            old(self)@.len() >= 1,
        ensures
            final(self)@ == with_protocol(old(self)@, protocol_type),
    {
        let number: u8 = u8::from(protocol_type);
        let bytes = self.buffer.as_bytes_mut();
        bytes[0] = number;
        self.set_high_flag();
        assert(self@ =~= with_protocol(old(self)@, protocol_type));
    }

    /// Writes the packet's actual length into its header, as far as two bytes hold it.
    pub fn reset_data_len(&mut self)
        requires
            old(self)@.len() >= 3,
        ensures
            final(self)@ == with_length(old(self)@),
    {
        let len: usize = self.buffer().len();
        let high: u8 = (len / 256 % 256) as u8;
        let low: u8 = (len % 256) as u8;
        let bytes = self.buffer.as_bytes_mut();
        bytes[1] = high;
        bytes[2] = low;
    }
}

/// A packet whose protocol and length were set is whole, reads back its protocol, and keeps its
/// payload. Its length has to fit into two bytes.
pub proof fn lemma_set_packet_reads_back(packet: Seq<u8>, protocol: ProtocolType)
    requires
        HEAD_LEN <= packet.len() < 0x1_0000,
    ensures
        well_formed(with_length(with_protocol(packet, protocol))),
        protocol_field(with_length(with_protocol(packet, protocol))) == Ok::<_, PunchError>(
            protocol,
        ),
        with_length(with_protocol(packet, protocol)).skip(HEAD_LEN as int) == packet.skip(
            HEAD_LEN as int,
        ),
        with_length(with_protocol(packet, protocol))[0] >= 128,
{
    let set = with_length(with_protocol(packet, protocol));
    assert(set.skip(HEAD_LEN as int) =~= packet.skip(HEAD_LEN as int));
}

/// A number is that of at most one protocol, and every protocol has the number that it is read
/// from.
pub proof fn lemma_protocol_number_reads_back(protocol: ProtocolType, value: u8)
    ensures
        protocol_of_number(protocol.number()) == Ok::<_, PunchError>(protocol),
        protocol_of_number(value) matches Ok(read) ==> read.number() == value,
{
}

/// The payload of a ping or pong: the length of the id, the id, and the time.
pub open spec fn ping_pong_payload(id: Seq<u8>, time: u32) -> Seq<u8> {
    seq![id.len() as u8] + id + be_bytes(time)
}

/// What a ping or pong says, read from its payload.
pub open spec fn read_ping_pong(payload: Seq<u8>) -> Result<(Seq<char>, u32), PunchError> {
    if payload.len() < 5 {
        Err(PunchError::PingPongTooShort)
    } else {
        let end = payload[0] + 1;
        if end + 4 != payload.len() {
            Err(PunchError::PingPongInvalid)
        } else if !valid_utf8(payload.subrange(1, end)) {
            Err(PunchError::PingPongInvalid)
        } else {
            Ok((decode_utf8(payload.subrange(1, end)), be_u32(payload.skip(end))))
        }
    }
}

/// What is read from the payload of a ping or pong is the id and the time that it was made of.
pub proof fn lemma_ping_pong_reads_back(id: Seq<char>, time: u32)
    requires
        encode_utf8(id).len() <= 255,
    ensures
        read_ping_pong(ping_pong_payload(encode_utf8(id), time)) == Ok::<_, PunchError>((id, time)),
{
    let bytes = encode_utf8(id);
    let payload = ping_pong_payload(bytes, time);
    encode_utf8_valid_utf8(id);
    encode_utf8_decode_utf8(id);
    lemma_be_u32_of_bytes(time);
    assert(payload.subrange(1, bytes.len() as int + 1) =~= bytes);
    assert(payload.skip(bytes.len() as int + 1) =~= be_bytes(time));
}

/// A payload that can be read as a ping or pong is the one that is made of what was read.
pub proof fn lemma_read_ping_pong_is_payload(payload: Seq<u8>)
    ensures
        read_ping_pong(payload) matches Ok((id, time)) ==> payload == ping_pong_payload(
            encode_utf8(id),
            time,
        ) && encode_utf8(id).len() <= 255,
{
    if let Ok((id, time)) = read_ping_pong(payload) {
        let end = payload[0] + 1;
        let bytes = payload.subrange(1, end);
        decode_utf8_encode_utf8(bytes);
        lemma_be_bytes_of_u32(payload.skip(end));
        assert(payload =~= ping_pong_payload(bytes, time));
    }
}

/// The bytes of a ping or pong whose header is still blank.
pub open spec fn blank_ping_pong(id: Seq<char>, time: u32) -> Seq<u8> {
    seq![0u8, 0u8, 0u8, 0u8] + ping_pong_payload(encode_utf8(id), time)
}

/// The bytes of a ping or pong with its header filled in.
pub open spec fn filled_ping_pong(protocol: ProtocolType, id: Seq<char>, time: u32) -> Seq<u8> {
    with_length(with_protocol(blank_ping_pong(id, time), protocol))
}

/// A ping or pong with its header filled in is a whole packet of its protocol, from whose payload
/// the id and the time are read back.
pub proof fn lemma_filled_ping_pong_reads_back(protocol: ProtocolType, id: Seq<char>, time: u32)
    requires
        encode_utf8(id).len() <= 255,
    ensures
        well_formed(filled_ping_pong(protocol, id, time)),
        filled_ping_pong(protocol, id, time)[0] >= 128,
        protocol_field(filled_ping_pong(protocol, id, time)) == Ok::<_, PunchError>(protocol),
        read_ping_pong(filled_ping_pong(protocol, id, time).skip(HEAD_LEN as int)) == Ok::<
            _,
            PunchError,
        >((id, time)),
{
    let blank = blank_ping_pong(id, time);
    lemma_set_packet_reads_back(blank, protocol);
    lemma_ping_pong_reads_back(id, time);
    assert(blank.skip(HEAD_LEN as int) =~= ping_pong_payload(encode_utf8(id), time));
}

/// The bytes of a ping or pong whose header is still blank.
pub fn ping_pong_buffer(self_id: &str, time: u32) -> (buffer: Result<BytesMut, PunchError>)
    ensures
        match buffer {
            Ok(buffer) => encode_utf8(self_id@).len() <= 255 && contents(buffer)
                == blank_ping_pong(self_id@, time),
            Err(error) => encode_utf8(self_id@).len() > 255 && error == PunchError::IdTooLong,
        },
{
    let bytes = self_id.as_bytes();
    if bytes.len() > 255 {
        return Err(PunchError::IdTooLong);
    }
    let mut buffer = with_capacity(HEAD_LEN + 1 + bytes.len() + 4);
    resize(&mut buffer, HEAD_LEN, 0);
    put_u8(&mut buffer, bytes.len() as u8);
    put_slice(&mut buffer, bytes);
    put_u32(&mut buffer, time);
    assert(contents(buffer) =~= blank_ping_pong(self_id@, time));
    Ok(buffer)
}

/// Fills in the header of a packet: its protocol and its length.
pub fn fill_header<B: ByteBufferMut>(packet: &mut NetPacket<B>, protocol_type: ProtocolType)
    requires
        old(packet)@.len() >= 3,
    ensures
        final(packet)@ == with_length(with_protocol(old(packet)@, protocol_type)),
{
    packet.set_protocol(protocol_type);
    packet.reset_data_len();
}

/// The bytes of a ping or pong, unless the id is too long for it.
pub open spec fn ping_pong_bytes(protocol: ProtocolType, id: Seq<char>, time: u32) -> Result<
    Seq<u8>,
    PunchError,
> {
    if encode_utf8(id).len() <= 255 {
        Ok(filled_ping_pong(protocol, id, time))
    } else {
        Err(PunchError::IdTooLong)
    }
}

/// The bytes of a ping that is made while the clock shows a time.
pub open spec fn ping_bytes_at(clock: SystemTime, id: Seq<char>) -> Result<Seq<u8>, PunchError> {
    match timestamp_at(clock) {
        Ok(time) => ping_pong_bytes(ProtocolType::Ping, id, time),
        Err(error) => Err(error),
    }
}

/// The bytes of a packet, where there is one.
pub open spec fn bytes_of(packet: Result<NetPacket<BytesMut>, PunchError>) -> Result<
    Seq<u8>,
    PunchError,
> {
    match packet {
        Ok(packet) => Ok(packet@),
        Err(error) => Err(error),
    }
}

/// A ping or pong with a given time.
pub fn ping_pong_time(protocol_type: ProtocolType, self_id: &str, time: u32) -> (packet: Result<
    NetPacket<BytesMut>,
    PunchError,
>)
    ensures
        bytes_of(packet) == ping_pong_bytes(protocol_type, self_id@, time),
{
    let buffer = match ping_pong_buffer(self_id, time) {
        Ok(buffer) => buffer,
        Err(error) => return Err(error),
    };
    let mut packet = NetPacket::new_unchecked(buffer);
    fill_header(&mut packet, protocol_type);
    Ok(packet)
}

/// A ping with the current time.
pub fn ping(self_id: &str) -> (packet: Result<NetPacket<BytesMut>, PunchError>)
    ensures
        exists|clock: SystemTime| bytes_of(packet) == #[trigger] ping_bytes_at(clock, self_id@),
{
    let now = now();
    let ghost clock = choose|clock: SystemTime| now == timestamp_at(clock);
    let packet = match now {
        Ok(time) => ping_pong_time(ProtocolType::Ping, self_id, time),
        Err(error) => Err(error),
    };
    assert(bytes_of(packet) == ping_bytes_at(clock, self_id@));
    packet
}

/// The answer to a ping, with the time that the ping came with.
pub fn pong(self_id: &str, time: u32) -> (packet: Result<NetPacket<BytesMut>, PunchError>)
    ensures
        bytes_of(packet) == ping_pong_bytes(ProtocolType::Pong, self_id@, time),
{
    ping_pong_time(ProtocolType::Pong, self_id, time)
}

/// `std::str::from_utf8`: the text whose encoding the bytes are, if they are one.
#[verifier::external_body]
fn text_of(bytes: &[u8]) -> (text: Option<&str>)
    ensures
        text is Some <==> valid_utf8(bytes@),
        text matches Some(text) ==> text@ == decode_utf8(bytes@),
{
    std::str::from_utf8(bytes).ok()
}

/// The id and the time in the payload of a ping or pong.
pub fn convert_ping_pong(payload: &[u8]) -> (read: Result<(&str, u32), PunchError>)
    ensures
        match read {
            Ok((id, time)) => read_ping_pong(payload@) == Ok::<_, PunchError>((id@, time)),
            Err(error) => read_ping_pong(payload@) == Err::<(Seq<char>, u32), _>(error),
        },
{
    if payload.len() < 5 {
        return Err(PunchError::PingPongTooShort);
    }
    let end: usize = payload[0] as usize + 1;
    if end + 4 != payload.len() {
        return Err(PunchError::PingPongInvalid);
    }
    match text_of(slice_subrange(payload, 1, end)) {
        Some(id) => {
            let time: u32 = payload[end] as u32 * 0x100_0000 + payload[end + 1] as u32 * 0x1_0000
                + payload[end + 2] as u32 * 0x100 + payload[end + 3] as u32;
            assert(time == be_u32(payload@.skip(end as int)));
            Ok((id, time))
        },
        None => Err(PunchError::PingPongInvalid),
    }
}

} // verus!
