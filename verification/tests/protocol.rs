use punch::clock::now;
use punch::error::{ErrorKind, PunchError};
use punch::protocol::{
    convert_ping_pong, fill_header, ping, ping_pong_buffer, ping_pong_time, pong, NetPacket,
    ProtocolType, HEAD_LEN,
};

fn sample() -> Vec<u8> {
    vec![0x81, 0, 6, 0, 7, 8]
}

#[test]
fn header_fields_are_read() {
    let packet = NetPacket::new(sample()).unwrap();
    assert_eq!(packet.protocol(), Ok(ProtocolType::Ping));
    assert_eq!(packet.data_length(), 6);
    assert_eq!(packet.buffer(), &[0x81, 0, 6, 0, 7, 8]);
    assert_eq!(packet.payload(), &[7, 8]);
    assert_eq!(packet.into_buffer(), sample());
}

#[test]
fn length_has_its_high_byte_first() {
    let packet = NetPacket::new_unchecked(vec![0u8, 0x12, 0x34, 0]);
    assert_eq!(packet.data_length(), 0x1234);
}

#[test]
fn short_packet_is_refused() {
    let error = NetPacket::new(vec![1u8, 0, 3]).err().unwrap();
    assert_eq!(error, PunchError::PacketTooShort);
    assert_eq!(error.kind(), ErrorKind::InvalidInput);
    assert_eq!(error.message().unwrap(), "too short");
}

#[test]
fn packet_of_another_length_is_refused() {
    assert_eq!(
        NetPacket::new(vec![1u8, 0, 5, 0]).err(),
        Some(PunchError::PacketLenInvalid)
    );
    assert_eq!(
        NetPacket::new(vec![1u8, 0, 3, 0]).err(),
        Some(PunchError::PacketLenInvalid)
    );
    assert_eq!(PunchError::PacketLenInvalid.message().unwrap(), "packet len invalid");
}

#[test]
fn header_alone_is_a_packet() {
    let packet = NetPacket::new(vec![3u8, 0, 4, 0]).unwrap();
    assert!(packet.payload().is_empty());
    assert_eq!(packet.protocol(), Ok(ProtocolType::KcpRaw));
}

#[test]
fn protocol_ignores_the_first_bit() {
    assert_eq!(NetPacket::new_unchecked(vec![2u8]).protocol(), Ok(ProtocolType::Pong));
    assert_eq!(NetPacket::new_unchecked(vec![0x82u8]).protocol(), Ok(ProtocolType::Pong));
}

#[test]
fn unknown_protocols_are_refused() {
    for value in [0u8, 4, 100, 127] {
        let error = NetPacket::new_unchecked(vec![value | 0x80]).protocol().unwrap_err();
        assert_eq!(error, PunchError::InvalidProtocol(value));
        assert_eq!(error.kind(), ErrorKind::InvalidData);
        assert_eq!(error.message().unwrap(), format!("invalid protocol:{value}"));
    }
    assert_eq!(ProtocolType::try_from(255), Err(PunchError::InvalidProtocol(255)));
    assert_eq!(PunchError::InvalidProtocol(255).message().unwrap(), "invalid protocol:255");
}

#[test]
fn protocol_numbers_read_back() {
    for (protocol, number) in [
        (ProtocolType::Ping, 1u8),
        (ProtocolType::Pong, 2),
        (ProtocolType::KcpRaw, 3),
    ] {
        assert_eq!(u8::from(protocol), number);
        assert_eq!(ProtocolType::try_from(number), Ok(protocol));
    }
}

#[test]
fn set_packet_reads_back() {
    let mut packet = NetPacket::new_unchecked(vec![9u8; 300]);
    packet.set_protocol(ProtocolType::KcpRaw);
    packet.reset_data_len();
    let bytes = packet.into_buffer();
    assert_eq!(&bytes[..4], &[0x83, 1, 44, 9]);
    let packet = NetPacket::new(bytes).unwrap();
    assert_eq!(packet.protocol(), Ok(ProtocolType::KcpRaw));
    assert_eq!(packet.payload(), &[9u8; 296]);
}

#[test]
fn length_keeps_two_bytes_only() {
    let mut packet = NetPacket::new_unchecked(vec![0u8; 0x1_0203]);
    packet.reset_data_len();
    assert_eq!(packet.data_length(), 0x0203);
}

#[test]
fn ping_bytes_have_id_and_time() {
    let buffer = ping_pong_buffer("peer", 0x0102_0304).unwrap();
    assert_eq!(
        &buffer[..],
        &[0, 0, 0, 0, 4, b'p', b'e', b'e', b'r', 1, 2, 3, 4]
    );
}

#[test]
fn filled_ping_reads_back() {
    let buffer = ping_pong_buffer("p\u{e9}er", 77).unwrap();
    let mut packet = NetPacket::new_unchecked(buffer);
    fill_header(&mut packet, ProtocolType::Pong);
    let packet = NetPacket::new(packet.into_buffer()).unwrap();
    assert_eq!(packet.protocol(), Ok(ProtocolType::Pong));
    assert_eq!(convert_ping_pong(packet.payload()), Ok(("p\u{e9}er", 77)));
}

#[test]
fn made_packets_have_their_layout() {
    let packet = ping_pong_time(ProtocolType::Ping, "ab", 0x0102_0304).unwrap();
    assert_eq!(packet.buffer(), &[0x81, 0, 11, 0, 2, b'a', b'b', 1, 2, 3, 4]);
    let packet = pong("ab", 0x0102_0304).unwrap();
    assert_eq!(packet.buffer(), &[0x82, 0, 11, 0, 2, b'a', b'b', 1, 2, 3, 4]);
}

#[test]
fn ping_has_the_time_of_the_clock() {
    let before = now().unwrap();
    let packet = ping("peer").unwrap();
    let packet = NetPacket::new(packet.into_buffer()).unwrap();
    assert_eq!(packet.protocol(), Ok(ProtocolType::Ping));
    let (id, time) = convert_ping_pong(packet.payload()).unwrap();
    assert_eq!(id, "peer");
    assert!(time.wrapping_sub(before) < 10_000);
}

#[test]
fn long_ids_do_not_fit() {
    let longest = "a".repeat(255);
    assert_eq!(ping_pong_buffer(&longest, 1).unwrap().len(), HEAD_LEN + 1 + 255 + 4);
    let id = "a".repeat(256);
    assert_eq!(ping_pong_buffer(&id, 1).err(), Some(PunchError::IdTooLong));
    assert_eq!(pong(&id, 1).err(), Some(PunchError::IdTooLong));
    assert_eq!(ping(&id).err(), Some(PunchError::IdTooLong));
    assert_eq!(PunchError::IdTooLong.message().unwrap(), "too long");
    let wide = "\u{e9}".repeat(128);
    assert_eq!(ping_pong_buffer(&wide, 1).err(), Some(PunchError::IdTooLong));
}

#[test]
fn ping_payload_is_read() {
    assert_eq!(convert_ping_pong(&[2, b'a', b'b', 0, 0, 1, 0]), Ok(("ab", 256)));
    assert_eq!(convert_ping_pong(&[0, 255, 255, 255, 255]), Ok(("", u32::MAX)));
}

#[test]
fn short_ping_payload_is_refused() {
    let error = convert_ping_pong(&[0, 1, 2, 3]).unwrap_err();
    assert_eq!(error, PunchError::PingPongTooShort);
    assert_eq!(error.kind(), ErrorKind::InvalidData);
    assert_eq!(error.message().unwrap(), "too short");
}

#[test]
fn wrong_ping_payload_is_refused() {
    assert_eq!(
        convert_ping_pong(&[2, b'a', 0, 0, 1, 0]),
        Err(PunchError::PingPongInvalid)
    );
    assert_eq!(
        convert_ping_pong(&[1, 0xff, 0, 0, 1, 0]),
        Err(PunchError::PingPongInvalid)
    );
    assert_eq!(PunchError::PingPongInvalid.message().unwrap(), "invalid data");
}

#[test]
fn packets_lie_over_arrays() {
    let mut packet = NetPacket::new_unchecked([0u8, 0, 0, 0, 9]);
    packet.set_protocol(ProtocolType::Pong);
    packet.reset_data_len();
    assert_eq!(packet.into_buffer(), [0x82, 0, 5, 0, 9]);
    assert_eq!(NetPacket::new([0x82u8, 0, 5, 0, 9]).unwrap().payload(), &[9]);
}
