use punch::codec::{
    DecodeStep, LengthPrefixedDecoder, LengthPrefixedEncoder, WritePlan,
};
use punch::error::{ErrorKind, PunchError};

fn packet(fill: u8, len: usize) -> Vec<u8> {
    let mut bytes = vec![fill; len];
    bytes[0] = 0x83;
    bytes[1] = (len >> 8) as u8;
    bytes[2] = len as u8;
    bytes
}

/// Decodes one packet out of a stream that comes in pieces of at most `piece` bytes.
fn decode_one(
    decoder: &mut LengthPrefixedDecoder,
    stream: &mut &[u8],
    piece: usize,
) -> Option<Vec<u8>> {
    let mut src = vec![0u8; 64];
    let mut step = decoder.decode(&mut src);
    loop {
        match step {
            DecodeStep::Packet(len) => return Some(src[..len].to_vec()),
            DecodeStep::Failed(error) => panic!("{error:?}"),
            DecodeStep::Read(offset) => {
                let len = piece.min(stream.len()).min(src.len() - offset);
                if len == 0 {
                    return None;
                }
                src[offset..offset + len].copy_from_slice(&stream[..len]);
                *stream = &stream[len..];
                step = decoder.decode_read(&src, offset, len);
            }
        }
    }
}

#[test]
fn what_is_sent_is_handed_out_for_every_piece_size() {
    let sent = vec![packet(1, 10), packet(2, 4), packet(3, 33), packet(4, 64), packet(5, 5)];
    let joined: Vec<u8> = sent.concat();
    for piece in 1..=joined.len() {
        let mut decoder = LengthPrefixedDecoder::new();
        let mut stream: &[u8] = &joined;
        for expected in &sent {
            assert_eq!(decode_one(&mut decoder, &mut stream, piece).as_ref(), Some(expected));
        }
        assert!(decode_one(&mut decoder, &mut stream, piece).is_none());
    }
}

#[test]
fn small_buffer_is_refused() {
    let mut decoder = LengthPrefixedDecoder::new();
    let mut src = [0u8; 3];
    assert_eq!(
        decoder.decode(&mut src),
        DecodeStep::Failed(PunchError::BufferTooShort)
    );
    assert_eq!(PunchError::BufferTooShort.kind(), ErrorKind::Other);
    assert_eq!(PunchError::BufferTooShort.message().unwrap(), "too short");
}

#[test]
fn packet_beyond_the_buffer_is_refused() {
    let mut decoder = LengthPrefixedDecoder::new();
    let mut src = [0u8; 8];
    assert_eq!(decoder.decode(&mut src), DecodeStep::Read(0));
    src[..4].copy_from_slice(&[0x83, 0, 9, 0]);
    assert_eq!(
        decoder.decode_read(&src, 0, 4),
        DecodeStep::Failed(PunchError::BufferTooShort)
    );
}

#[test]
fn held_packet_beyond_the_buffer_stays_held() {
    let mut decoder = LengthPrefixedDecoder::new();
    let mut src = [0u8; 20];
    assert_eq!(decoder.decode(&mut src), DecodeStep::Read(0));
    src[..4].copy_from_slice(&packet(1, 4));
    src[4..16].copy_from_slice(&packet(2, 12));
    assert_eq!(decoder.decode_read(&src, 0, 16), DecodeStep::Packet(4));
    let mut small = [0u8; 8];
    assert_eq!(
        decoder.decode(&mut small),
        DecodeStep::Failed(PunchError::BufferTooShort)
    );
    assert_eq!(decoder.decode(&mut src), DecodeStep::Packet(12));
    assert_eq!(&src[..12], &packet(2, 12)[..]);
}

#[test]
fn bytes_are_kept_when_a_read_has_to_wait() {
    let whole = packet(7, 9);
    let mut decoder = LengthPrefixedDecoder::new();
    let mut src = [0u8; 16];
    assert_eq!(decoder.decode(&mut src), DecodeStep::Read(0));
    src[..6].copy_from_slice(&whole[..6]);
    assert_eq!(decoder.decode_read(&src, 0, 6), DecodeStep::Read(6));
    decoder.try_decode_failed(&src, 6, true);
    let mut src = [0u8; 16];
    assert_eq!(decoder.decode(&mut src), DecodeStep::Read(6));
    assert_eq!(&src[..6], &whole[..6]);
    src[6..9].copy_from_slice(&whole[6..]);
    assert_eq!(decoder.decode_read(&src, 6, 3), DecodeStep::Packet(9));
    assert_eq!(&src[..9], &whole[..]);
}

#[test]
fn bytes_are_lost_when_a_read_fails() {
    let mut decoder = LengthPrefixedDecoder::new();
    let mut src = [0u8; 16];
    assert_eq!(decoder.decode(&mut src), DecodeStep::Read(0));
    src[..6].copy_from_slice(&packet(7, 9)[..6]);
    assert_eq!(decoder.decode_read(&src, 0, 6), DecodeStep::Read(6));
    decoder.try_decode_failed(&src, 6, false);
    assert_eq!(decoder.decode(&mut src), DecodeStep::Read(0));
}

#[test]
fn held_bytes_short_of_a_header_move_to_the_front() {
    let mut decoder = LengthPrefixedDecoder::new();
    decoder.try_decode_failed(&[1, 2, 3], 3, true);
    let mut src = [9u8; 6];
    let mut offset = 1;
    assert!(decoder.process_buf(&mut src, &mut offset).is_none());
    assert_eq!(src, [1, 2, 3, 9, 9, 9]);
    assert_eq!(offset, 4);
}

#[test]
fn header_of_length_zero_gives_an_empty_packet() {
    let mut decoder = LengthPrefixedDecoder::new();
    let src = [0u8; 4];
    assert_eq!(decoder.process_packet(&src, 4), Some(Ok(0)));
}

#[test]
fn whole_packets_are_encoded() {
    let encoder = LengthPrefixedEncoder::new();
    let data = packet(1, 6);
    assert_eq!(encoder.encode(&data), Ok(&data[..]));
    let error = encoder.encode(&data[..5]).unwrap_err();
    assert_eq!(error, PunchError::FrameLenInvalid);
    assert_eq!(error.kind(), ErrorKind::InvalidData);
    assert!(error.message().is_none());
}

/// Writes buffers through a writer that takes at most `most` bytes at once.
fn write_all(bufs: &[&[u8]], most: usize) -> Vec<u8> {
    let mut out: Vec<u8> = Vec::new();
    let mut write = LengthPrefixedEncoder::new().encode_multiple(bufs);
    loop {
        let ahead: Vec<u8> = bufs[write.next_index()..].concat();
        assert_eq!(write.remaining(bufs), ahead.len());
        let len = most.min(ahead.len());
        out.extend_from_slice(&ahead[..len]);
        let plan = write.wrote(bufs, len).unwrap();
        if let Some((at, from)) = plan.rest {
            out.extend_from_slice(&bufs[at][from..]);
        }
        if let Some(at) = plan.whole {
            out.extend_from_slice(bufs[at]);
        }
        if plan.done {
            return out;
        }
    }
}

#[test]
fn buffers_go_out_in_order() {
    let bufs: [&[u8]; 4] = [&[1, 2], &[3, 4], &[5, 6], &[7, 8]];
    for most in [2usize, 3, 4, 6, 7, 8] {
        assert_eq!(write_all(&bufs, most), vec![1, 2, 3, 4, 5, 6, 7, 8], "{most}");
    }
    let bufs: [&[u8]; 3] = [&[], &[1], &[]];
    assert_eq!(write_all(&bufs, 1), vec![1]);
}

#[test]
fn last_buffer_is_passed_over_behind_a_completed_one() {
    let bufs: [&[u8]; 2] = [&[1, 2], &[3, 4]];
    let mut write = LengthPrefixedEncoder::new().encode_multiple(&bufs);
    assert_eq!(
        write.wrote(&bufs, 1),
        Ok(WritePlan { rest: Some((0, 1)), whole: Some(0), done: true })
    );
}

#[test]
fn last_buffer_is_written_whole() {
    let bufs: [&[u8]; 2] = [&[1, 2], &[3, 4]];
    let mut write = LengthPrefixedEncoder::new().encode_multiple(&bufs);
    assert_eq!(
        write.wrote(&bufs, 2),
        Ok(WritePlan { rest: None, whole: Some(1), done: true })
    );
}

#[test]
fn writer_that_takes_nothing_fails() {
    let bufs: [&[u8]; 1] = [&[1, 2]];
    let mut write = LengthPrefixedEncoder::new().encode_multiple(&bufs);
    let error = write.wrote(&bufs, 0).unwrap_err();
    assert_eq!(error, PunchError::WriteZero);
    assert_eq!(error.kind(), ErrorKind::WriteZero);
}
