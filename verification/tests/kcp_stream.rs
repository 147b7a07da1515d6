use bytes::BytesMut;
use punch::error::{ErrorKind, PunchError};
use punch::kcp_stream::{
    all_event, AcceptStep, Counter, Event, InputStep, KcpContext, KcpOutput, KcpRun, KcpStream,
    KcpStreamListener, ReadStep, Received, Reserved, RunEnd, RunStep, SendOutcome, StreamMap,
    WaitFor, Wake, WriteStep, MAX_WRITE_LEN,
};
use tokio::io::ReadBuf;

fn segment(conv: u32) -> Vec<u8> {
    let mut bytes = vec![0u8; 24];
    bytes[..4].copy_from_slice(&conv.to_le_bytes());
    bytes
}

fn id(text: &str) -> String {
    text.to_string()
}

#[test]
fn counter_counts_and_wraps() {
    let mut counter = Counter::new(u32::MAX - 1);
    assert_eq!(counter.add(), u32::MAX - 1);
    assert_eq!(counter.add(), u32::MAX);
    assert_eq!(counter.add(), 0);
    assert_eq!(counter.add(), 1);
}

#[test]
fn streams_are_found_by_peer_and_conversation() {
    let mut map: StreamMap<u8> = StreamMap::new();
    map.insert(id("a"), 1, 10);
    map.insert(id("a"), 2, 20);
    map.insert(id("b"), 1, 30);
    assert_eq!(map.get(&id("a"), 1), Some(&10));
    assert_eq!(map.get(&id("a"), 2), Some(&20));
    assert_eq!(map.get(&id("b"), 1), Some(&30));
    assert_eq!(map.get(&id("b"), 2), None);
    map.remove(&id("a"), 1);
    assert!(!map.contains_key(&id("a"), 1));
    assert_eq!(map.get(&id("a"), 2), Some(&20));
    assert_eq!(map.get(&id("b"), 1), Some(&30));
    map.remove(&id("c"), 1);
    assert!(map.contains_key(&id("b"), 1));
}

#[test]
fn second_open_is_refused() {
    let mut map: StreamMap<u8> = StreamMap::new();
    let stream = KcpStream::new(id("a"), 7, &mut map, 1).unwrap();
    assert_eq!(stream.conv(), 7);
    assert_eq!(stream.peer_id(), "a");
    let error = KcpStream::new(id("a"), 7, &mut map, 2).err().unwrap();
    assert_eq!(error, PunchError::StreamExists);
    assert_eq!(error.kind(), ErrorKind::AlreadyExists);
    assert_eq!(error.message().unwrap(), "stream already exists");
    assert_eq!(map.get(&id("a"), 7), Some(&1));
}

#[test]
fn close_undoes_open() {
    let mut context: KcpContext<u8> = KcpContext::starting_at(5);
    let stream = context.new_stream(id("a"), 1).unwrap();
    let owned = stream.owned();
    assert!(matches!(context.input(&segment(5), &id("a")), InputStep::Stream(&1)));
    owned.release(&mut context);
    assert!(matches!(context.input(&segment(5), &id("a")), InputStep::Listener));
    let again = KcpStreamListener::new::<u8>().1.accept(
        &mut context,
        Some((id("a"), BytesMut::from(&segment(5)[..]))),
        9,
    );
    assert!(matches!(again, AcceptStep::Accept(_, _)));
}

#[test]
fn new_streams_have_new_conversations() {
    let mut context: KcpContext<u8> = KcpContext::starting_at(u32::MAX);
    assert_eq!(context.new_stream(id("a"), 1).unwrap().conv(), u32::MAX);
    assert_eq!(context.new_stream(id("a"), 2).unwrap().conv(), 0);
    assert_eq!(context.new_stream(id("b"), 3).unwrap().conv(), 1);
}

#[test]
fn packets_go_to_their_stream_or_the_listener() {
    let mut context: KcpContext<u8> = KcpContext::starting_at(0x0403_0201);
    context.new_stream(id("a"), 42).unwrap();
    let mut bytes = vec![1u8, 2, 3, 4];
    bytes.resize(30, 0);
    assert!(matches!(context.input(&bytes, &id("a")), InputStep::Stream(&42)));
    assert!(matches!(context.input(&bytes, &id("b")), InputStep::Listener));
    bytes[0] = 2;
    assert!(matches!(context.input(&bytes, &id("a")), InputStep::Listener));
    assert!(matches!(context.input(&[], &id("a")), InputStep::Ignore));
    assert!(matches!(context.input_sent(true), InputStep::Ignore));
    assert!(matches!(context.input_sent(false), InputStep::Listener));
}

#[test]
fn random_conversations_start_somewhere() {
    let mut starts: Vec<u32> = Vec::new();
    for _ in 0..4 {
        let mut context: KcpContext<u8> = KcpContext::new();
        starts.push(context.new_stream(id("a"), 0).unwrap().conv());
    }
    assert!(starts.iter().any(|start| *start != starts[0]));
}

#[test]
fn listener_accepts_new_conversations() {
    let (mut context, listener) = KcpStreamListener::new::<u8>();
    let packet = BytesMut::from(&segment(77)[..]);
    match listener.accept(&mut context, Some((id("a"), packet)), 1) {
        AcceptStep::Accept(stream, packet) => {
            assert_eq!(stream.conv(), 77);
            assert_eq!(stream.peer_id(), "a");
            assert_eq!(&packet[..], &segment(77)[..]);
        }
        _ => panic!("not accepted"),
    }
    assert_eq!(listener.get_stream_sender(&context, &id("a"), 77), Ok(&1));
    let packet = BytesMut::from(&segment(77)[..]);
    match listener.accept(&mut context, Some((id("a"), packet)), 2) {
        AcceptStep::Deliver(peer_id, conv, packet) => {
            assert_eq!(peer_id, "a");
            assert_eq!(conv, 77);
            assert_eq!(packet.len(), 24);
        }
        _ => panic!("not delivered"),
    }
    assert_eq!(listener.get_stream_sender(&context, &id("a"), 77), Ok(&1));
}

#[test]
fn listener_passes_over_empty_packets_and_ends() {
    let (mut context, listener) = KcpStreamListener::new::<u8>();
    let step = listener.accept(&mut context, Some((id("a"), BytesMut::new())), 1);
    assert!(matches!(step, AcceptStep::Again));
    let step = listener.accept(&mut context, None, 1);
    assert!(matches!(step, AcceptStep::Failed(PunchError::ListenerClosed)));
    assert_eq!(PunchError::ListenerClosed.kind(), ErrorKind::Other);
}

#[test]
fn missing_streams_are_not_found() {
    let (context, listener) = KcpStreamListener::new::<u8>();
    let error = listener.get_stream_sender(&context, &id("a"), 1).unwrap_err();
    assert_eq!(error, PunchError::StreamNotFound);
    assert_eq!(error.kind(), ErrorKind::NotFound);
    assert_eq!(error.message().unwrap(), "not found stream");
    assert_eq!(listener.delivered(true), Ok(()));
    assert_eq!(listener.delivered(false), Err(PunchError::StreamNotFound));
}

#[test]
fn data_is_read_in_pieces_and_in_order() {
    let mut map: StreamMap<u8> = StreamMap::new();
    let (_, mut read) = KcpStream::new(id("a"), 1, &mut map, 0).unwrap().split();
    let mut out: Vec<u8> = Vec::new();
    let data: Vec<u8> = (0..10).collect();
    let mut pending = Some(BytesMut::from(&data[..]));
    while out.len() < 10 {
        let mut space = [0u8; 4];
        let mut buf = ReadBuf::new(&mut space);
        let mut step = read.poll_read(&mut buf);
        if step == ReadStep::Receive {
            step = read.received(Received::Data(pending.take().unwrap()), &mut buf);
        }
        assert_eq!(step, ReadStep::Ready);
        out.extend_from_slice(buf.filled());
    }
    assert_eq!(out, data);
    let mut space = [0u8; 4];
    let mut buf = ReadBuf::new(&mut space);
    assert_eq!(read.poll_read(&mut buf), ReadStep::Receive);
    assert_eq!(read.received(Received::Pending, &mut buf), ReadStep::Pending);
    assert_eq!(read.received(Received::Closed, &mut buf), ReadStep::Ready);
    assert_eq!(
        read.received(Received::Data(BytesMut::new()), &mut buf),
        ReadStep::Close
    );
    assert!(buf.filled().is_empty());
}

#[test]
fn reading_into_no_room_keeps_the_data() {
    let mut map: StreamMap<u8> = StreamMap::new();
    let (_, mut read) = KcpStream::new(id("a"), 1, &mut map, 0).unwrap().split();
    let mut none: [u8; 0] = [];
    let mut buf = ReadBuf::new(&mut none);
    assert_eq!(read.poll_read(&mut buf), ReadStep::Receive);
    let data = BytesMut::from(&[1u8, 2][..]);
    assert_eq!(read.received(Received::Data(data), &mut buf), ReadStep::Ready);
    assert_eq!(read.poll_read(&mut buf), ReadStep::Ready);
    let mut space = [9u8; 3];
    let mut buf = ReadBuf::new(&mut space);
    buf.put_slice(&[7]);
    assert_eq!(read.poll_read(&mut buf), ReadStep::Ready);
    assert_eq!(buf.filled(), &[7, 1, 2]);
}

#[test]
fn writes_are_cut_to_size() {
    let mut map: StreamMap<u8> = StreamMap::new();
    let (write, _) = KcpStream::new(id("a"), 1, &mut map, 0).unwrap().split();
    let data = vec![3u8; MAX_WRITE_LEN + 1];
    match write.poll_write(Reserved::Ready, &data) {
        WriteStep::Send(piece) => assert_eq!(&piece[..], &data[..10240]),
        _ => panic!("not sent"),
    }
    assert_eq!(write.written(&data, true), Ok(10240));
    match write.poll_write(Reserved::Ready, &[1, 2]) {
        WriteStep::Send(piece) => assert_eq!(&piece[..], &[1, 2]),
        _ => panic!("not sent"),
    }
    assert_eq!(write.written(&[1, 2], true), Ok(2));
}

#[test]
fn closed_streams_take_no_data() {
    let mut map: StreamMap<u8> = StreamMap::new();
    let (write, _) = KcpStream::new(id("a"), 1, &mut map, 0).unwrap().split();
    assert!(matches!(write.poll_write(Reserved::Pending, &[1]), WriteStep::Pending));
    assert!(matches!(
        write.poll_write(Reserved::Closed, &[1]),
        WriteStep::Failed(PunchError::WriteZero)
    ));
    assert_eq!(write.written(&[1], false), Err(PunchError::WriteZero));
    assert!(PunchError::WriteZero.message().is_none());
}

#[test]
fn full_window_waits_for_packets_only() {
    let run = KcpRun::new();
    assert_eq!(run.wait_for(128, 128), WaitFor::Input);
    assert_eq!(run.wait_for(127, 128), WaitFor::All);
}

#[test]
fn leftover_is_fed_before_the_next_event() {
    let mut run = KcpRun::new();
    let packet = BytesMut::from(&[1u8, 2, 3][..]);
    let step = run.woken(Wake::Input(Some(packet)));
    let packet = match step {
        RunStep::Feed(packet) => packet,
        _ => panic!("not fed"),
    };
    assert!(matches!(run.fed(packet, Some(1)), RunStep::Receive));
    assert_eq!(run.wait_for(0, 128), WaitFor::Output);
    assert_eq!(run.wait_for(128, 128), WaitFor::Input);
    let data = BytesMut::from(&[9u8][..]);
    let rest = match run.woken(Wake::Output(Some(data))) {
        RunStep::Feed(rest) => rest,
        _ => panic!("rest not fed"),
    };
    assert_eq!(&rest[..], &[2, 3]);
    match run.fed(rest, Some(2)) {
        RunStep::Send(data) => assert_eq!(&data[..], &[9]),
        _ => panic!("not sent"),
    }
    assert_eq!(run.wait_for(0, 128), WaitFor::All);
    assert!(matches!(run.worked(true), RunStep::Receive));
}

#[test]
fn tick_updates_the_engine() {
    let mut run = KcpRun::new();
    assert!(matches!(run.woken(Wake::Tick), RunStep::Update(_)));
}

#[test]
fn run_ends_with_either_side() {
    let mut run = KcpRun::new();
    assert!(matches!(
        run.woken(Wake::Input(None)),
        RunStep::Stop(RunEnd::Failed(PunchError::InputClosed))
    ));
    assert!(matches!(
        run.woken(Wake::Output(None)),
        RunStep::Stop(RunEnd::Failed(PunchError::OutputClosed))
    ));
    assert_eq!(PunchError::InputClosed.message().unwrap(), "input close");
    assert_eq!(PunchError::OutputClosed.message().unwrap(), "output close");
    assert!(matches!(all_event(Wake::Tick), Ok(Event::Timeout)));
}

#[test]
fn run_ends_with_the_engine() {
    let mut run = KcpRun::new();
    assert!(matches!(
        run.fed(BytesMut::new(), None),
        RunStep::Stop(RunEnd::EngineFailed)
    ));
    assert!(matches!(run.worked(false), RunStep::Stop(RunEnd::EngineFailed)));
    assert_eq!(RunEnd::EngineFailed.kind(), Some(ErrorKind::Other));
    assert_eq!(RunEnd::Finished.kind(), None);
    assert_eq!(RunEnd::Failed(PunchError::InputClosed).kind(), Some(ErrorKind::Other));
    assert_eq!(RunEnd::Failed(PunchError::WriteZero).kind(), Some(ErrorKind::WriteZero));
}

#[test]
fn received_data_is_forwarded() {
    let run = KcpRun::new();
    match run.received(&[5, 6, 7], Some(2)) {
        RunStep::Forward(data) => assert_eq!(&data[..], &[5, 6]),
        _ => panic!("not forwarded"),
    }
    assert!(matches!(run.received(&[5], None), RunStep::Wait));
    assert!(matches!(run.forwarded(true), RunStep::Wait));
    assert!(matches!(run.forwarded(false), RunStep::Stop(RunEnd::Finished)));
}

#[test]
fn packets_that_would_block_count_as_written() {
    let output = KcpOutput {};
    assert_eq!(output.write(&[1, 2, 3], SendOutcome::Sent), Some(3));
    assert_eq!(output.write(&[1, 2, 3], SendOutcome::WouldBlock), Some(3));
    assert_eq!(output.write(&[1, 2, 3], SendOutcome::Failed), None);
}

#[test]
fn pieces_are_the_data() {
    let mut map: StreamMap<u8> = StreamMap::new();
    let (write, _) = KcpStream::new(id("a"), 1, &mut map, 0).unwrap().split();
    let data: Vec<u8> = (0..25000u32).map(|v| v as u8).collect();
    let mut lens: Vec<usize> = Vec::new();
    let mut out: Vec<u8> = Vec::new();
    while out.len() < data.len() {
        let left = &data[out.len()..];
        match write.poll_write(Reserved::Ready, left) {
            WriteStep::Send(piece) => out.extend_from_slice(&piece),
            _ => panic!("not sent"),
        }
        lens.push(write.written(left, true).unwrap());
    }
    assert_eq!(out, data);
    assert_eq!(lens, vec![10240, 10240, 4520]);
}

#[test]
fn rest_of_a_later_packet_takes_the_place_of_an_earlier_one() {
    let mut run = KcpRun::new();
    assert!(matches!(
        run.fed(BytesMut::from(&[1u8, 2, 3][..]), Some(1)),
        RunStep::Receive
    ));
    let rest = match run.woken(Wake::Input(Some(BytesMut::from(&[7u8, 8][..])))) {
        RunStep::Feed(rest) => rest,
        _ => panic!("rest not fed"),
    };
    assert_eq!(&rest[..], &[2, 3]);
    let packet = match run.fed(rest, Some(1)) {
        RunStep::Feed(packet) => packet,
        _ => panic!("packet not fed"),
    };
    assert_eq!(&packet[..], &[7, 8]);
    assert!(matches!(run.fed(packet, Some(1)), RunStep::Receive));
    match run.woken(Wake::Tick) {
        RunStep::Feed(rest) => assert_eq!(&rest[..], &[8]),
        _ => panic!("rest not fed"),
    }
}
