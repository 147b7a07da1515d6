//! Streams over KCP: which packets belong to which stream, and what passes between a stream's user,
//! its engine and the network.
use crate::buffer::{advance, as_slice, contents, copied};
use crate::clock::{elapsed, engine_now, engine_time_at, millis_of};
use crate::codec::{joined, lemma_joined_front};
use crate::error::{ErrorKind, PunchError};
use bytes::BytesMut;
use std::time::SystemTime;
use tokio::io::ReadBuf;
use vstd::prelude::*;
use vstd::slice::slice_subrange;

verus! {

#[verifier::external_type_specification]
#[verifier::external_body]
pub struct ExReadBuf<'a>(ReadBuf<'a>);

/// The bytes that a `ReadBuf` was filled with so far.
pub uninterp spec fn filled(buf: ReadBuf<'_>) -> Seq<u8>;

/// The number of bytes that a `ReadBuf` can still be filled with.
pub uninterp spec fn room(buf: ReadBuf<'_>) -> nat;

/// `ReadBuf::remaining`: the number of bytes that the buffer can still be filled with.
#[verifier::external_body]
fn remaining(buf: &ReadBuf<'_>) -> (count: usize)
    ensures
        count == room(*buf),
{
    buf.remaining()
}

/// `ReadBuf::put_slice`: the bytes are appended. There has to be room for them.
#[verifier::external_body]
fn put(buf: &mut ReadBuf<'_>, bytes: &[u8])
    requires
        bytes@.len() <= room(*old(buf)),
    ensures
        filled(*final(buf)) == filled(*old(buf)) + bytes@,
        room(*final(buf)) == room(*old(buf)) - bytes@.len(),
{
    buf.put_slice(bytes)
}

/// Conversation numbers, each one more than the last, and zero behind the largest.
#[derive(Debug)]
pub struct Counter {
    counter: u32,
}

impl Counter {
    /// The number that comes next.
    pub closed spec fn next(&self) -> u32 {
        self.counter
    }

    pub fn new(v: u32) -> (counter: Self)
        ensures
            counter.next() == v,
    {
        Counter { counter: v }
    }

    /// Takes a number.
    pub fn add(&mut self) -> (number: u32)
        ensures
            number == old(self).next(),
            final(self).next() == (old(self).next() + 1) % 0x1_0000_0000,
    {
        let number: u32 = self.counter;
        self.counter = number.wrapping_add(1);
        number
    }
}

/// The number that a counter gives after `count` others.
pub open spec fn number_after(start: u32, count: nat) -> int {
    (start + count) % 0x1_0000_0000
}

/// A counter gives no number twice before it has given them all.
pub proof fn lemma_numbers_are_distinct(start: u32, i: nat, j: nat)
    requires
        i < j < 0x1_0000_0000,
    ensures
        number_after(start, i) != number_after(start, j),
        number_after(start, i + 1) == (number_after(start, i) + 1) % 0x1_0000_0000,
        number_after(start, 0) == start,
{
}

/// What a stream is known by: its peer and its conversation.
pub type StreamKey = (Seq<char>, u32);

struct StreamEntry<V> {
    peer_id: String,
    conv: u32,
    value: V,
}

/// The open streams, each with the value through which its packets reach it.
pub struct StreamMap<V> {
    entries: Vec<StreamEntry<V>>,
}

impl<V> View for StreamMap<V> {
    type V = Map<StreamKey, V>;

    closed spec fn view(&self) -> Map<StreamKey, V> {
        Map::new(
            |key: StreamKey| exists|i: int| self.holds(i, key),
            |key: StreamKey| self.entries@[choose|i: int| self.holds(i, key)].value,
        )
    }
}

impl<V> StreamMap<V> {
    spec fn holds(&self, i: int, key: StreamKey) -> bool {
        0 <= i < self.entries@.len() && (self.entries@[i].peer_id@, self.entries@[i].conv) == key
    }

    /// No stream occurs twice.
    pub closed spec fn wf(&self) -> bool {
        forall|i: int, j: int, key: StreamKey|
            #[trigger] self.holds(i, key) && #[trigger] self.holds(j, key) ==> i == j
    }

    proof fn lemma_held(&self, i: int, key: StreamKey)
        requires
            self.wf(),
            self.holds(i, key),
        ensures
            self@.dom().contains(key),
            self@[key] == self.entries@[i].value,
    {
        let j = choose|j: int| self.holds(j, key);
        assert(self.holds(j, key));
    }

    /// No stream is open.
    pub fn new() -> (map: Self)
        ensures
            map.wf(),
            map@ == Map::<StreamKey, V>::empty(),
    {
        let map = StreamMap { entries: Vec::new() };
        assert(map@ =~= Map::<StreamKey, V>::empty());
        map
    }

    fn find(&self, peer_id: &String, conv: u32) -> (found: Option<usize>)
        requires
            self.wf(),
        ensures
            match found {
                Some(i) => self.holds(i as int, (peer_id@, conv)),
                None => !self@.dom().contains((peer_id@, conv)),
            },
    {
        let ghost key: StreamKey = (peer_id@, conv);
        for i in 0..self.entries.len()
            invariant
                self.wf(),
                key == (peer_id@, conv),
                forall|j: int| 0 <= j < i ==> !self.holds(j, key),
        {
            if self.entries[i].conv == conv && self.entries[i].peer_id == *peer_id {
                return Some(i);
            }
        }
        None
    }

    /// The value of a stream.
    pub fn get(&self, peer_id: &String, conv: u32) -> (value: Option<&V>)
        requires
            self.wf(),
        ensures
            match value {
                Some(value) => self@.dom().contains((peer_id@, conv)) && *value == self@[(
                    peer_id@,
                    conv,
                )],
                None => !self@.dom().contains((peer_id@, conv)),
            },
    {
        match self.find(peer_id, conv) {
            Some(i) => {
                proof {
                    self.lemma_held(i as int, (peer_id@, conv));
                }
                Some(&self.entries[i].value)
            },
            None => None,
        }
    }

    /// Whether a stream is open.
    pub fn contains_key(&self, peer_id: &String, conv: u32) -> (open: bool)
        requires
            self.wf(),
        ensures
            open == self@.dom().contains((peer_id@, conv)),
    {
        self.get(peer_id, conv).is_some()
    }

    /// Takes up a stream that is not open.
    pub fn insert(&mut self, peer_id: String, conv: u32, value: V)
        requires
            old(self).wf(),
            !old(self)@.dom().contains((peer_id@, conv)),
        ensures
            final(self).wf(),
            final(self)@ == old(self)@.insert((peer_id@, conv), value),
    {
        let ghost key: StreamKey = (peer_id@, conv);
        let ghost before = *self;
        self.entries.push(StreamEntry { peer_id, conv, value });
        proof {
            let last = before.entries@.len() as int;
            assert forall|i: int, other: StreamKey| #[trigger] self.holds(i, other) <==> (
            before.holds(i, other) || i == last && other == key) by {
                if 0 <= i < last {
                    assert(self.entries@[i] == before.entries@[i]);
                }
            }
            assert forall|i: int, j: int, other: StreamKey|
                #[trigger] self.holds(i, other) && #[trigger] self.holds(j, other) implies i == j by {
                if other == key {
                    assert(!before.holds(i, key));
                    assert(!before.holds(j, key));
                }
            }
            assert(self.wf());
            assert forall|other: StreamKey|
                self@.dom().contains(other) <==> before@.insert(key, value).dom().contains(
                    other,
                ) by {
                if before@.dom().contains(other) {
                    let i = choose|i: int| before.holds(i, other);
                    assert(self.holds(i, other));
                }
                if other == key {
                    assert(self.holds(last, key));
                }
            }
            assert forall|other: StreamKey| #[trigger] self@.dom().contains(other) implies self@[other]
                == before@.insert(key, value)[other] by {
                let i = choose|i: int| self.holds(i, other);
                self.lemma_held(i, other);
                if other != key {
                    before.lemma_held(i, other);
                }
            }
            assert(self@ =~= before@.insert(key, value));
        }
    }

    /// Drops a stream, if it is open.
    pub fn remove(&mut self, peer_id: &String, conv: u32)
        requires
            old(self).wf(),
        ensures
            final(self).wf(),
            final(self)@ == old(self)@.remove((peer_id@, conv)),
    {
        let ghost key: StreamKey = (peer_id@, conv);
        let ghost before = *self;
        match self.find(peer_id, conv) {
            Some(at) => {
                self.entries.remove(at);
                proof {
                    let back = |i: int| if i < at { i } else { i + 1 };
                    assert forall|i: int, other: StreamKey| #[trigger] self.holds(i, other) implies
                        before.holds(back(i), other) && back(i) != at by {
                        assert(self.entries@[i] == before.entries@[back(i)]);
                    }
                    assert forall|i: int, j: int, other: StreamKey|
                        #[trigger] self.holds(i, other) && #[trigger] self.holds(j, other) implies i
                        == j by {
                        assert(before.holds(back(i), other));
                        assert(before.holds(back(j), other));
                    }
                    assert(self.wf());
                    assert forall|other: StreamKey|
                        self@.dom().contains(other) <==> before@.remove(key).dom().contains(
                            other,
                        ) by {
                        if self@.dom().contains(other) {
                            let i = choose|i: int| self.holds(i, other);
                            assert(before.holds(back(i), other));
                            if other == key {
                                assert(before.holds(at as int, other));
                            }
                        }
                        if before@.remove(key).dom().contains(other) {
                            let i = choose|i: int| before.holds(i, other);
                            assert(i != at);
                            let j = if i < at { i } else { i - 1 };
                            assert(self.entries@[j] == before.entries@[i]);
                            assert(self.holds(j, other));
                        }
                    }
                    assert forall|other: StreamKey| #[trigger] self@.dom().contains(other) implies self@[other]
                        == before@.remove(key)[other] by {
                        let i = choose|i: int| self.holds(i, other);
                        self.lemma_held(i, other);
                        before.lemma_held(back(i), other);
                        assert(self.entries@[i] == before.entries@[back(i)]);
                    }
                    assert(self@ =~= before@.remove(key));
                }
            },
            None => {
                assert(self@ =~= before@.remove(key));
            },
        }
    }
}

/// A stream that is opened and closed again leaves the others as they were.
pub proof fn lemma_close_undoes_open<V>(streams: Map<StreamKey, V>, key: StreamKey, value: V)
    requires
        !streams.dom().contains(key),
    ensures
        streams.insert(key, value).remove(key) == streams,
{
    assert(streams.insert(key, value).remove(key) =~= streams);
}

/// Opening or closing a stream changes nothing for any other.
pub proof fn lemma_other_streams_stay<V>(
    streams: Map<StreamKey, V>,
    key: StreamKey,
    value: V,
    other: StreamKey,
)
    requires
        other != key,
    ensures
        streams.insert(key, value).dom().contains(other) <==> streams.dom().contains(other),
        streams.remove(key).dom().contains(other) <==> streams.dom().contains(other),
        streams.dom().contains(other) ==> streams.insert(key, value)[other] == streams[other]
            && streams.remove(key)[other] == streams[other],
{
}

/// The length of a KCP segment without its data.
pub const SEGMENT_HEAD_LEN: usize = 24;

/// The conversation that a KCP segment belongs to: its first four bytes, the least significant
/// first.
pub open spec fn conversation(segment: Seq<u8>) -> int {
    segment[0] + segment[1] * 0x100 + segment[2] * 0x1_0000 + segment[3] * 0x100_0000
}

/// `kcp::get_conv`: the number in the first four bytes, the least significant first. The bytes
/// have to be as long as the head of a segment.
#[verifier::external_body]
fn get_conv(bytes: &[u8]) -> (conv: u32)
    requires
        bytes@.len() >= SEGMENT_HEAD_LEN,
    ensures
        conv == conversation(bytes@),
{
    kcp::get_conv(bytes)
}

/// `rand::random`: some number. Which one is left to chance.
#[verifier::external_body]
fn random_conv() -> (conv: u32) {
    rand::random()
}

/// Where a packet goes.
pub enum InputStep<'a, V> {
    /// Nowhere.
    Ignore,
    /// To an open stream.
    Stream(&'a V),
    /// To the listener.
    Listener,
}

/// The streams of a node.
pub struct KcpContext<V> {
    conv: Counter,
    map: StreamMap<V>,
}

impl<V> KcpContext<V> {
    /// The open streams.
    pub closed spec fn streams(&self) -> Map<StreamKey, V> {
        self.map@
    }

    /// The conversation of the next stream that this node opens.
    pub closed spec fn next_conv(&self) -> u32 {
        self.conv.next()
    }

    /// No stream occurs twice.
    pub closed spec fn wf(&self) -> bool {
        self.map.wf()
    }

    /// No stream is open. The conversations start at a given number.
    pub fn starting_at(conv: u32) -> (context: Self)
        ensures
            context.wf(),
            context.streams() == Map::<StreamKey, V>::empty(),
            context.next_conv() == conv,
    {
        KcpContext { conv: Counter::new(conv), map: StreamMap::new() }
    }

    /// No stream is open. The conversations start anywhere.
    pub fn new() -> (context: Self)
        ensures
            context.wf(),
            context.streams() == Map::<StreamKey, V>::empty(),
    {
        KcpContext::starting_at(random_conv())
    }

    /// Where a packet from a peer goes: to the stream of its conversation if that is open, and else
    /// to the listener.
    pub fn input(&self, buf: &[u8], peer_id: &String) -> (step: InputStep<'_, V>)
        requires
            self.wf(),
            buf@.len() == 0 || buf@.len() >= SEGMENT_HEAD_LEN,
        ensures
            match step {
                InputStep::Ignore => buf@.len() == 0,
                InputStep::Stream(value) => {
                    let key = (peer_id@, conversation(buf@) as u32);
                    &&& buf@.len() > 0
                    &&& self.streams().dom().contains(key)
                    &&& *value == self.streams()[key]
                },
                InputStep::Listener => buf@.len() > 0 && !self.streams().dom().contains(
                    (peer_id@, conversation(buf@) as u32),
                ),
            },
    {
        if buf.len() == 0 {
            return InputStep::Ignore;
        }
        let conv: u32 = get_conv(buf);
        match self.map.get(peer_id, conv) {
            Some(value) => InputStep::Stream(value),
            None => InputStep::Listener,
        }
    }

    /// Where a packet goes that was handed to an open stream: to the listener if the stream did not
    /// take it.
    pub fn input_sent(&self, sent: bool) -> (step: InputStep<'_, V>)
        ensures
            step == (if sent {
                InputStep::<V>::Ignore
            } else {
                InputStep::<V>::Listener
            }),
    {
        if sent {
            InputStep::Ignore
        } else {
            InputStep::Listener
        }
    }

    /// Opens a stream to a peer, with a conversation of its own. The conversation is used up even
    /// if a stream has it already.
    pub fn new_stream(&mut self, peer_id: String, sender: V) -> (stream: Result<
        KcpStream,
        PunchError,
    >)
        requires
            old(self).wf(),
        ensures
            final(self).wf(),
            final(self).next_conv() == (old(self).next_conv() + 1) % 0x1_0000_0000,
            opened(
                old(self).streams(),
                final(self).streams(),
                (peer_id@, old(self).next_conv()),
                sender,
                stream,
            ),
    {
        let conv: u32 = self.conv.add();
        KcpStream::new(peer_id, conv, &mut self.map, sender)
    }
}

/// An attempt to open a stream: it succeeds unless the stream is open already, and then nothing
/// changes.
pub open spec fn opened<V>(
    before: Map<StreamKey, V>,
    after: Map<StreamKey, V>,
    key: StreamKey,
    sender: V,
    stream: Result<KcpStream, PunchError>,
) -> bool {
    match stream {
        Ok(stream) => {
            &&& !before.dom().contains(key)
            &&& after == before.insert(key, sender)
            &&& stream.key() == key
            &&& stream.unread() == Seq::<u8>::empty()
        },
        Err(error) => before.dom().contains(key) && after == before && error
            == PunchError::StreamExists,
    }
}

/// The claim of a stream to its place among the open streams.
pub struct OwnedKcp {
    peer_id: String,
    conv: u32,
}

impl OwnedKcp {
    /// What the stream is known by.
    pub closed spec fn key(&self) -> StreamKey {
        (self.peer_id@, self.conv)
    }

    /// Gives the place up.
    pub fn release<V>(&self, context: &mut KcpContext<V>)
        requires
            old(context).wf(),
        ensures
            final(context).wf(),
            final(context).next_conv() == old(context).next_conv(),
            final(context).streams() == old(context).streams().remove(self.key()),
    {
        context.map.remove(&self.peer_id, self.conv);
    }
}

/// A stream to a peer.
pub struct KcpStream {
    peer_id: String,
    conv: u32,
    read: KcpStreamRead,
    write: KcpStreamWrite,
}

impl KcpStream {
    /// What the stream is known by.
    pub closed spec fn key(&self) -> StreamKey {
        (self.peer_id@, self.conv)
    }

    /// The bytes that have come in and that the user has not read yet.
    pub closed spec fn unread(&self) -> Seq<u8> {
        self.read@
    }

    /// Opens a stream, unless it is open already.
    pub fn new<V>(peer_id: String, conv: u32, map: &mut StreamMap<V>, sender: V) -> (stream: Result<
        Self,
        PunchError,
    >)
        requires
            old(map).wf(),
        ensures
            final(map).wf(),
            opened(old(map)@, final(map)@, (peer_id@, conv), sender, stream),
    {
        if map.contains_key(&peer_id, conv) {
            return Err(PunchError::StreamExists);
        }
        map.insert(peer_id.clone(), conv, sender);
        Ok(KcpStream::new_stream(peer_id, conv))
    }

    fn new_stream(peer_id: String, conv: u32) -> (stream: Self)
        ensures
            stream.key() == (peer_id@, conv),
            stream.unread() == Seq::<u8>::empty(),
    {
        KcpStream { peer_id, conv, read: KcpStreamRead::new(), write: KcpStreamWrite {  } }
    }

    /// The claim of the stream to its place.
    pub fn owned(&self) -> (owned: OwnedKcp)
        ensures
            owned.key() == self.key(),
    {
        OwnedKcp { peer_id: self.peer_id.clone(), conv: self.conv }
    }

    /// The two directions of the stream, each on its own.
    pub fn split(self) -> (halves: (KcpStreamWrite, KcpStreamRead))
        ensures
            halves.1@ == self.unread(),
    {
        (self.write, self.read)
    }

    /// The conversation of the stream.
    pub fn conv(&self) -> (conv: u32)
        ensures
            conv == self.key().1,
    {
        self.conv
    }

    /// The peer of the stream.
    pub fn peer_id(&self) -> (peer_id: &String)
        ensures
            peer_id@ == self.key().0,
    {
        &self.peer_id
    }
}

/// What comes next when a stream is read.
#[derive(Clone, Copy, Debug, PartialEq, Eq, Structural)]
pub enum ReadStep {
    /// The stream is asked for what has come in.
    Receive,
    /// The read is done.
    Ready,
    /// The read is done, and nothing more is taken in.
    Close,
    /// The read waits.
    Pending,
}

/// What has come in.
pub enum Received {
    /// Nothing so far.
    Pending,
    /// Nothing, and nothing will.
    Closed,
    /// Data.
    Data(BytesMut),
}

/// The reading direction of a stream. Its view is what has come in and was not read yet.
pub struct KcpStreamRead {
    last_buf: Option<BytesMut>,
}

impl View for KcpStreamRead {
    type V = Seq<u8>;

    closed spec fn view(&self) -> Seq<u8> {
        match self.last_buf {
            Some(last) => contents(last),
            None => Seq::empty(),
        }
    }
}

/// How many bytes of `data` go into a buffer.
pub open spec fn fitting(data: Seq<u8>, buf: ReadBuf<'_>) -> int {
    if data.len() <= room(buf) {
        data.len() as int
    } else {
        room(buf) as int
    }
}

/// What a buffer holds after it took as much of `data` as it has room for.
pub open spec fn took(before: ReadBuf<'_>, after: ReadBuf<'_>, data: Seq<u8>) -> bool {
    &&& filled(after) == filled(before) + data.take(fitting(data, before))
    &&& room(after) == room(before) - fitting(data, before)
}

impl KcpStreamRead {
    #[verifier::type_invariant]
    spec fn holds_something(self) -> bool {
        self.last_buf matches Some(last) ==> contents(last).len() > 0
    }

    fn new() -> (read: Self)
        ensures
            read@ == Seq::<u8>::empty(),
    {
        KcpStreamRead { last_buf: None }
    }

    /// Reads what is still there from before. If there is nothing, the stream has to be asked.
    pub fn poll_read(&mut self, buf: &mut ReadBuf<'_>) -> (step: ReadStep)
        ensures
            old(self)@.len() == 0 ==> {
                &&& step == ReadStep::Receive
                &&& final(self)@ == old(self)@
                &&& *final(buf) == *old(buf)
            },
            old(self)@.len() > 0 ==> {
                &&& step == ReadStep::Ready
                &&& took(*old(buf), *final(buf), old(self)@)
                &&& final(self)@ == old(self)@.skip(fitting(old(self)@, *old(buf)))
            },
            filled(*final(buf)) + final(self)@ == filled(*old(buf)) + old(self)@,
    {
        proof {
            use_type_invariant(&*self);
        }
        let mut last_buf: Option<BytesMut> = None;
        std::mem::swap(&mut last_buf, &mut self.last_buf);
        match last_buf {
            Some(last) => {
                self.last_buf = put_front(last, buf);
                ReadStep::Ready
            },
            None => ReadStep::Receive,
        }
    }

    /// Goes on with what the stream said. What does not fit into the buffer is kept.
    pub fn received(&mut self, received: Received, buf: &mut ReadBuf<'_>) -> (step: ReadStep)
        requires
            old(self)@.len() == 0,
        ensures
            match received {
                Received::Data(data) => if contents(data).len() > 0 {
                    &&& step == ReadStep::Ready
                    &&& took(*old(buf), *final(buf), contents(data))
                    &&& final(self)@ == contents(data).skip(fitting(contents(data), *old(buf)))
                    &&& filled(*final(buf)) + final(self)@ == filled(*old(buf)) + contents(data)
                } else {
                    step == ReadStep::Close && final(self)@ == old(self)@ && *final(buf) == *old(
                        buf,
                    )
                },
                Received::Closed => step == ReadStep::Ready && final(self)@ == old(self)@
                    && *final(buf) == *old(buf),
                Received::Pending => step == ReadStep::Pending && final(self)@ == old(self)@
                    && *final(buf) == *old(buf),
            },
    {
        match received {
            Received::Data(data) => {
                if as_slice(&data).len() == 0 {
                    return ReadStep::Close;
                }
                self.last_buf = put_front(data, buf);
                ReadStep::Ready
            },
            Received::Closed => ReadStep::Ready,
            Received::Pending => ReadStep::Pending,
        }
    }
}

/// Moves as much of `data` into the buffer as there is room for, and returns the rest if there is
/// one.
fn put_front(data: BytesMut, buf: &mut ReadBuf<'_>) -> (rest: Option<BytesMut>)
    ensures
        took(*old(buf), *final(buf), contents(data)),
        filled(*final(buf)) + contents(data).skip(fitting(contents(data), *old(buf))) == filled(
            *old(buf),
        ) + contents(data),
        match rest {
            Some(rest) => contents(rest).len() > 0 && contents(rest) == contents(data).skip(
                fitting(contents(data), *old(buf)),
            ),
            None => contents(data).skip(fitting(contents(data), *old(buf))) == Seq::<u8>::empty(),
        },
{
    let mut data = data;
    let ghost all = contents(data);
    let available: usize = as_slice(&data).len();
    let space: usize = remaining(buf);
    let len: usize = if space < available {
        space
    } else {
        available
    };
    put(buf, slice_subrange(as_slice(&data), 0, len));
    advance(&mut data, len);
    assert(all.subrange(0, len as int) =~= all.take(len as int));
    assert(all.take(len as int) + all.skip(len as int) =~= all);
    assert(filled(*old(buf)) + all.take(len as int) + all.skip(len as int) =~= filled(*old(buf))
        + all);
    if as_slice(&data).len() == 0 {
        None
    } else {
        Some(data)
    }
}

/// One read of a stream: what the stream gave when it was asked, what went to the user, and what
/// was unread afterwards.
pub struct Reading {
    pub received: Seq<u8>,
    pub out: Seq<u8>,
    pub unread: Seq<u8>,
}

/// What is unread after some reads of a new stream.
pub open spec fn unread_after(run: Seq<Reading>) -> Seq<u8> {
    if run.len() == 0 {
        Seq::empty()
    } else {
        run.last().unread
    }
}

/// Reads of a new stream, one after the other. Each moves bytes to the user from the front of what
/// was unread and what the stream gave, as `poll_read` and `received` do.
pub open spec fn is_reading(run: Seq<Reading>) -> bool {
    forall|k: int|
        0 <= k < run.len() ==> (#[trigger] run[k]).out + run[k].unread == unread_after(run.take(k))
            + run[k].received
}

/// No byte is lost, doubled or moved: what went to the user in all reads and what is unread after
/// them is what the stream gave, in order.
pub proof fn lemma_reads_keep_every_byte(run: Seq<Reading>)
    requires
        is_reading(run),
    ensures
        joined(Seq::new(run.len(), |k: int| run[k].out)) + unread_after(run) == joined(
            Seq::new(run.len(), |k: int| run[k].received),
        ),
    decreases run.len(),
{
    let outs = Seq::new(run.len(), |k: int| run[k].out);
    let received = Seq::new(run.len(), |k: int| run[k].received);
    if run.len() == 0 {
        assert(joined(outs) + unread_after(run) =~= joined(received));
    } else {
        let shorter = run.drop_last();
        let last = run.len() - 1;
        assert(run.take(last) =~= shorter);
        assert forall|k: int| 0 <= k < shorter.len() implies (#[trigger] shorter[k]).out
            + shorter[k].unread == unread_after(shorter.take(k)) + shorter[k].received by {
            assert(shorter[k] == run[k]);
            assert(shorter.take(k) =~= run.take(k));
        }
        lemma_reads_keep_every_byte(shorter);
        assert(outs.drop_last() =~= Seq::new(shorter.len(), |k: int| shorter[k].out));
        assert(received.drop_last() =~= Seq::new(shorter.len(), |k: int| shorter[k].received));
        assert(run[last].out + run[last].unread == unread_after(shorter) + run[last].received);
        assert(joined(outs) + unread_after(run) =~= joined(outs.drop_last()) + (run[last].out
            + run[last].unread));
        assert(joined(outs.drop_last()) + (unread_after(shorter) + run[last].received) =~= (joined(
            outs.drop_last(),
        ) + unread_after(shorter)) + run[last].received);
    }
}

/// The most bytes that one write to a stream takes.
pub const MAX_WRITE_LEN: usize = 10240;

/// How many bytes of `data` one write takes.
pub open spec fn write_len(data: Seq<u8>) -> int {
    if data.len() <= MAX_WRITE_LEN {
        data.len() as int
    } else {
        MAX_WRITE_LEN as int
    }
}

/// Whether a stream's engine takes data.
pub enum Reserved {
    /// Not now.
    Pending,
    /// Never again.
    Closed,
    /// It takes one piece.
    Ready,
}

/// What comes next when a stream is written to.
pub enum WriteStep {
    /// The write waits.
    Pending,
    /// The write fails.
    Failed(PunchError),
    /// The piece is handed to the engine.
    Send(BytesMut),
}

/// The writing direction of a stream.
pub struct KcpStreamWrite {}

impl KcpStreamWrite {
    /// Starts a write: a piece of the data goes to the engine, once it takes one.
    pub fn poll_write(&self, reserved: Reserved, buf: &[u8]) -> (step: WriteStep)
        ensures
            match reserved {
                Reserved::Pending => step == WriteStep::Pending,
                Reserved::Closed => step == WriteStep::Failed(PunchError::WriteZero),
                Reserved::Ready => step matches WriteStep::Send(piece) && contents(piece)
                    == buf@.take(write_len(buf@)),
            },
    {
        match reserved {
            Reserved::Pending => WriteStep::Pending,
            Reserved::Closed => WriteStep::Failed(PunchError::WriteZero),
            Reserved::Ready => {
                let len: usize = if buf.len() < MAX_WRITE_LEN {
                    buf.len()
                } else {
                    MAX_WRITE_LEN
                };
                assert(buf@.subrange(0, len as int) =~= buf@.take(write_len(buf@)));
                WriteStep::Send(copied(slice_subrange(buf, 0, len)))
            },
        }
    }

    /// Ends a write whose piece was handed to the engine: the number of bytes that were written.
    pub fn written(&self, buf: &[u8], sent: bool) -> (written: Result<usize, PunchError>)
        ensures
            match written {
                Ok(len) => sent && len == write_len(buf@),
                Err(error) => !sent && error == PunchError::WriteZero,
            },
    {
        if !sent {
            return Err(PunchError::WriteZero);
        }
        if buf.len() < MAX_WRITE_LEN {
            Ok(buf.len())
        } else {
            Ok(MAX_WRITE_LEN)
        }
    }
}

/// The pieces in which data goes to the engine when a user writes until nothing is left.
pub open spec fn pieces(data: Seq<u8>) -> Seq<Seq<u8>>
    decreases data.len(),
{
    if data.len() == 0 {
        Seq::empty()
    } else {
        seq![data.take(write_len(data))] + pieces(data.skip(write_len(data)))
    }
}

/// The pieces of data are the data, in order. None is empty or longer than one write takes.
pub proof fn lemma_pieces_are_the_data(data: Seq<u8>)
    ensures
        joined(pieces(data)) == data,
        forall|k: int|
            0 <= k < pieces(data).len() ==> 0 < (#[trigger] pieces(data)[k]).len()
                <= MAX_WRITE_LEN,
    decreases data.len(),
{
    if data.len() > 0 {
        let first = data.take(write_len(data));
        let rest = data.skip(write_len(data));
        lemma_pieces_are_the_data(rest);
        lemma_joined_front(first, pieces(rest));
        assert(first + rest =~= data);
        assert forall|k: int| 0 <= k < pieces(data).len() implies 0 < (#[trigger] pieces(
            data,
        )[k]).len() <= MAX_WRITE_LEN by {
            if k > 0 {
                assert(pieces(data)[k] == pieces(rest)[k - 1]);
            }
        }
    }
}

/// What comes next when streams are accepted.
pub enum AcceptStep {
    /// No stream is accepted any more.
    Failed(PunchError),
    /// The packet is of no use, and the next one is waited for.
    Again,
    /// A new stream is accepted, once the packet has been handed to it.
    Accept(KcpStream, BytesMut),
    /// The packet is handed to a stream that is open already, and the next one is waited for.
    Deliver(String, u32, BytesMut),
}

/// Accepts the streams that peers open.
pub struct KcpStreamListener {}

impl KcpStreamListener {
    /// A listener, and the streams that it adds to.
    pub fn new<V>() -> (pair: (KcpContext<V>, Self))
        ensures
            pair.0.wf(),
            pair.0.streams() == Map::<StreamKey, V>::empty(),
    {
        (KcpContext::new(), KcpStreamListener {  })
    }

    /// Goes on with a packet that belongs to no open stream, or with none where no more will come.
    /// `sender` is the value of the stream that the packet opens.
    pub fn accept<V>(
        &self,
        context: &mut KcpContext<V>,
        message: Option<(String, BytesMut)>,
        sender: V,
    ) -> (step: AcceptStep)
        requires
            old(context).wf(),
            message matches Some((_, bytes)) ==> contents(bytes).len() == 0 || contents(bytes).len()
                >= SEGMENT_HEAD_LEN,
        ensures
            final(context).wf(),
            final(context).next_conv() == old(context).next_conv(),
            match message {
                None => step == AcceptStep::Failed(PunchError::ListenerClosed)
                    && final(context).streams() == old(context).streams(),
                Some((peer_id, bytes)) => {
                    let key = (peer_id@, conversation(contents(bytes)) as u32);
                    if contents(bytes).len() == 0 {
                        step == AcceptStep::Again && final(context).streams() == old(
                            context,
                        ).streams()
                    } else if old(context).streams().dom().contains(key) {
                        &&& step matches AcceptStep::Deliver(to, conv, packet)
                        &&& (to@, conv) == key
                        &&& packet == bytes
                        &&& final(context).streams() == old(context).streams()
                    } else {
                        &&& step matches AcceptStep::Accept(stream, packet)
                        &&& stream.key() == key
                        &&& stream.unread() == Seq::<u8>::empty()
                        &&& packet == bytes
                        &&& final(context).streams() == old(context).streams().insert(key, sender)
                    }
                },
            },
    {
        let (peer_id, bytes) = match message {
            Some(message) => message,
            None => return AcceptStep::Failed(PunchError::ListenerClosed),
        };
        if as_slice(&bytes).len() == 0 {
            return AcceptStep::Again;
        }
        let conv: u32 = get_conv(as_slice(&bytes));
        match self.new_stream_impl(context, peer_id.clone(), conv, sender) {
            Ok(stream) => AcceptStep::Accept(stream, bytes),
            Err(error) => match error.kind() {
                ErrorKind::AlreadyExists => AcceptStep::Deliver(peer_id, conv, bytes),
                _ => AcceptStep::Again,
            },
        }
    }

    fn new_stream_impl<V>(
        &self,
        context: &mut KcpContext<V>,
        peer_id: String,
        conv: u32,
        sender: V,
    ) -> (stream: Result<KcpStream, PunchError>)
        requires
            old(context).wf(),
        ensures
            final(context).wf(),
            final(context).next_conv() == old(context).next_conv(),
            opened(
                old(context).streams(),
                final(context).streams(),
                (peer_id@, conv),
                sender,
                stream,
            ),
    {
        KcpStream::new(peer_id, conv, &mut context.map, sender)
    }

    /// The value of an open stream.
    pub fn get_stream_sender<'a, V>(
        &self,
        context: &'a KcpContext<V>,
        peer_id: &String,
        conv: u32,
    ) -> (sender: Result<&'a V, PunchError>)
        requires
            context.wf(),
        ensures
            match sender {
                Ok(value) => context.streams().dom().contains((peer_id@, conv)) && *value
                    == context.streams()[(peer_id@, conv)],
                Err(error) => !context.streams().dom().contains((peer_id@, conv)) && error
                    == PunchError::StreamNotFound,
            },
    {
        match context.map.get(peer_id, conv) {
            Some(value) => Ok(value),
            None => Err(PunchError::StreamNotFound),
        }
    }

    /// The outcome of handing a packet to a stream.
    pub fn delivered(&self, sent: bool) -> (outcome: Result<(), PunchError>)
        ensures
            outcome == (if sent {
                Ok(())
            } else {
                Err(PunchError::StreamNotFound)
            }),
    {
        if sent {
            Ok(())
        } else {
            Err(PunchError::StreamNotFound)
        }
    }
}

/// A stream that was opened is open: a second attempt to open it is refused and changes nothing.
pub proof fn lemma_second_open_is_refused<V>(
    before: Map<StreamKey, V>,
    between: Map<StreamKey, V>,
    after: Map<StreamKey, V>,
    key: StreamKey,
    first: V,
    second: V,
    stream: KcpStream,
    again: Result<KcpStream, PunchError>,
)
    requires
        opened(before, between, key, first, Ok::<KcpStream, PunchError>(stream)),
        opened(between, after, key, second, again),
    ensures
        again == Err::<KcpStream, PunchError>(PunchError::StreamExists),
        after == between,
        between[key] == first,
{
}

/// A stream that was closed can be opened again.
pub proof fn lemma_closed_stream_opens_again<V>(
    before: Map<StreamKey, V>,
    after: Map<StreamKey, V>,
    key: StreamKey,
    sender: V,
    stream: Result<KcpStream, PunchError>,
)
    requires
        opened(before.remove(key), after, key, sender, stream),
    ensures
        stream is Ok,
        after == before.insert(key, sender),
{
    assert(before.remove(key).insert(key, sender) =~= before.insert(key, sender));
}

/// The packets in flight that a stream's engine allows, in either direction.
pub const WINDOW: u16 = 128;

/// The messages that wait between a stream and its engine, or in front of the listener.
pub const QUEUE_LEN: usize = 128;

/// The milliseconds between two updates of a stream's engine.
pub const TICK_MILLIS: u64 = 10;

/// The milliseconds after which a stream's engine sends again what is due.
pub const FLUSH_MILLIS: i32 = 10;

/// The number of later segments acknowledged after which a stream's engine sends a segment again.
pub const FAST_RESEND: i32 = 2;

/// The most bytes that are taken out of a stream's engine at once.
pub const RECEIVE_LEN: usize = 65536;

/// What a stream's engine waits for, besides the tick of the clock.
#[derive(Clone, Copy, Debug, PartialEq, Eq, Structural)]
pub enum WaitFor {
    /// A packet from the peer.
    Input,
    /// Data from the user.
    Output,
    /// A packet from the peer or data from the user.
    All,
}

/// What ended the wait. Nothing comes from a side that is closed.
pub enum Wake {
    Input(Option<BytesMut>),
    Output(Option<BytesMut>),
    Tick,
}

/// What a stream's engine deals with.
#[derive(Debug)]
pub enum Event {
    /// Data from the user.
    Output(BytesMut),
    /// A packet from the peer.
    Input(BytesMut),
    /// The time has come for an update.
    Timeout,
}

/// What a stream's engine waits for. With a full window it takes no data, and with a rest of a
/// packet before it, no further packet.
pub open spec fn awaited(leftover: bool, wait_snd: usize, snd_wnd: u16) -> WaitFor {
    if wait_snd >= snd_wnd {
        WaitFor::Input
    } else if leftover {
        WaitFor::Output
    } else {
        WaitFor::All
    }
}

/// Whether a wait can end in this way.
pub open spec fn can_end(wait: WaitFor, wake: Wake) -> bool {
    match wake {
        Wake::Input(_) => wait != WaitFor::Output,
        Wake::Output(_) => wait != WaitFor::Input,
        Wake::Tick => true,
    }
}

/// While the window is full, no data is taken from the user.
pub proof fn lemma_full_window_takes_no_data(
    leftover: bool,
    wait_snd: usize,
    snd_wnd: u16,
    wake: Wake,
)
    requires
        wait_snd >= snd_wnd,
        can_end(awaited(leftover, wait_snd, snd_wnd), wake),
    ensures
        !(wake is Output),
{
}

/// While the window has room, no packet is taken before the rest of the one before it.
pub proof fn lemma_leftover_goes_first(wait_snd: usize, snd_wnd: u16, wake: Wake)
    requires
        wait_snd < snd_wnd,
        can_end(awaited(true, wait_snd, snd_wnd), wake),
    ensures
        !(wake is Input),
{
}

/// What woke the engine, unless it was the end of one side.
pub open spec fn woken_by(wake: Wake) -> Result<Event, PunchError> {
    match wake {
        Wake::Input(Some(packet)) => Ok(Event::Input(packet)),
        Wake::Input(None) => Err(PunchError::InputClosed),
        Wake::Output(Some(data)) => Ok(Event::Output(data)),
        Wake::Output(None) => Err(PunchError::OutputClosed),
        Wake::Tick => Ok(Event::Timeout),
    }
}

/// What woke the engine, unless it was the end of one side.
pub fn all_event(wake: Wake) -> (event: Result<Event, PunchError>)
    ensures
        event == woken_by(wake),
{
    match wake {
        Wake::Input(Some(packet)) => Ok(Event::Input(packet)),
        Wake::Input(None) => Err(PunchError::InputClosed),
        Wake::Output(Some(data)) => Ok(Event::Output(data)),
        Wake::Output(None) => Err(PunchError::OutputClosed),
        Wake::Tick => Ok(Event::Timeout),
    }
}

/// How the run of an engine ends.
#[derive(Clone, Copy, Debug, PartialEq, Eq, Structural)]
pub enum RunEnd {
    /// One side has come to its end.
    Failed(PunchError),
    /// The engine has failed.
    EngineFailed,
    /// The user reads no more.
    Finished,
}

impl RunEnd {
    pub open spec fn spec_kind(self) -> Option<ErrorKind> {
        match self {
            RunEnd::Failed(error) => Some(error.spec_kind()),
            RunEnd::EngineFailed => Some(ErrorKind::Other),
            RunEnd::Finished => None,
        }
    }

    /// The category of the error with which the run ends, if it ends with one.
    pub fn kind(&self) -> (kind: Option<ErrorKind>)
        ensures
            kind == self.spec_kind(),
    {
        match self {
            RunEnd::Failed(error) => Some(error.kind()),
            RunEnd::EngineFailed => Some(ErrorKind::Other),
            RunEnd::Finished => None,
        }
    }
}

/// What comes next in the run of an engine.
pub enum RunStep {
    /// The engine waits.
    Wait,
    /// A packet is fed to the engine.
    Feed(BytesMut),
    /// Data is handed to the engine to be sent.
    Send(BytesMut),
    /// The engine is brought to a time.
    Update(u32),
    /// The engine is asked for data from the peer.
    Receive,
    /// Data goes to the user.
    Forward(BytesMut),
    /// The run is over.
    Stop(RunEnd),
}

/// The step that an event asks for.
pub open spec fn is_step_of(event: Event, step: RunStep) -> bool {
    match event {
        Event::Input(packet) => step == RunStep::Feed(packet),
        Event::Output(data) => step == RunStep::Send(data),
        Event::Timeout => exists|clock: SystemTime|
            step == RunStep::Update(#[trigger] engine_time_at(clock)),
    }
}

fn step_of(event: Event) -> (step: RunStep)
    ensures
        is_step_of(event, step),
{
    match event {
        Event::Input(packet) => RunStep::Feed(packet),
        Event::Output(data) => RunStep::Send(data),
        Event::Timeout => RunStep::Update(engine_now()),
    }
}

/// Runs the engine of a stream.
pub struct KcpRun {
    input_data: Option<BytesMut>,
    event: Option<Event>,
}

impl KcpRun {
    /// The rest of a packet that the engine has not taken yet.
    pub closed spec fn leftover(&self) -> Option<BytesMut> {
        self.input_data
    }

    /// The event that comes after the rest of a packet.
    pub closed spec fn postponed(&self) -> Option<Event> {
        self.event
    }

    /// A run that starts with a wait.
    pub fn new() -> (run: Self)
        ensures
            run.leftover() is None,
            run.postponed() is None,
    {
        KcpRun { input_data: None, event: None }
    }

    /// What to wait for, with the number of segments that are to be sent and the window for them.
    pub fn wait_for(&self, wait_snd: usize, snd_wnd: u16) -> (wait: WaitFor)
        ensures
            wait == awaited(self.leftover() is Some, wait_snd, snd_wnd),
    {
        if wait_snd >= snd_wnd as usize {
            WaitFor::Input
        } else if self.input_data.is_some() {
            WaitFor::Output
        } else {
            WaitFor::All
        }
    }

    /// Goes on after a wait. The rest of a packet is fed before anything else.
    pub fn woken(&mut self, wake: Wake) -> (step: RunStep)
        requires
            old(self).postponed() is None,
        ensures
            match woken_by(wake) {
                Err(error) => step == RunStep::Stop(RunEnd::Failed(error)) && *final(self) == *old(
                    self,
                ),
                Ok(event) => {
                    &&& final(self).leftover() is None
                    &&& match old(self).leftover() {
                        Some(rest) => step == RunStep::Feed(rest) && final(self).postponed()
                            == Some(event),
                        None => is_step_of(event, step) && final(self).postponed() is None,
                    }
                },
            },
            wake is Tick && old(self).leftover() is None ==> exists|clock: SystemTime|
                match #[trigger] elapsed(clock) {
                    Some(duration) => step matches RunStep::Update(time) && time == millis_of(
                        duration,
                    ) % 0x1_0000_0000,
                    None => step == RunStep::Update(0),
                },
    {
        let event = match all_event(wake) {
            Ok(event) => event,
            Err(error) => return RunStep::Stop(RunEnd::Failed(error)),
        };
        match self.input_data.take() {
            Some(rest) => {
                self.event = Some(event);
                RunStep::Feed(rest)
            },
            None => step_of(event),
        }
    }

    /// Goes on after a packet was fed to the engine, which took a number of its bytes or failed.
    /// What it has not taken is kept, in place of the rest of another packet.
    pub fn fed(&mut self, packet: BytesMut, taken: Option<usize>) -> (step: RunStep)
        ensures
            match taken {
                None => step == RunStep::Stop(RunEnd::EngineFailed) && *final(self) == *old(self),
                Some(taken) => {
                    &&& if taken < contents(packet).len() {
                        &&& final(self).leftover() matches Some(rest)
                        &&& contents(rest) == contents(packet).skip(taken as int)
                    } else {
                        final(self).leftover() == old(self).leftover()
                    }
                    &&& final(self).postponed() is None
                    &&& match old(self).postponed() {
                        Some(event) => is_step_of(event, step),
                        None => step == RunStep::Receive,
                    }
                },
            },
            taken is Some && old(self).postponed() == Some(Event::Timeout) ==> exists|
                clock: SystemTime,
            |
                match #[trigger] elapsed(clock) {
                    Some(duration) => step matches RunStep::Update(time) && time == millis_of(
                        duration,
                    ) % 0x1_0000_0000,
                    None => step == RunStep::Update(0),
                },
    {
        let taken: usize = match taken {
            Some(taken) => taken,
            None => return RunStep::Stop(RunEnd::EngineFailed),
        };
        if taken < as_slice(&packet).len() {
            let mut rest = packet;
            advance(&mut rest, taken);
            self.input_data = Some(rest);
        }
        match self.event.take() {
            Some(event) => step_of(event),
            None => RunStep::Receive,
        }
    }

    /// Goes on after the engine was handed data or brought to a time.
    pub fn worked(&self, success: bool) -> (step: RunStep)
        ensures
            step == (if success {
                RunStep::Receive
            } else {
                RunStep::Stop(RunEnd::EngineFailed)
            }),
    {
        if success {
            RunStep::Receive
        } else {
            RunStep::Stop(RunEnd::EngineFailed)
        }
    }

    /// Goes on after the engine was asked for data, and wrote a number of bytes into a buffer or
    /// none.
    pub fn received(&self, buf: &[u8], len: Option<usize>) -> (step: RunStep)
        requires
            len matches Some(len) ==> len <= buf@.len(),
        ensures
            match len {
                Some(len) => step matches RunStep::Forward(data) && contents(data) == buf@.take(
                    len as int,
                ),
                None => step == RunStep::Wait,
            },
    {
        match len {
            Some(len) => {
                assert(buf@.subrange(0, len as int) =~= buf@.take(len as int));
                RunStep::Forward(copied(slice_subrange(buf, 0, len)))
            },
            None => RunStep::Wait,
        }
    }

    /// Goes on after data went to the user, who took it or reads no more.
    pub fn forwarded(&self, sent: bool) -> (step: RunStep)
        ensures
            step == (if sent {
                RunStep::Wait
            } else {
                RunStep::Stop(RunEnd::Finished)
            }),
    {
        if sent {
            RunStep::Wait
        } else {
            RunStep::Stop(RunEnd::Finished)
        }
    }
}

/// How a packet fared on its way to the peer.
#[derive(Clone, Copy, Debug, PartialEq, Eq, Structural)]
pub enum SendOutcome {
    /// It was sent.
    Sent,
    /// The socket did not take it.
    WouldBlock,
    /// It could not be sent.
    Failed,
}

/// Takes the packets of a stream's engine.
pub struct KcpOutput {}

impl KcpOutput {
    /// The bytes of a packet that count as written: all of them, even if the socket did not take
    /// the packet, or none if it could not be sent.
    pub fn write(&self, buf: &[u8], outcome: SendOutcome) -> (written: Option<usize>)
        ensures
            written == (if outcome == SendOutcome::Failed {
                None
            } else {
                Some(buf@.len() as usize)
            }),
            written matches Some(len) ==> len == buf@.len(),
    {
        match outcome {
            SendOutcome::Failed => None,
            _ => Some(buf.len()),
        }
    }
}

} // verus!
