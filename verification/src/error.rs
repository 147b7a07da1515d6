//! The errors of the crate, with the kind and the text under which callers report them.
use vstd::prelude::*;
use vstd::string::*;

verus! {

/// The category of an error.
#[derive(Clone, Copy, Debug, PartialEq, Eq, Structural)]
pub enum ErrorKind {
    InvalidInput,
    InvalidData,
    AlreadyExists,
    NotFound,
    WriteZero,
    Other,
}

/// What can go wrong in this crate.
#[derive(Clone, Copy, Debug, PartialEq, Eq, Structural)]
pub enum PunchError {
    /// A packet is shorter than its header.
    PacketTooShort,
    /// A packet does not have the length that its header gives.
    PacketLenInvalid,
    /// No protocol has this number.
    InvalidProtocol(u8),
    /// The clock stands before the epoch.
    ClockBehind,
    /// A peer id does not fit into a ping.
    IdTooLong,
    /// The payload of a ping or pong is too short for its fixed fields.
    PingPongTooShort,
    /// The payload of a ping or pong has a wrong length or an id that is not text.
    PingPongInvalid,
    /// The caller's buffer cannot hold the packet.
    BufferTooShort,
    /// Data to be sent does not have the length that its header gives.
    FrameLenInvalid,
    /// The writer takes no more bytes.
    WriteZero,
    /// No more packets come in for a stream.
    InputClosed,
    /// No more data comes from the user of a stream.
    OutputClosed,
    /// A stream with this peer and conversation is open already.
    StreamExists,
    /// No stream with this peer and conversation is open.
    StreamNotFound,
    /// No more packets come in for the listener.
    ListenerClosed,
    /// No route leads to the peer.
    RouteNotFound,
    /// The peer is this node itself.
    ConnectToOneself,
    /// The id of this node is too long.
    OneselfIdTooLong,
}

/// The decimal digit of `d`, as text.
pub open spec fn digit_text(d: int) -> Seq<char> {
    seq![(48 + d) as char]
}

/// `value` in decimal, without leading zeros.
pub open spec fn decimal_text(value: u8) -> Seq<char> {
    if value >= 100 {
        digit_text(value as int / 100) + digit_text(value as int / 10 % 10) + digit_text(
            value as int % 10,
        )
    } else if value >= 10 {
        digit_text(value as int / 10) + digit_text(value as int % 10)
    } else {
        digit_text(value as int)
    }
}

fn digit(d: u8) -> (text: &'static str)
    requires
        d < 10,
    ensures
        text@ == digit_text(d as int),
{
    proof {
        reveal_strlit("0");
        reveal_strlit("1");
        reveal_strlit("2");
        reveal_strlit("3");
        reveal_strlit("4");
        reveal_strlit("5");
        reveal_strlit("6");
        reveal_strlit("7");
        reveal_strlit("8");
        reveal_strlit("9");
    }
    match d {
        0 => "0",
        1 => "1",
        2 => "2",
        3 => "3",
        4 => "4",
        5 => "5",
        6 => "6",
        7 => "7",
        8 => "8",
        _ => "9",
    }
}

fn append_decimal(text: &mut String, value: u8)
    ensures
        final(text)@ == old(text)@ + decimal_text(value),
{
    if value >= 100 {
        text.append(digit(value / 100));
        text.append(digit(value / 10 % 10));
        text.append(digit(value % 10));
    } else if value >= 10 {
        text.append(digit(value / 10));
        text.append(digit(value % 10));
    } else {
        text.append(digit(value));
    }
    assert(text@ =~= old(text)@ + decimal_text(value));
}

impl PunchError {
    pub open spec fn spec_kind(self) -> ErrorKind {
        match self {
            PunchError::PacketTooShort => ErrorKind::InvalidInput,
            PunchError::PacketLenInvalid => ErrorKind::InvalidInput,
            PunchError::InvalidProtocol(_) => ErrorKind::InvalidData,
            PunchError::ClockBehind => ErrorKind::Other,
            PunchError::IdTooLong => ErrorKind::InvalidInput,
            PunchError::PingPongTooShort => ErrorKind::InvalidData,
            PunchError::PingPongInvalid => ErrorKind::InvalidData,
            PunchError::BufferTooShort => ErrorKind::Other,
            PunchError::FrameLenInvalid => ErrorKind::InvalidData,
            PunchError::WriteZero => ErrorKind::WriteZero,
            PunchError::InputClosed => ErrorKind::Other,
            PunchError::OutputClosed => ErrorKind::Other,
            PunchError::StreamExists => ErrorKind::AlreadyExists,
            PunchError::StreamNotFound => ErrorKind::NotFound,
            PunchError::ListenerClosed => ErrorKind::Other,
            PunchError::RouteNotFound => ErrorKind::NotFound,
            PunchError::ConnectToOneself => ErrorKind::Other,
            PunchError::OneselfIdTooLong => ErrorKind::InvalidInput,
        }
    }

    /// The text of an error, where it has one besides its kind.
    pub open spec fn spec_message(self) -> Option<Seq<char>> {
        match self {
            PunchError::PacketTooShort => Some("too short"@),
            PunchError::PacketLenInvalid => Some("packet len invalid"@),
            PunchError::InvalidProtocol(value) => Some("invalid protocol:"@ + decimal_text(value)),
            PunchError::ClockBehind => Some("system time error"@),
            PunchError::IdTooLong => Some("too long"@),
            PunchError::PingPongTooShort => Some("too short"@),
            PunchError::PingPongInvalid => Some("invalid data"@),
            PunchError::BufferTooShort => Some("too short"@),
            PunchError::FrameLenInvalid => None,
            PunchError::WriteZero => None,
            PunchError::InputClosed => Some("input close"@),
            PunchError::OutputClosed => Some("output close"@),
            PunchError::StreamExists => Some("stream already exists"@),
            PunchError::StreamNotFound => Some("not found stream"@),
            PunchError::ListenerClosed => None,
            PunchError::RouteNotFound => Some("route not found"@),
            PunchError::ConnectToOneself => Some("Cannot connect to oneself"@),
            PunchError::OneselfIdTooLong => Some("oneself_id too long"@),
        }
    }

    /// The category of the error.
    pub fn kind(&self) -> (kind: ErrorKind)
        ensures
            kind == self.spec_kind(),
    {
        match self {
            PunchError::PacketTooShort => ErrorKind::InvalidInput,
            PunchError::PacketLenInvalid => ErrorKind::InvalidInput,
            PunchError::InvalidProtocol(_) => ErrorKind::InvalidData,
            PunchError::ClockBehind => ErrorKind::Other,
            PunchError::IdTooLong => ErrorKind::InvalidInput,
            PunchError::PingPongTooShort => ErrorKind::InvalidData,
            PunchError::PingPongInvalid => ErrorKind::InvalidData,
            PunchError::BufferTooShort => ErrorKind::Other,
            PunchError::FrameLenInvalid => ErrorKind::InvalidData,
            PunchError::WriteZero => ErrorKind::WriteZero,
            PunchError::InputClosed => ErrorKind::Other,
            PunchError::OutputClosed => ErrorKind::Other,
            PunchError::StreamExists => ErrorKind::AlreadyExists,
            PunchError::StreamNotFound => ErrorKind::NotFound,
            PunchError::ListenerClosed => ErrorKind::Other,
            PunchError::RouteNotFound => ErrorKind::NotFound,
            PunchError::ConnectToOneself => ErrorKind::Other,
            PunchError::OneselfIdTooLong => ErrorKind::InvalidInput,
        }
    }

    /// The text of the error, where it has one besides its kind.
    pub fn message(&self) -> (message: Option<String>)
        ensures
            message is Some <==> self.spec_message() is Some,
            message matches Some(text) ==> self.spec_message() == Some(text@),
    {
        match self {
            PunchError::PacketTooShort => Some("too short".to_owned()),
            PunchError::PacketLenInvalid => Some("packet len invalid".to_owned()),
            PunchError::InvalidProtocol(value) => {
                let mut text = "invalid protocol:".to_owned();
                append_decimal(&mut text, *value);
                Some(text)
            },
            PunchError::ClockBehind => Some("system time error".to_owned()),
            PunchError::IdTooLong => Some("too long".to_owned()),
            PunchError::PingPongTooShort => Some("too short".to_owned()),
            PunchError::PingPongInvalid => Some("invalid data".to_owned()),
            PunchError::BufferTooShort => Some("too short".to_owned()),
            PunchError::FrameLenInvalid => None,
            PunchError::WriteZero => None,
            PunchError::InputClosed => Some("input close".to_owned()),
            PunchError::OutputClosed => Some("output close".to_owned()),
            PunchError::StreamExists => Some("stream already exists".to_owned()),
            PunchError::StreamNotFound => Some("not found stream".to_owned()),
            PunchError::ListenerClosed => None,
            PunchError::RouteNotFound => Some("route not found".to_owned()),
            PunchError::ConnectToOneself => Some("Cannot connect to oneself".to_owned()),
            PunchError::OneselfIdTooLong => Some("oneself_id too long".to_owned()),
        }
    }
}

} // verus!
