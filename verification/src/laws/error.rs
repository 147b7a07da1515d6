//! Laws of errors.
use crate::error::{ErrorKind, PunchError};
use vstd::prelude::*;

verus! {

/// Every error has the category under which callers tell it from others: bad input and bad data,
/// what is there already and what is not found, a writer that takes nothing, and the rest.
pub proof fn lemma_errors_have_their_kind(error: PunchError, kind: ErrorKind)
    requires
        call_ensures(PunchError::kind, (&error,), kind),
    ensures
        kind == ErrorKind::AlreadyExists <==> error == PunchError::StreamExists,
        kind == ErrorKind::WriteZero <==> error == PunchError::WriteZero,
        kind == ErrorKind::NotFound <==> error == PunchError::StreamNotFound || error
            == PunchError::RouteNotFound,
        kind == ErrorKind::InvalidInput <==> error == PunchError::PacketTooShort || error
            == PunchError::PacketLenInvalid || error == PunchError::IdTooLong || error
            == PunchError::OneselfIdTooLong,
        kind == ErrorKind::InvalidData <==> error is InvalidProtocol || error
            == PunchError::PingPongTooShort || error == PunchError::PingPongInvalid || error
            == PunchError::FrameLenInvalid,
{
}

/// Only errors that are a kind and nothing more have no text. The text of an unknown protocol ends
/// with its number in decimal, without leading zeros.
pub proof fn lemma_errors_have_their_text(error: PunchError, message: Option<String>)
    requires
        call_ensures(PunchError::message, (&error,), message),
    ensures
        message is None <==> error == PunchError::FrameLenInvalid || error == PunchError::WriteZero
            || error == PunchError::ListenerClosed,
        error is PacketTooShort || error is PingPongTooShort || error is BufferTooShort
            ==> message->0@ == "too short"@,
        error is PacketLenInvalid ==> message->0@ == "packet len invalid"@,
        error is ClockBehind ==> message->0@ == "system time error"@,
        error is IdTooLong ==> message->0@ == "too long"@,
        error is PingPongInvalid ==> message->0@ == "invalid data"@,
        error is InputClosed ==> message->0@ == "input close"@,
        error is OutputClosed ==> message->0@ == "output close"@,
        error is StreamExists ==> message->0@ == "stream already exists"@,
        error is StreamNotFound ==> message->0@ == "not found stream"@,
        error is RouteNotFound ==> message->0@ == "route not found"@,
        error is ConnectToOneself ==> message->0@ == "Cannot connect to oneself"@,
        error is OneselfIdTooLong ==> message->0@ == "oneself_id too long"@,
        error matches PunchError::InvalidProtocol(number) ==> exists|digits: Seq<char>|
            message->0@ == "invalid protocol:"@ + digits && #[trigger] is_decimal(
                digits,
                number as int,
            ),
{
    if let PunchError::InvalidProtocol(number) = error {
        let digits = crate::error::decimal_text(number);
        lemma_decimal_text_is_decimal(number);
        assert(message->0@ == "invalid protocol:"@ + digits);
    }
}

/// The number that digits make, the most significant first.
pub open spec fn decimal_value(digits: Seq<char>) -> int
    decreases digits.len(),
{
    if digits.len() == 0 {
        0
    } else {
        decimal_value(digits.drop_last()) * 10 + (digits.last() as int - '0' as int)
    }
}

/// Digits that make a number, without a zero in front unless they are that zero.
pub open spec fn is_decimal(digits: Seq<char>, number: int) -> bool {
    &&& digits.len() > 0
    &&& forall|i: int| 0 <= i < digits.len() ==> '0' <= #[trigger] digits[i] <= '9'
    &&& digits.len() > 1 ==> digits[0] != '0'
    &&& decimal_value(digits) == number
}

proof fn lemma_decimal_text_is_decimal(number: u8)
    ensures
        is_decimal(crate::error::decimal_text(number), number as int),
{
    let digits = crate::error::decimal_text(number);
    reveal_with_fuel(decimal_value, 4);
    if number >= 100 {
        assert(digits.drop_last().drop_last() =~= seq![digits[0]]);
        assert(digits.drop_last().drop_last().drop_last() =~= Seq::empty());
        assert(digits.drop_last().last() == digits[1]);
    } else if number >= 10 {
        assert(digits.drop_last() =~= seq![digits[0]]);
        assert(digits.drop_last().drop_last() =~= Seq::empty());
    } else {
        assert(digits.drop_last() =~= Seq::empty());
    }
}

} // verus!
