//! One line of the conversation, as the terminal client keeps it.

use vstd::prelude::*;

verus! {

/// A line of the conversation with the time at which the client took it.
#[derive(Debug, Clone, PartialEq, Eq)]
pub struct Message {
    /// The local time of day, as `HH:MM`.
    pub time: String,
    /// What was said.
    pub content: String,
}

impl View for Message {
    type V = (Seq<char>, Seq<char>);

    open spec fn view(&self) -> (Seq<char>, Seq<char>) {
        (self.time@, self.content@)
    }
}

/// The number that a decimal digit stands for.
pub open spec fn digit_value(c: char) -> int {
    c as int - '0' as int
}

/// Whether `c` is one of `0` to `9`.
pub open spec fn is_digit(c: char) -> bool {
    0 <= digit_value(c) <= 9
}

/// Whether `text` is a time of day on a 24-hour clock: two digits for the
/// hour, a colon, two digits for the minute.
pub open spec fn is_clock_text(text: Seq<char>) -> bool {
    &&& text.len() == 5
    &&& is_digit(text[0])
    &&& is_digit(text[1])
    &&& text[2] == ':'
    &&& is_digit(text[3])
    &&& is_digit(text[4])
    &&& 10 * digit_value(text[0]) + digit_value(text[1]) <= 23
    &&& 10 * digit_value(text[3]) + digit_value(text[4]) <= 59
}

/// Reads the local time of day with chrono: `Local::now`, formatted by
/// `DateTime::format` with `%H:%M`.
///
/// Nothing here is proved, and the result is a different one from call to
/// call. The contract claims its shape only, as chrono documents the two
/// specifiers: the hour from 00 to 23 and the minute from 00 to 59, each
/// padded with a zero to two digits, with the colon of the pattern between
/// them. chrono gives up, and the program with it, where the system clock
/// stands before 1970.
#[verifier::external_body]
pub(crate) fn local_clock() -> (text: String)
    ensures
        is_clock_text(text@),
{
    chrono::Local::now().format("%H:%M").to_string()
}

impl Message {
    /// A message with the given time.
    pub fn stamped(time: String, content: String) -> (message: Message)
        ensures
            message@ == (time@, content@),
    {
        Message { time, content }
    }

    /// A message taken now: its time is read from the local clock.
    pub fn new(content: String) -> (message: Message)
        ensures
            message.content@ == content@,
            is_clock_text(message.time@),
    {
        Message::stamped(local_clock(), content)
    }
}

} // verus!
