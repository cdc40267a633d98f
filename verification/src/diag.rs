//! The lines of the journal of a run: the steps that matter, with the time since the start.

use vstd::prelude::*;

use crate::text::decimal;
use crate::text::pad_left;
use crate::text::padded;
use crate::text::to_decimal;

verus! {

/// A line of the journal: seconds and milliseconds since the start, then the message.
pub open spec fn journal_line(millis: u64, message: Seq<char>) -> Seq<char> {
    "["@ + padded(decimal((millis / 1000) as nat), 6, ' ') + "."@ + padded(
        decimal((millis % 1000) as nat),
        3,
        '0',
    ) + " с] "@ + message
}

pub fn log(millis: u64, message: &str) -> (r: String)
    ensures
        r@ == journal_line(millis, message@),
{
    let mut r = "[".to_string();
    r.append(pad_left(to_decimal(millis / 1000).as_str(), 6, ' ').as_str());
    r.append(".");
    r.append(pad_left(to_decimal(millis % 1000).as_str(), 3, '0').as_str());
    r.append(" с] ");
    r.append(message);
    r
}

/// The message on a step and how long it took.
pub fn timed(what: &str, millis: u64) -> (r: String)
    ensures
        r@ == what@ + ": "@ + decimal(millis as nat) + " мс"@,
{
    let mut r = what.to_string();
    r.append(": ");
    r.append(to_decimal(millis).as_str());
    r.append(" мс");
    r
}

} // verus!
