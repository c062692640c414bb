//! The status line that announces a record: decimal numbers and fixed words.

use vstd::prelude::*;
use vstd::string::{StrSliceExecFns, StringExecFns};
use crate::block::{NamedPayload, NamedPayloadView};

verus! {

/// The character for a digit below ten.
pub open spec fn spec_digit(d: nat) -> char
    recommends
        d < 10,
{
    if d == 0 {
        '0'
    } else if d == 1 {
        '1'
    } else if d == 2 {
        '2'
    } else if d == 3 {
        '3'
    } else if d == 4 {
        '4'
    } else if d == 5 {
        '5'
    } else if d == 6 {
        '6'
    } else if d == 7 {
        '7'
    } else if d == 8 {
        '8'
    } else {
        '9'
    }
}

/// A number in decimal, without sign, padding or leading zeros.
pub open spec fn spec_decimal(n: nat) -> Seq<char>
    decreases n,
{
    if n < 10 {
        seq![spec_digit(n)]
    } else {
        spec_decimal(n / 10).push(spec_digit(n % 10))
    }
}

/// The status line of the record at `index`: the word `Block`, the index, a
/// colon, the path as decoded, the word `size`, and the payload's length.
pub open spec fn spec_status_line(index: nat, record: NamedPayloadView) -> Seq<char> {
    seq!['B', 'l', 'o', 'c', 'k', ' '] + spec_decimal(index) + seq![':', ' '] + record.file_name
        + seq![' ', 's', 'i', 'z', 'e', ' '] + spec_decimal(record.payload.len())
}

fn digit_text(d: usize) -> (r: &'static str)
    requires
        d < 10,
    ensures
        r@ == seq![spec_digit(d as nat)],
{
    proof {
        reveal_strlit("0");
        reveal_strlit("1");
        reveal_strlit("2");
        reveal_strlit("3");
        reveal_strlit("4");
        reveal_strlit("5");
        reveal_strlit("6");
        reveal_strlit("7");
        reveal_strlit("8");
        reveal_strlit("9");
    }
    let r = if d == 0 {
        "0"
    } else if d == 1 {
        "1"
    } else if d == 2 {
        "2"
    } else if d == 3 {
        "3"
    } else if d == 4 {
        "4"
    } else if d == 5 {
        "5"
    } else if d == 6 {
        "6"
    } else if d == 7 {
        "7"
    } else if d == 8 {
        "8"
    } else {
        "9"
    };
    assert(r@ =~= seq![spec_digit(d as nat)]);
    r
}

/// Writes a number in decimal.
pub fn decimal(n: usize) -> (r: String)
    ensures
        r@ == spec_decimal(n as nat),
    decreases n,
{
    if n < 10 {
        String::from_str(digit_text(n))
    } else {
        let mut text = decimal(n / 10);
        let ghost head = text@;
        text.append(digit_text(n % 10));
        assert(text@ =~= head.push(spec_digit((n % 10) as nat)));
        text
    }
}

/// Builds the status line of the record at `index`.
pub fn status_line(index: usize, record: &NamedPayload) -> (r: String)
    ensures
        r@ == spec_status_line(index as nat, record@),
{
    proof {
        reveal_strlit("Block ");
        reveal_strlit(": ");
        reveal_strlit(" size ");
    }
    let mut line = String::from_str("Block ");
    assert(line@ =~= seq!['B', 'l', 'o', 'c', 'k', ' ']);
    line.append(decimal(index).as_str());
    line.append(": ");
    assert(": "@ =~= seq![':', ' ']);
    line.append(record.file_name.as_str());
    line.append(" size ");
    assert(" size "@ =~= seq![' ', 's', 'i', 'z', 'e', ' ']);
    line.append(decimal(record.payload.len()).as_str());
    line
}

} // verus!
