//! The one request the allocator turns down.
use vstd::prelude::*;
use vstd::string::*;
use crate::constants::MAX_ZIDS_AT_ONCE;

verus! {

/// Why a request was refused.
#[derive(Clone, Copy, Debug, PartialEq, Eq)]
pub enum Error {
    /// More identifiers were asked for at once than one slot holds.
    TooManyZidsAtOnce { attempted: usize },
}

/// The character for a decimal digit.
pub open spec fn spec_digit(digit: nat) -> char {
    if digit == 0 {
        '0'
    } else if digit == 1 {
        '1'
    } else if digit == 2 {
        '2'
    } else if digit == 3 {
        '3'
    } else if digit == 4 {
        '4'
    } else if digit == 5 {
        '5'
    } else if digit == 6 {
        '6'
    } else if digit == 7 {
        '7'
    } else if digit == 8 {
        '8'
    } else {
        '9'
    }
}

/// A number written in decimal, without leading zeros.
pub open spec fn spec_decimal(n: nat) -> Seq<char>
    decreases n,
{
    if n < 10 {
        seq![spec_digit(n)]
    } else {
        spec_decimal(n / 10).push(spec_digit(n % 10))
    }
}

/// The text of the refusal of a batch of `attempted` identifiers.
pub open spec fn spec_too_many_text(attempted: usize) -> Seq<char> {
    "Up to "@ + spec_decimal(MAX_ZIDS_AT_ONCE as nat) + " ZIDs can be generated at once (attempted "@
        + spec_decimal(attempted as nat) + ")"@
}

fn digit_text(digit: usize) -> (text: &'static str)
    requires
        digit < 10,
    ensures
        text@ == seq![spec_digit(digit as nat)],
{
    proof {
        reveal_strlit("0");
        reveal_strlit("1");
        reveal_strlit("2");
        reveal_strlit("3");
        reveal_strlit("4");
        reveal_strlit("5");
        reveal_strlit("6");
        reveal_strlit("7");
        reveal_strlit("8");
        reveal_strlit("9");
    }
    let text: &'static str = match digit {
        0 => "0",
        1 => "1",
        2 => "2",
        3 => "3",
        4 => "4",
        5 => "5",
        6 => "6",
        7 => "7",
        8 => "8",
        _ => "9",
    };
    assert(text@ =~= seq![spec_digit(digit as nat)]);
    text
}

/// Appends `n` in decimal to `text`.
pub fn push_decimal(text: &mut String, n: usize)
    ensures
        final(text)@ == old(text)@ + spec_decimal(n as nat),
    decreases n,
{
    if n >= 10 {
        push_decimal(text, n / 10);
    }
    text.append(digit_text(n % 10));
    assert(text@ =~= old(text)@ + spec_decimal(n as nat));
}

impl Error {
    /// What [`Error::message`] says.
    pub open spec fn spec_message(&self) -> Seq<char> {
        match self {
            Error::TooManyZidsAtOnce { attempted } => spec_too_many_text(*attempted),
        }
    }

    /// The refusal in words, for whoever asked.
    pub fn message(&self) -> (text: String)
        ensures
            text@ == self.spec_message(),
    {
        match self {
            Error::TooManyZidsAtOnce { attempted } => {
                let mut text: String = String::from_str("Up to ");
                push_decimal(&mut text, MAX_ZIDS_AT_ONCE);
                text.append(" ZIDs can be generated at once (attempted ");
                push_decimal(&mut text, *attempted);
                text.append(")");
                text
            },
        }
    }
}

} // verus!
