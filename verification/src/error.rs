//! Errors of the header tool, and the text that describes each of them.

use vstd::prelude::*;
use vstd::string::StringExecFns;

verus! {

/// What can go wrong while a boot header is built or repaired.
#[derive(Clone, Copy, Debug, PartialEq, Eq)]
pub enum Error {
    /// A header buffer is too short: the length found, then the length needed.
    InvalidHeaderLen((usize, usize)),
    /// A loader image is empty or too long: the length found, then the limit.
    InvalidSplLen((usize, usize)),
    /// A slice did not have the fixed width that a field needs.
    InvalidSlice,
    /// The file that holds the header could not be used.
    InvalidHeaderFile,
    /// The file that holds the loader image could not be used.
    InvalidSplFile,
}

/// The character for a single decimal digit.
pub open spec fn digit_char(d: nat) -> char {
    if d == 0 {
        '0'
    } else if d == 1 {
        '1'
    } else if d == 2 {
        '2'
    } else if d == 3 {
        '3'
    } else if d == 4 {
        '4'
    } else if d == 5 {
        '5'
    } else if d == 6 {
        '6'
    } else if d == 7 {
        '7'
    } else if d == 8 {
        '8'
    } else {
        '9'
    }
}

/// The decimal numeral of `n`, without leading zeros.
pub open spec fn decimal(n: nat) -> Seq<char>
    decreases n,
{
    if n < 10 {
        seq![digit_char(n)]
    } else {
        decimal(n / 10).push(digit_char(n % 10))
    }
}

/// The text that describes `e`.
pub open spec fn message_spec(e: Error) -> Seq<char> {
    match e {
        Error::InvalidHeaderLen((found, expected)) => "invalid header len: "@ + decimal(
            found as nat,
        ) + ", expected: "@ + decimal(expected as nat),
        Error::InvalidSplLen((found, max)) => "invalid SPL len: "@ + decimal(found as nat)
            + ", max: "@ + decimal(max as nat),
        Error::InvalidSlice => "invalid slice to array conversion"@,
        Error::InvalidHeaderFile => "invalid SPL header file, ensure the path is valid"@,
        Error::InvalidSplFile => "invalid SPL file, ensure the path is valid"@,
    }
}

/// The one-character text of the digit `d`.
fn digit_text(d: usize) -> (s: &'static str)
    requires
        d < 10,
    ensures
        s@ == seq![digit_char(d as nat)],
{
    proof {
        reveal_strlit("0");
        reveal_strlit("1");
        reveal_strlit("2");
        reveal_strlit("3");
        reveal_strlit("4");
        reveal_strlit("5");
        reveal_strlit("6");
        reveal_strlit("7");
        reveal_strlit("8");
        reveal_strlit("9");
    }
    let s = if d == 0 {
        "0"
    } else if d == 1 {
        "1"
    } else if d == 2 {
        "2"
    } else if d == 3 {
        "3"
    } else if d == 4 {
        "4"
    } else if d == 5 {
        "5"
    } else if d == 6 {
        "6"
    } else if d == 7 {
        "7"
    } else if d == 8 {
        "8"
    } else {
        "9"
    };
    assert(s@ =~= seq![digit_char(d as nat)]);
    s
}

/// Appends the decimal numeral of `n` to `out`.
fn push_decimal(out: &mut String, n: usize)
    ensures
        final(out)@ == old(out)@ + decimal(n as nat),
    decreases n,
{
    if n >= 10 {
        push_decimal(out, n / 10);
    }
    out.append(digit_text(n % 10));
    assert(out@ =~= old(out)@ + decimal(n as nat));
}

impl Error {
    /// The text that describes this error.
    pub fn message(&self) -> (text: String)
        ensures
            text@ == message_spec(*self),
    {
        let mut text = String::new();
        match *self {
            Error::InvalidHeaderLen((found, expected)) => {
                text.append("invalid header len: ");
                push_decimal(&mut text, found);
                text.append(", expected: ");
                push_decimal(&mut text, expected);
            },
            Error::InvalidSplLen((found, max)) => {
                text.append("invalid SPL len: ");
                push_decimal(&mut text, found);
                text.append(", max: ");
                push_decimal(&mut text, max);
            },
            Error::InvalidSlice => {
                text.append("invalid slice to array conversion");
            },
            Error::InvalidHeaderFile => {
                text.append("invalid SPL header file, ensure the path is valid");
            },
            Error::InvalidSplFile => {
                text.append("invalid SPL file, ensure the path is valid");
            },
        }
        assert(text@ =~= message_spec(*self));
        text
    }
}

} // verus!
