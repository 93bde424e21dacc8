//! Error taxonomy shared by every foreign operation of the bridge.
//!
//! Foreign calls signal failure through a small status code; the bridge maps
//! status 1 to an I/O failure, status 2 to a parse failure, and any other
//! nonzero status to an unknown failure.  Wire-format violations detected by
//! the bridge itself are parse failures.

use vstd::prelude::*;
use vstd::string::StringExecFns;

verus! {

/// The character for one decimal digit.
pub open spec fn spec_digit(d: nat) -> char {
    if d == 0 {
        '0'
    } else if d == 1 {
        '1'
    } else if d == 2 {
        '2'
    } else if d == 3 {
        '3'
    } else if d == 4 {
        '4'
    } else if d == 5 {
        '5'
    } else if d == 6 {
        '6'
    } else if d == 7 {
        '7'
    } else if d == 8 {
        '8'
    } else {
        '9'
    }
}

/// The decimal digits of `n`, most significant first, with no leading zeros.
pub open spec fn spec_decimal(n: nat) -> Seq<char>
    decreases n,
{
    if n < 10 {
        seq![spec_digit(n)]
    } else {
        spec_decimal(n / 10).push(spec_digit(n % 10))
    }
}

/// The one-character string for a decimal digit.
fn digit_str(d: u8) -> (r: &'static str)
    requires
        d < 10,
    ensures
        r@ == seq![spec_digit(d as nat)],
{
    proof {
        reveal_strlit("0");
        reveal_strlit("1");
        reveal_strlit("2");
        reveal_strlit("3");
        reveal_strlit("4");
        reveal_strlit("5");
        reveal_strlit("6");
        reveal_strlit("7");
        reveal_strlit("8");
        reveal_strlit("9");
    }
    let r = match d {
        0 => "0",
        1 => "1",
        2 => "2",
        3 => "3",
        4 => "4",
        5 => "5",
        6 => "6",
        7 => "7",
        8 => "8",
        _ => "9",
    };
    proof {
        assert(r@ =~= seq![spec_digit(d as nat)]);
    }
    r
}

/// Appends the decimal digits of `n`, most significant first.
fn push_decimal(s: &mut String, n: u32)
    ensures
        final(s)@ == old(s)@ + spec_decimal(n as nat),
    decreases n,
{
    if n < 10 {
        s.append(digit_str(n as u8));
        assert(s@ =~= old(s)@ + spec_decimal(n as nat));
    } else {
        push_decimal(s, n / 10);
        s.append(digit_str((n % 10) as u8));
        assert(s@ =~= old(s)@ + spec_decimal(n as nat));
    }
}

/// The decimal text of a signed 32-bit value: a minus sign, where negative,
/// then the digits of the magnitude.
pub open spec fn spec_decimal_i32(v: int) -> Seq<char>
    recommends
        -0x8000_0000 <= v < 0x8000_0000,
{
    if v < 0 {
        seq!['-'] + spec_decimal((-v) as nat)
    } else {
        spec_decimal(v as nat)
    }
}

/// Appends the decimal text of a signed 32-bit value.
pub fn push_decimal_i32(s: &mut String, v: i32)
    ensures
        final(s)@ == old(s)@ + spec_decimal_i32(v as int),
{
    if v < 0 {
        proof {
            reveal_strlit("-");
        }
        s.append("-");
        assert(s@ =~= old(s)@ + seq!['-']);
        let magnitude = -(v as i64);
        push_decimal(s, magnitude as u32);
        assert(s@ =~= old(s)@ + spec_decimal_i32(v as int));
    } else {
        push_decimal(s, v as u32);
    }
}

/// The synthetic message substituted when a failing foreign operation
/// carries no message of its own: the prefix text followed by the status
/// code in decimal.
pub fn synthetic_message(prefix: &str, code: u8) -> (r: String)
    ensures
        r@ == prefix@ + spec_decimal(code as nat),
{
    let mut s = String::from_str(prefix);
    push_decimal(&mut s, code as u32);
    s
}

/// A typed failure surfaced to the immediate caller.  The bridge never
/// recovers an error locally and never returns a partial result.
#[derive(Debug, Clone)]
pub enum ExtractError {
    /// An underlying file or stream failure on the foreign side (status 1).
    IoError(String),
    /// A parse failure (status 2) or a wire-format violation found by the
    /// bridge itself.
    ParseError(String),
    /// Any other nonzero foreign status.
    Unknown(String),
}

pub type ExtractResult<T> = Result<T, ExtractError>;

impl ExtractError {
    /// The human-readable message carried by the error.
    pub fn message(&self) -> (r: &String)
        ensures
            r@ == self.spec_message(),
    {
        match self {
            ExtractError::IoError(m) => m,
            ExtractError::ParseError(m) => m,
            ExtractError::Unknown(m) => m,
        }
    }

    pub open spec fn spec_message(&self) -> Seq<char> {
        match self {
            ExtractError::IoError(m) => m@,
            ExtractError::ParseError(m) => m@,
            ExtractError::Unknown(m) => m@,
        }
    }
}

/// True when `e` is the error that the taxonomy assigns to a nonzero foreign
/// status: status 1 is an I/O failure, status 2 a parse failure, and every
/// other status unknown; the message is carried through unchanged.
pub open spec fn spec_status_error(status: u8, message: Seq<char>, e: ExtractError) -> bool {
    match e {
        ExtractError::IoError(m) => status == 1 && m@ == message,
        ExtractError::ParseError(m) => status == 2 && m@ == message,
        ExtractError::Unknown(m) => status != 1 && status != 2 && m@ == message,
    }
}

/// Maps a nonzero foreign status and its message to the typed error of the
/// taxonomy.  Status 0 never reaches this function: a zero status means
/// success and carries a payload instead of an error.
pub fn status_error(status: u8, message: String) -> (e: ExtractError)
    ensures
        spec_status_error(status, message@, e),
{
    match status {
        1 => ExtractError::IoError(message),
        2 => ExtractError::ParseError(message),
        _ => ExtractError::Unknown(message),
    }
}

} // verus!
