//! Replies of the server: `OK` on success, values and numbers as plain text,
//! and errors as `ERROR "<CODE>"`.

use vstd::prelude::*;

use crate::error::Error;
use crate::text::{chars_of, push_all, push_char};

verus! {

/// The reply for a successful write: `OK`.
pub open spec fn spec_ok() -> Seq<char> {
    seq!['O', 'K']
}

/// The reply for an error: `ERROR "` , the error's code, and a closing quote.
pub open spec fn spec_error(e: Error) -> Seq<char> {
    seq!['E', 'R', 'R', 'O', 'R', ' ', '"'] + e.spec_code() + seq!['"']
}

/// The decimal digit of a number below ten.
pub open spec fn digit(d: nat) -> char {
    ((d + 48) as u32) as char
}

/// The decimal notation of a number, without leading zeros.
pub open spec fn decimal(n: nat) -> Seq<char>
    decreases n,
{
    if n < 10 {
        seq![digit(n)]
    } else {
        decimal(n / 10).push(digit(n % 10))
    }
}

/// The reply for a successful write.
pub fn ok() -> (r: String)
    ensures
        r@ == spec_ok(),
{
    let mut r = String::new();
    push_char(&mut r, 'O');
    push_char(&mut r, 'K');
    assert(r@ =~= spec_ok());
    r
}

/// The reply for a value read: the value itself.
pub fn value(text: &str) -> (r: String)
    ensures
        r@ == text@,
{
    String::from_str(text)
}

/// The reply for an error.
pub fn error(e: Error) -> (r: String)
    ensures
        r@ == spec_error(e),
{
    let mut r = String::new();
    push_char(&mut r, 'E');
    push_char(&mut r, 'R');
    push_char(&mut r, 'R');
    push_char(&mut r, 'O');
    push_char(&mut r, 'R');
    push_char(&mut r, ' ');
    push_char(&mut r, '"');
    let code = chars_of(e.code());
    push_all(&mut r, &code);
    push_char(&mut r, '"');
    assert(r@ =~= spec_error(e));
    r
}

/// The reply for a count: its decimal notation.
pub fn number(n: usize) -> (r: String)
    ensures
        r@ == decimal(n as nat),
{
    let mut r = String::new();
    push_decimal(&mut r, n);
    assert(r@ =~= decimal(n as nat));
    r
}

/// Appends the decimal notation of `n`.
fn push_decimal(s: &mut String, n: usize)
    ensures
        final(s)@ == old(s)@ + decimal(n as nat),
    decreases n,
{
    if n >= 10 {
        push_decimal(s, n / 10);
    }
    let d = (n % 10) as u8;
    let c = (d + 48) as char;
    assert(c == digit((n % 10) as nat));
    push_char(s, c);
    assert(final(s)@ =~= old(s)@ + decimal(n as nat)) by {
        if n >= 10 {
            assert(decimal(n as nat) == decimal((n / 10) as nat).push(digit((n % 10) as nat)));
        }
    }
}

} // verus!
