//! Conversion of response bytes into owned text, and rendering of numbers
//! as decimal text.

use vstd::prelude::*;
use vstd::string::StringExecFns;

verus! {

/// The characters that a valid UTF-8 byte sequence decodes to.
pub uninterp spec fn utf8_chars(bytes: Seq<u8>) -> Seq<char>;

/// Holds exactly when the bytes are valid UTF-8: a property of the bytes
/// alone, the same in every process and on every machine.
pub uninterp spec fn utf8_valid(bytes: Seq<u8>) -> bool;

/// Relies on `String::from_utf8`: returns the string holding exactly the
/// given bytes when and only when they are valid UTF-8. ASCII bytes are
/// valid UTF-8 and decode to themselves.
#[verifier::external_body]
pub fn utf8_string(v: &Vec<u8>) -> (r: Option<String>)
    ensures
        r is Some <==> utf8_valid(v@),
        r matches Some(s) ==> s@ == utf8_chars(v@) && ((forall|i: int|
            0 <= i < v@.len() ==> v@[i] < 128) ==> s@ == v@.map(|_k: int, b: u8| b as char)),
        r is None ==> !(forall|i: int| 0 <= i < v@.len() ==> v@[i] < 128),
{
    String::from_utf8(v.clone()).ok()
}

/// The decimal digits of `n` as characters, most significant first.
pub open spec fn spec_u64_chars(n: nat) -> Seq<char>
    decreases n,
{
    if n < 10 {
        seq![digit_char(n)]
    } else {
        spec_u64_chars(n / 10).push(digit_char(n % 10))
    }
}

/// The character of a single decimal digit.
pub open spec fn digit_char(n: nat) -> char {
    if n == 0 {
        '0'
    } else if n == 1 {
        '1'
    } else if n == 2 {
        '2'
    } else if n == 3 {
        '3'
    } else if n == 4 {
        '4'
    } else if n == 5 {
        '5'
    } else if n == 6 {
        '6'
    } else if n == 7 {
        '7'
    } else if n == 8 {
        '8'
    } else {
        '9'
    }
}

/// Renders a number as decimal text.
pub fn u64_string(n: u64) -> (r: String)
    ensures
        r@ == spec_u64_chars(n as nat),
    decreases n,
{
    let digit: &str = match n % 10 {
        0 => "0",
        1 => "1",
        2 => "2",
        3 => "3",
        4 => "4",
        5 => "5",
        6 => "6",
        7 => "7",
        8 => "8",
        _ => "9",
    };
    proof {
        reveal_strlit("0");
        reveal_strlit("1");
        reveal_strlit("2");
        reveal_strlit("3");
        reveal_strlit("4");
        reveal_strlit("5");
        reveal_strlit("6");
        reveal_strlit("7");
        reveal_strlit("8");
        reveal_strlit("9");
    }
    if n < 10 {
        digit.to_owned()
    } else {
        let mut t = u64_string(n / 10);
        t.append(digit);
        t
    }
}

} // verus!
