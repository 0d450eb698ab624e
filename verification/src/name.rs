//! Detector names, checked against the container runtime's naming rules.

use vstd::prelude::*;
use vstd::string::{StrSliceExecFns, StringExecFns};

verus! {

/// The error returned when a detector name breaks the naming rules.
#[derive(Debug, Clone, Copy, PartialEq, Eq, Structural)]
pub struct InvalidName;

/// Holds exactly when `c` may appear in a detector name: ASCII letters and
/// digits, `-`, `_`, `.` and `/`.
pub open spec fn allowed_char(c: char) -> bool {
    (97 <= c as u32 && c as u32 <= 122)  // 'a' ..= 'z'
    || (65 <= c as u32 && c as u32 <= 90)  // 'A' ..= 'Z'
    || (48 <= c as u32 && c as u32 <= 57)  // '0' ..= '9'
    || c as u32 == 45  // '-'
    || c as u32 == 95  // '_'
    || c as u32 == 46  // '.'
    || c as u32 == 47  // '/'
}

/// Holds exactly when `s` is a well-formed detector name: one to 128
/// characters, all of them from the allowed set.
pub open spec fn valid_name(s: Seq<char>) -> bool {
    1 <= s.len() <= 128 && forall|i: int| 0 <= i < s.len() ==> allowed_char(s[i])
}

/// The name of a detector, validated at construction; it doubles as the
/// container name and as the display key of the detector.
#[derive(Debug, PartialEq, Eq)]
pub struct Name {
    text: String,
}

impl View for Name {
    type V = Seq<char>;

    closed spec fn view(&self) -> Seq<char> {
        self.text@
    }
}

impl Name {
    /// Validates `text` as a detector name; accepted names are kept verbatim,
    /// anything else is rejected.
    pub fn try_from(text: &str) -> (r: Result<Name, InvalidName>)
        ensures
            r matches Ok(n) ==> n@ == text@,
            r is Ok <==> valid_name(text@),
    {
        let len = text.unicode_len();
        if len < 1 || len > 128 {
            return Err(InvalidName);
        }
        let mut i: usize = 0;
        while i < len
            invariant
                i <= len,
                len == text@.len(),
                1 <= len <= 128,
                forall|j: int| 0 <= j < i ==> allowed_char(text@[j]),
            decreases len - i,
        {
            let c = text.get_char(i);
            let u = c as u32;
            let ok = (97 <= u && u <= 122) || (65 <= u && u <= 90) || (48 <= u && u <= 57)
                || u == 45 || u == 95 || u == 46 || u == 47;
            if !ok {
                return Err(InvalidName);
            }
            i += 1;
        }
        Ok(Name { text: text.to_owned() })
    }

    /// The name as a borrowed string.
    pub fn as_ref(&self) -> (r: &str)
        ensures
            r@ == self@,
    {
        self.text.as_str()
    }

    /// The name as an owned string.
    pub fn to_string(&self) -> (r: String)
        ensures
            r@ == self@,
    {
        self.text.clone()
    }
}

impl Clone for Name {
    fn clone(&self) -> (r: Self)
        ensures
            r == *self,
    {
        Name { text: self.text.clone() }
    }
}

} // verus!
