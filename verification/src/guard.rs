//! Injection guard: a whitelist filter applied to every untrusted string
//! before it may take part in query construction. Only ASCII letters and
//! digits plus period, colon, slash, hyphen and underscore are accepted;
//! any other character causes rejection.

use vstd::prelude::*;
use vstd::string::*;

verus! {

/// A character the guard accepts: one of `[A-Za-z0-9./:_-]`.
pub open spec fn allowed_char(c: char) -> bool {
    ||| 'a' as u32 <= c as u32 && c as u32 <= 'z' as u32
    ||| 'A' as u32 <= c as u32 && c as u32 <= 'Z' as u32
    ||| '0' as u32 <= c as u32 && c as u32 <= '9' as u32
    ||| c == '.'
    ||| c == ':'
    ||| c == '/'
    ||| c == '-'
    ||| c == '_'
}

/// A string every character of which the guard accepts.
pub open spec fn valid_string(s: Seq<char>) -> bool {
    forall|i: int| 0 <= i < s.len() ==> allowed_char(#[trigger] s[i])
}

/// Returns true exactly when `s` must be rejected: when some character of
/// `s` lies outside the whitelist. A string made solely of whitelisted
/// characters (the empty string included) passes.
pub fn check_string_injection(s: &str) -> (r: bool)
    ensures
        r == !valid_string(s@),
{
    let len: usize = s.unicode_len();
    let mut i: usize = 0;
    while i < len
        invariant
            i <= len,
            len == s@.len(),
            forall|j: int| 0 <= j < i ==> allowed_char(#[trigger] s@[j]),
        decreases len - i,
    {
        let c = s.get_char(i);
        let u = c as u32;
        let in_whitelist = (u >= 'a' as u32 && u <= 'z' as u32)
            || (u >= 'A' as u32 && u <= 'Z' as u32)
            || (u >= '0' as u32 && u <= '9' as u32)
            || c == '.'
            || c == ':'
            || c == '/'
            || c == '-'
            || c == '_';
        if !in_whitelist {
            return true;
        }
        i += 1;
    }
    false
}

} // verus!
