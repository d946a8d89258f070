//! Short-code and token generation: random bytes from the system source,
//! hex-encoded into fixed-length identifiers. A short code is the hex of
//! two random bytes (four characters); a session token is the hex of
//! sixteen random bytes (thirty-two characters). Every generated string
//! is made of hex digits only, so it always passes the injection guard.

use vstd::prelude::*;

use crate::guard::{allowed_char, valid_string};

verus! {

/// The upper-case hexadecimal digit of a value below sixteen.
pub open spec fn hex_digit_char(n: int) -> char
    recommends
        0 <= n < 16,
{
    if n == 0 {
        '0'
    } else if n == 1 {
        '1'
    } else if n == 2 {
        '2'
    } else if n == 3 {
        '3'
    } else if n == 4 {
        '4'
    } else if n == 5 {
        '5'
    } else if n == 6 {
        '6'
    } else if n == 7 {
        '7'
    } else if n == 8 {
        '8'
    } else if n == 9 {
        '9'
    } else if n == 10 {
        'A'
    } else if n == 11 {
        'B'
    } else if n == 12 {
        'C'
    } else if n == 13 {
        'D'
    } else if n == 14 {
        'E'
    } else {
        'F'
    }
}

/// The hex encoding of a byte sequence: two digits per byte, high nibble
/// first.
pub open spec fn hex_of(bytes: Seq<u8>) -> Seq<char> {
    Seq::new(
        2 * bytes.len(),
        |i: int| if i % 2 == 0 {
            hex_digit_char(bytes[i / 2] as int / 16)
        } else {
            hex_digit_char(bytes[i / 2] as int % 16)
        },
    )
}

/// Every hex digit is on the guard's whitelist.
pub proof fn lemma_hex_digit_allowed(n: int)
    requires
        0 <= n < 16,
    ensures
        allowed_char(hex_digit_char(n)),
{
}

/// A hex encoding passes the injection guard as a whole.
pub proof fn lemma_hex_of_valid(bytes: Seq<u8>)
    ensures
        valid_string(hex_of(bytes)),
{
    assert forall|i: int| 0 <= i < hex_of(bytes).len() implies allowed_char(
        #[trigger] hex_of(bytes)[i],
    ) by {
        if i % 2 == 0 {
            lemma_hex_digit_allowed(bytes[i / 2] as int / 16);
        } else {
            lemma_hex_digit_allowed(bytes[i / 2] as int % 16);
        }
    }
}

fn hex_digit(n: u8) -> (c: char)
    requires
        n < 16,
    ensures
        c == hex_digit_char(n as int),
{
    match n {
        0 => '0',
        1 => '1',
        2 => '2',
        3 => '3',
        4 => '4',
        5 => '5',
        6 => '6',
        7 => '7',
        8 => '8',
        9 => '9',
        10 => 'A',
        11 => 'B',
        12 => 'C',
        13 => 'D',
        14 => 'E',
        _ => 'F',
    }
}

/// Relies on `String::push`: the call appends exactly the one character
/// to the end of the string.
#[verifier::external_body]
fn push_char(s: &mut String, c: char)
    ensures
        final(s)@ == old(s)@.push(c),
{
    s.push(c);
}

/// Relies on `getrandom::getrandom`: the call fills the buffer from the
/// system's random source, never resizing it. Nothing is promised of the
/// values — they are random, and on a failure of the source (whose error
/// is deliberately ignored, leaving the bytes unspecified) they are
/// whatever the call left behind.
#[verifier::external_body]
fn fill_random(buf: &mut Vec<u8>)
    ensures
        final(buf)@.len() == old(buf)@.len(),
{
    let _ = getrandom::getrandom(buf.as_mut_slice());
}

/// The hex encoding of a byte buffer, two upper-case digits per byte.
pub fn encode_hex(bytes: &Vec<u8>) -> (r: String)
    ensures
        r@ == hex_of(bytes@),
        r@.len() == 2 * bytes@.len(),
        valid_string(r@),
{
    let n = bytes.len();
    let mut s = String::new();
    let mut i: usize = 0;
    while i < n
        invariant
            i <= n,
            n == bytes@.len(),
            s@ == hex_of(bytes@.take(i as int)),
        decreases n - i,
    {
        let b = bytes[i];
        let hi = b / 16;
        let lo = b % 16;
        push_char(&mut s, hex_digit(hi));
        push_char(&mut s, hex_digit(lo));
        proof {
            assert(s@ =~= hex_of(bytes@.take(i + 1)));
        }
        i += 1;
    }
    proof {
        assert(bytes@.take(n as int) =~= bytes@);
        lemma_hex_of_valid(bytes@);
    }
    s
}

/// A fresh short code: the hex of two random bytes, four characters. No
/// collision check is made here; the caller that inserts the code is the
/// place where a bounded retry can guard against an unlucky draw.
pub fn generate_code() -> (r: String)
    ensures
        r@.len() == 4,
        valid_string(r@),
{
    let mut buf: Vec<u8> = vec![0u8, 0u8];
    fill_random(&mut buf);
    encode_hex(&buf)
}

/// A fresh session token: the hex of sixteen random bytes, thirty-two
/// characters.
pub fn generate_token() -> (r: String)
    ensures
        r@.len() == 32,
        valid_string(r@),
{
    let mut buf: Vec<u8> = vec![0u8; 16];
    fill_random(&mut buf);
    encode_hex(&buf)
}

} // verus!
