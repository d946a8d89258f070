//! Token session management: an admin login issues a fresh bearer token
//! with a one-hour expiry; every authenticated call afterwards validates
//! its token through `Database::check_token`, which also performs the
//! lazy purge of expired rows.

use vstd::prelude::*;
use vstd::string::*;

use crate::codegen::generate_token;
use crate::guard::valid_string;
use crate::store::{after_check_token, opt_str_view, token_valid, with_token, Database};

verus! {

/// The position of the first occurrence of `c` in `s`, or `s.len()` when
/// `s` holds no `c`.
pub open spec fn first_index_of(s: Seq<char>, c: char) -> int
    decreases s.len(),
{
    if s.len() == 0 {
        0
    } else if s[0] == c {
        0
    } else {
        1 + first_index_of(s.skip(1), c)
    }
}

pub proof fn lemma_first_index_of(s: Seq<char>, c: char)
    ensures
        0 <= first_index_of(s, c) <= s.len(),
        forall|j: int| 0 <= j < first_index_of(s, c) ==> s[j] != c,
        first_index_of(s, c) < s.len() ==> s[first_index_of(s, c)] == c,
    decreases s.len(),
{
    if s.len() == 0 {
    } else if s[0] == c {
    } else {
        lemma_first_index_of(s.skip(1), c);
        assert forall|j: int| 0 <= j < first_index_of(s, c) implies s[j] != c by {
            if j >= 1 {
                assert(s.skip(1)[j - 1] == s[j]);
            }
        }
    }
}

/// `s` without its leading and trailing spaces.
pub open spec fn trim_spaces(s: Seq<char>) -> Seq<char>
    decreases s.len(),
{
    if s.len() > 0 && s[0] == ' ' {
        trim_spaces(s.skip(1))
    } else if s.len() > 0 && s.last() == ' ' {
        trim_spaces(s.drop_last())
    } else {
        s
    }
}

/// Whether a cookie segment names the session token: it begins, without
/// any leading padding, with the cookie name and its equals sign.
pub open spec fn names_token(seg: Seq<char>) -> bool {
    seg.len() >= "X-Token="@.len() && seg.take("X-Token="@.len() as int) == "X-Token="@
}

/// The token carried by a cookie header: the header is read as segments
/// separated by semicolons; the first segment that begins with
/// `X-Token=` yields what follows, cut at the next equals sign and
/// stripped of surrounding spaces. A header without such a segment
/// yields nothing.
pub open spec fn token_in_cookies(s: Seq<char>) -> Option<Seq<char>>
    decreases s.len(),
    via token_in_cookies_decreases
{
    let cut = first_index_of(s, ';');
    let seg = s.take(cut);
    if names_token(seg) {
        let raw = seg.skip("X-Token="@.len() as int);
        Some(trim_spaces(raw.take(first_index_of(raw, '='))))
    } else if cut < s.len() {
        token_in_cookies(s.skip(cut + 1))
    } else {
        None
    }
}

#[via_fn]
proof fn token_in_cookies_decreases(s: Seq<char>) {
    lemma_first_index_of(s, ';');
}

/// The position of the first `c` in `s`, or its length when `s` holds
/// none.
fn find_char(s: &str, c: char) -> (i: usize)
    ensures
        i as int == first_index_of(s@, c),
        i <= s@.len(),
{
    let n = s.unicode_len();
    let mut i: usize = 0;
    while i < n
        invariant
            i <= n,
            n == s@.len(),
            forall|j: int| 0 <= j < i ==> s@[j] != c,
        decreases n - i,
    {
        if s.get_char(i) == c {
            proof {
                lemma_first_index_of(s@, c);
                if first_index_of(s@, c) < i as int {
                    assert(s@[first_index_of(s@, c)] != c);
                } else if first_index_of(s@, c) > i as int {
                    assert(s@[i as int] != c);
                }
            }
            return i;
        }
        i += 1;
    }
    proof {
        lemma_first_index_of(s@, c);
        if first_index_of(s@, c) < n as int {
            assert(s@[first_index_of(s@, c)] != c);
        }
    }
    n
}

/// Whether the segment begins with `X-Token=`.
fn segment_names_token(seg: &str) -> (r: bool)
    ensures
        r == names_token(seg@),
{
    let name = "X-Token=";
    let plen = name.unicode_len();
    let slen = seg.unicode_len();
    if slen < plen {
        return false;
    }
    let mut k: usize = 0;
    while k < plen
        invariant
            k <= plen,
            name@ == "X-Token="@,
            plen == name@.len(),
            slen == seg@.len(),
            plen <= slen,
            forall|j: int| 0 <= j < k ==> seg@[j] == name@[j],
        decreases plen - k,
    {
        if !(seg.get_char(k) == name.get_char(k)) {
            proof {
                assert(seg@.take(plen as int)[k as int] != name@[k as int]);
                assert(seg@.take(plen as int) != name@);
            }
            return false;
        }
        k += 1;
    }
    proof {
        assert(seg@.take(plen as int) =~= name@);
    }
    true
}

/// A copy of `s` with its surrounding spaces removed.
fn trim_spaces_exec(s: &str) -> (r: String)
    ensures
        r@ == trim_spaces(s@),
{
    let n = s.unicode_len();
    proof {
        assert(s@.subrange(0, n as int) =~= s@);
    }
    let mut lo: usize = 0;
    let mut hi: usize = n;
    while lo < hi && s.get_char(lo) == ' '
        invariant
            lo <= hi <= n,
            n == s@.len(),
            trim_spaces(s@) == trim_spaces(s@.subrange(lo as int, hi as int)),
        decreases hi - lo,
    {
        proof {
            assert(s@.subrange(lo as int, hi as int).skip(1) =~= s@.subrange(lo + 1, hi as int));
        }
        lo += 1;
    }
    while lo < hi && s.get_char(hi - 1) == ' '
        invariant
            lo <= hi <= n,
            n == s@.len(),
            trim_spaces(s@) == trim_spaces(s@.subrange(lo as int, hi as int)),
            lo < hi ==> s@[lo as int] != ' ',
        decreases hi - lo,
    {
        proof {
            assert(s@.subrange(lo as int, hi as int).drop_last() =~= s@.subrange(
                lo as int,
                hi - 1,
            ));
        }
        hi -= 1;
    }
    proof {
        assert(trim_spaces(s@.subrange(lo as int, hi as int)) == s@.subrange(
            lo as int,
            hi as int,
        ));
    }
    let out = s.substring_char(lo, hi);
    out.to_owned()
}

/// The session token of a request's cookie header, if one is named.
pub fn get_token(cookies: &str) -> (r: Option<String>)
    ensures
        opt_str_view(r) == token_in_cookies(cookies@),
    decreases cookies@.len(),
{
    proof {
        lemma_first_index_of(cookies@, ';');
    }
    let n = cookies.unicode_len();
    let cut = find_char(cookies, ';');
    let seg = cookies.substring_char(0, cut);
    proof {
        assert(seg@ =~= cookies@.take(cut as int));
    }
    if segment_names_token(seg) {
        let plen = "X-Token=".unicode_len();
        let slen = seg.unicode_len();
        let raw = seg.substring_char(plen, slen);
        proof {
            assert(raw@ =~= cookies@.take(cut as int).skip("X-Token="@.len() as int));
            lemma_first_index_of(raw@, '=');
        }
        let eq_cut = find_char(raw, '=');
        let val = raw.substring_char(0, eq_cut);
        proof {
            assert(val@ =~= raw@.take(first_index_of(raw@, '=')));
        }
        Some(trim_spaces_exec(val))
    } else if cut < n {
        let rest = cookies.substring_char(cut + 1, n);
        proof {
            assert(rest@ =~= cookies@.skip(cut + 1));
        }
        get_token(rest)
    } else {
        None
    }
}

/// Authenticate one admin request from its cookie header: the token the
/// header names is validated through `CheckToken`, with its lazy purge of
/// expired rows; a header naming none fails without touching the store.
pub fn check_login(db: &mut Database, cookies: &str, now: u64) -> (r: bool)
    requires
        old(db).wf(),
    ensures
        final(db).wf(),
        (match token_in_cookies(cookies@) {
            Some(t) => r == token_valid(old(db)@, t, now) && final(db)@ == after_check_token(
                old(db)@,
                t,
                now,
            ),
            None => r == false && final(db)@ == old(db)@,
        }),
{
    match get_token(cookies) {
        Some(token) => db.check_token(token, now),
        None => false,
    }
}

/// Admin login: the supplied credentials are compared with the configured
/// ones by plain exact equality (no constant-time comparison is made);
/// on a match a fresh random token is persisted with its expiry one hour
/// past `now` and handed back, otherwise nothing changes.
pub fn login(db: &mut Database, username: String, password: String, now: u64) -> (r: Option<
    String,
>)
    requires
        old(db).wf(),
        now <= u64::MAX - 3600,
    ensures
        final(db).wf(),
        r is Some <==> (username@ == old(db)@.username && password@ == old(db)@.password),
        (match r {
            Some(token) => {
                &&& token@.len() == 32
                &&& valid_string(token@)
                &&& final(db)@ == with_token(old(db)@, token@, now)
            },
            None => final(db)@ == old(db)@,
        }),
{
    if db.check_credentials(&username, &password) {
        let token = generate_token();
        let inserted = db.insert_token(token.clone(), now);
        assert(inserted);
        Some(token)
    } else {
        None
    }
}

} // verus!
