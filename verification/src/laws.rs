//! The laws the storage protocol obeys across operations: what a lookup
//! returns after an insert and what keeps it unchanged, and that the
//! click log only ever grows. Each is stated over the abstract operation
//! set, so it covers every order in which the actor can drain its queue.

use vstd::prelude::*;

use crate::actor::{apply_op, OperationV};
use crate::guard::valid_string;
use crate::store::{
    after_check_token, find_token, find_url, lemma_filter_push, lemma_find_url_push,
    lemma_map_values_push, logs_for, lookup_url, token_valid, with_redirect, DbView, LogV,
    RedirectV, TokenV,
};

verus! {

/// An operation that can change what `code` looks up to: an insert, a
/// removal or a URL update carrying exactly that code. (A comment update
/// touches the row but never the URL a lookup reports.)
pub open spec fn writes_code(op: OperationV, code: Seq<char>) -> bool {
    match op {
        OperationV::InsertRedirect { url: _, code: c } => c == code,
        OperationV::RemoveRedirect { code: c } => c == code,
        OperationV::UpdateRedirectUrl { code: c, url: _ } => c == code,
        _ => false,
    }
}

/// Filtering rows cannot change a lookup whose matching rows all survive
/// the filter.
proof fn lemma_find_url_filter(rs: Seq<RedirectV>, pred: spec_fn(RedirectV) -> bool, code: Seq<
    char,
>)
    requires
        forall|r: RedirectV| r.code == code ==> #[trigger] pred(r),
    ensures
        find_url(rs.filter(pred), code) == find_url(rs, code),
    decreases rs.len(),
{
    if rs.len() == 0 {
        rs.lemma_filter_len(pred);
        assert(rs.filter(pred) =~= Seq::<RedirectV>::empty());
    } else {
        let l = rs.last();
        let dl = rs.drop_last();
        assert(dl.push(l) =~= rs);
        lemma_filter_push(dl, l, pred);
        lemma_find_url_filter(dl, pred, code);
        if pred(l) {
            lemma_find_url_push(dl.filter(pred), l, code);
        }
    }
}

/// Mapping rows cannot change a lookup when the map keeps every row's
/// code and keeps the URL of the rows the lookup matches.
proof fn lemma_find_url_map(rs: Seq<RedirectV>, f: spec_fn(RedirectV) -> RedirectV, code: Seq<
    char,
>)
    requires
        forall|r: RedirectV| (#[trigger] f(r)).code == r.code,
        forall|r: RedirectV| r.code == code ==> (#[trigger] f(r)).url == r.url,
    ensures
        find_url(rs.map_values(f), code) == find_url(rs, code),
    decreases rs.len(),
{
    if rs.len() == 0 {
        assert(rs.map_values(f) =~= Seq::<RedirectV>::empty());
    } else {
        let l = rs.last();
        let dl = rs.drop_last();
        assert(dl.push(l) =~= rs);
        lemma_map_values_push(dl, l, f);
        lemma_find_url_push(dl.map_values(f), f(l), code);
        lemma_find_url_map(dl, f, code);
    }
}

/// A freshly inserted mapping is what its code looks up to.
pub proof fn lemma_insert_then_lookup(v: DbView, url: Seq<char>, code: Seq<char>)
    requires
        valid_string(url),
        valid_string(code),
    ensures
        lookup_url(with_redirect(v, url, code), code) == Some(url),
{
    lemma_find_url_push(v.redirects, RedirectV { url: url, code: code, comment: None }, code);
}

/// A lookup stays what it was across any operation that does not write
/// its code: with the insert law above, a mapping once inserted keeps
/// being returned until a removal or URL update of that code.
pub proof fn lemma_lookup_preserved(
    v: DbView,
    op: OperationV,
    now: u64,
    ts: Seq<char>,
    code: Seq<char>,
)
    requires
        !writes_code(op, code),
    ensures
        lookup_url(apply_op(v, op, now, ts), code) == lookup_url(v, code),
{
    if valid_string(code) {
        match op {
            OperationV::InsertRedirect { url, code: c } => {
                if valid_string(url) && valid_string(c) {
                    lemma_find_url_push(
                        v.redirects,
                        RedirectV { url: url, code: c, comment: None },
                        code,
                    );
                }
            },
            OperationV::RemoveRedirect { code: c } => {
                if valid_string(c) {
                    lemma_find_url_filter(v.redirects, |r: RedirectV| r.code != c, code);
                }
            },
            OperationV::UpdateRedirectUrl { code: c, url } => {
                if valid_string(c) && valid_string(url) {
                    lemma_find_url_map(
                        v.redirects,
                        |r: RedirectV| if r.code == c { RedirectV { url: url, ..r } } else { r },
                        code,
                    );
                }
            },
            OperationV::UpdateComment { code: c, comment } => {
                if valid_string(c) && valid_string(comment) {
                    lemma_find_url_map(
                        v.redirects,
                        |r: RedirectV| if r.code == c {
                            RedirectV { comment: Some(comment), ..r }
                        } else {
                            r
                        },
                        code,
                    );
                }
            },
            _ => {},
        }
    }
}

/// The click log is append-only: whatever the operation, the rows on file
/// stay on file, in place and unchanged, and the rows reported for any
/// code stay a prefix of what is reported afterwards. No operation of the
/// protocol mutates or drops a log row.
pub proof fn lemma_logs_append_only(
    v: DbView,
    op: OperationV,
    now: u64,
    ts: Seq<char>,
    code: Seq<char>,
)
    ensures
        v.logs.is_prefix_of(apply_op(v, op, now, ts).logs),
        logs_for(v.logs, code).is_prefix_of(logs_for(apply_op(v, op, now, ts).logs, code)),
{
    let post = apply_op(v, op, now, ts).logs;
    assert(v.logs.is_prefix_of(post)) by {
        match op {
            OperationV::InsertLog { code: c, url, ip } => {
                if valid_string(c) && valid_string(url) && valid_string(ip) {
                    assert(post.subrange(0, v.logs.len() as int) =~= v.logs);
                } else {
                    assert(v.logs.subrange(0, v.logs.len() as int) =~= v.logs);
                }
            },
            _ => {
                assert(v.logs.subrange(0, v.logs.len() as int) =~= v.logs);
            },
        }
    }
    v.logs.lemma_filter_monotone(post, |l: LogV| l.code == code);
}

/// Every element of a filtered sequence came from the sequence.
proof fn lemma_filter_elements<A>(s: Seq<A>, pred: spec_fn(A) -> bool)
    ensures
        forall|i: int|
            0 <= i < s.filter(pred).len() ==> s.contains(#[trigger] s.filter(pred)[i]),
    decreases s.len(),
{
    if s.len() == 0 {
        s.lemma_filter_len(pred);
    } else {
        let l = s.last();
        let dl = s.drop_last();
        assert(dl.push(l) =~= s);
        lemma_filter_push(dl, l, pred);
        lemma_filter_elements(dl, pred);
        assert(forall|j: int| 0 <= j < dl.len() ==> dl[j] == s[j]);
        assert(s.contains(l)) by {
            assert(s[s.len() - 1] == l);
        }
        assert forall|i: int|
            0 <= i < s.filter(pred).len() implies s.contains(#[trigger] s.filter(pred)[i]) by {
            if i < dl.filter(pred).len() {
                assert(dl.filter(pred)[i] == s.filter(pred)[i]);
                let w = choose|w: int| 0 <= w < dl.len() && dl[w] == dl.filter(pred)[i];
                assert(s[w] == dl.filter(pred)[i]);
            }
        }
    }
}

/// The expiry a lookup reports belongs to a row on file.
proof fn lemma_find_token_contains(ts: Seq<TokenV>, token: Seq<char>)
    ensures
        find_token(ts, token) matches Some(e) ==> ts.contains(TokenV { token: token, expires: e }),
    decreases ts.len(),
{
    if ts.len() == 0 {
    } else if ts[0].token == token {
        assert(ts[0] == TokenV { token: token, expires: ts[0].expires });
    } else {
        lemma_find_token_contains(ts.skip(1), token);
        if find_token(ts, token) is Some {
            let e = find_token(ts, token).unwrap();
            let w = choose|w: int|
                0 <= w < ts.skip(1).len() && ts.skip(1)[w] == TokenV { token: token, expires: e };
            assert(ts[w + 1] == TokenV { token: token, expires: e });
        }
    }
}

/// A valid check leaves the checked token's row on file: its expiry lies
/// strictly in the future, so the purge of expired rows passes it by.
pub proof fn lemma_valid_check_keeps_row(v: DbView, token: Seq<char>, now: u64)
    requires
        token_valid(v, token, now),
    ensures
        after_check_token(v, token, now).tokens.contains(
            TokenV { token: token, expires: find_token(v.tokens, token).unwrap() },
        ),
{
    let e = find_token(v.tokens, token).unwrap();
    let row = TokenV { token: token, expires: e };
    lemma_find_token_contains(v.tokens, token);
    let w = choose|w: int| 0 <= w < v.tokens.len() && v.tokens[w] == row;
    v.tokens.lemma_filter_contains(|t: TokenV| t.expires >= now, w);
}

/// A token row's expiry, once persisted, is never extended: after any
/// operation, every token row on file either was already there, with the
/// expiry it had, or is the one fresh row an `InsertToken` appended.
pub proof fn lemma_expiry_never_extended(v: DbView, op: OperationV, now: u64, ts: Seq<char>)
    ensures
        forall|i: int|
            0 <= i < apply_op(v, op, now, ts).tokens.len() ==> v.tokens.contains(
                #[trigger] apply_op(v, op, now, ts).tokens[i],
            ) || (op matches OperationV::InsertToken { token } && apply_op(
                v,
                op,
                now,
                ts,
            ).tokens[i] == TokenV { token: token, expires: (now + 3600) as u64 }),
{
    let post = apply_op(v, op, now, ts).tokens;
    match op {
        OperationV::InsertToken { token } => {
            assert forall|i: int| 0 <= i < post.len() implies v.tokens.contains(
                #[trigger] post[i],
            ) || post[i] == (TokenV { token: token, expires: (now + 3600) as u64 }) by {
                if valid_string(token) && i < v.tokens.len() {
                    assert(post[i] == v.tokens[i]);
                }
            }
        },
        OperationV::CheckToken { token } => {
            lemma_filter_elements(v.tokens, |t: TokenV| t.expires >= now);
            lemma_filter_elements(v.tokens, |t: TokenV| t.token != token);
        },
        _ => {
            assert forall|i: int| 0 <= i < post.len() implies v.tokens.contains(
                #[trigger] post[i],
            ) by {
                assert(post[i] == v.tokens[i]);
            }
        },
    }
}

} // verus!
