//! The redirect pipeline: resolving an inbound code to its destination
//! (recording the click), and creating a fresh mapping under a newly
//! generated code.

use vstd::prelude::*;

use crate::codegen::generate_code;
use crate::guard::{check_string_injection, valid_string};
use crate::store::{find_url, lookup_url, with_log, with_redirect, Database, RedirectV};

verus! {

/// How one resolution request ends: rejected by the guard, unknown to the
/// store, or redirected to the stored destination.
pub enum Resolution {
    BadRequest,
    NotFound,
    Redirected(String),
}

/// A URL found in a well-formed store passed the guard on its way in.
proof fn lemma_find_url_wf(rs: Seq<RedirectV>, code: Seq<char>)
    requires
        forall|i: int| 0 <= i < rs.len() ==> (#[trigger] rs[i]).wf(),
    ensures
        find_url(rs, code) matches Some(u) ==> valid_string(u),
    decreases rs.len(),
{
    if rs.len() == 0 {
    } else if rs.last().code == code {
        assert(rs[rs.len() - 1].wf());
    } else {
        assert(forall|i: int|
            0 <= i < rs.drop_last().len() ==> (#[trigger] rs.drop_last()[i]) == rs[i]);
        lemma_find_url_wf(rs.drop_last(), code);
    }
}

/// Resolve one inbound code: a guard-rejected code ends as `BadRequest`
/// and an unknown one as `NotFound`, in both cases with the store
/// untouched — in particular, no click-log row appears. A known code is
/// answered with its stored URL, and the click is recorded with the
/// attributed source address and the timestamp captured for this request;
/// a failure to record (an address that fails the guard) must not block
/// the redirect, so the answer is the same either way.
pub fn resolve(db: &mut Database, code: String, ip: String, timestamp: String) -> (r: Resolution)
    requires
        old(db).wf(),
    ensures
        final(db).wf(),
        !valid_string(code@) ==> r is BadRequest && final(db)@ == old(db)@,
        valid_string(code@) && lookup_url(old(db)@, code@) is None ==> r is NotFound
            && final(db)@ == old(db)@,
        (match lookup_url(old(db)@, code@) {
            Some(u) => {
                &&& r matches Resolution::Redirected(url) && url@ == u
                &&& final(db)@ == with_log(old(db)@, code@, u, ip@, timestamp@)
            },
            None => true,
        }),
{
    if check_string_injection(code.as_str()) {
        return Resolution::BadRequest;
    }
    match db.get_url(code.clone()) {
        None => Resolution::NotFound,
        Some(url) => {
            proof {
                lemma_find_url_wf(old(db)@.redirects, code@);
            }
            // a failed recording (an address the guard refuses) is
            // deliberately ignored: the redirect is answered either way
            let _recorded = db.log(code, url.clone(), ip, timestamp);
            Resolution::Redirected(url)
        },
    }
}

/// Create a mapping for `url` under a freshly generated short code. The
/// generator draws at random and checks the draw against the store: a
/// code already in use is redrawn, a bounded number of times, so a
/// returned code was free and now maps to `url`. A guard-rejected URL,
/// or a run of draws all colliding, changes nothing and yields `None`.
pub fn add_redirect(db: &mut Database, url: String) -> (r: Option<String>)
    requires
        old(db).wf(),
    ensures
        final(db).wf(),
        !valid_string(url@) ==> r is None,
        (match r {
            Some(code) => {
                &&& valid_string(url@)
                &&& code@.len() == 4
                &&& valid_string(code@)
                &&& find_url(old(db)@.redirects, code@) is None
                &&& final(db)@ == with_redirect(old(db)@, url@, code@)
            },
            None => final(db)@ == old(db)@,
        }),
{
    if check_string_injection(url.as_str()) {
        return None;
    }
    let mut attempts: usize = 0;
    while attempts < 8
        invariant
            old(db).wf(),
            db.wf(),
            db@ == old(db)@,
            valid_string(url@),
        decreases 8 - attempts,
    {
        let code = generate_code();
        if db.get_url(code.clone()).is_none() {
            let inserted = db.insert_url(url.as_str(), code.as_str());
            assert(inserted);
            return Some(code);
        }
        attempts += 1;
    }
    None
}

} // verus!
