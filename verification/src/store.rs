//! The storage core: the persistent store modelled as three in-memory
//! tables (redirects, click log, session tokens) owned by a single
//! `Database` value. Every operation of the actor protocol is a method
//! here with an exact contract over the table views.
//!
//! Row identity is the position in the table sequence: rows are only ever
//! appended, filtered out, or updated in place, so the sequence order is
//! the insertion order (what the on-disk store's autoincrement id gives).

use vstd::prelude::*;

use crate::guard::{check_string_injection, valid_string};

verus! {

/// A redirect mapping: an opaque short code points at a destination URL,
/// with an optional comment.
pub struct Redirect {
    pub url: String,
    pub code: String,
    pub comment: Option<String>,
}

/// One click-log row: a successful resolution of `code` at `timestamp`
/// from `ip`, with the URL the code pointed at when it was resolved.
pub struct LogEntry {
    pub timestamp: String,
    pub code: String,
    pub url: String,
    pub ip: String,
}

/// A bearer-token row: the opaque token value and the second at which it
/// stops being valid.
pub struct TokenRow {
    pub token: String,
    pub expires: u64,
}

/// One entry of the statistics listing: a redirect row joined with the
/// number of click-log rows that carry its code.
pub struct DatabaseStats {
    pub url: String,
    pub code: String,
    pub comment: String,
    pub visits: usize,
}

/// One entry of the per-code log listing.
pub struct DatabaseLog {
    pub timestamp: String,
    pub ip: String,
    pub url: String,
}

#[verifier::ext_equal]
pub struct RedirectV {
    pub url: Seq<char>,
    pub code: Seq<char>,
    pub comment: Option<Seq<char>>,
}

#[verifier::ext_equal]
pub struct LogV {
    pub timestamp: Seq<char>,
    pub code: Seq<char>,
    pub url: Seq<char>,
    pub ip: Seq<char>,
}

#[verifier::ext_equal]
pub struct TokenV {
    pub token: Seq<char>,
    pub expires: u64,
}

#[verifier::ext_equal]
pub struct StatV {
    pub url: Seq<char>,
    pub code: Seq<char>,
    pub comment: Seq<char>,
    pub visits: nat,
}

#[verifier::ext_equal]
pub struct LogOutV {
    pub timestamp: Seq<char>,
    pub ip: Seq<char>,
    pub url: Seq<char>,
}

impl View for Redirect {
    type V = RedirectV;

    open spec fn view(&self) -> RedirectV {
        RedirectV {
            url: self.url@,
            code: self.code@,
            comment: match self.comment {
                Some(c) => Some(c@),
                None => None,
            },
        }
    }
}

impl View for LogEntry {
    type V = LogV;

    open spec fn view(&self) -> LogV {
        LogV { timestamp: self.timestamp@, code: self.code@, url: self.url@, ip: self.ip@ }
    }
}

impl View for TokenRow {
    type V = TokenV;

    open spec fn view(&self) -> TokenV {
        TokenV { token: self.token@, expires: self.expires }
    }
}

impl View for DatabaseStats {
    type V = StatV;

    open spec fn view(&self) -> StatV {
        StatV { url: self.url@, code: self.code@, comment: self.comment@, visits: self.visits as nat }
    }
}

impl View for DatabaseLog {
    type V = LogOutV;

    open spec fn view(&self) -> LogOutV {
        LogOutV { timestamp: self.timestamp@, ip: self.ip@, url: self.url@ }
    }
}

impl RedirectV {
    /// Every string of the row passed the injection guard.
    pub open spec fn wf(self) -> bool {
        &&& valid_string(self.url)
        &&& valid_string(self.code)
        &&& (self.comment matches Some(c) ==> valid_string(c))
    }
}

impl LogV {
    /// Every guarded string of the row passed the injection guard (the
    /// timestamp is produced by the actor itself and is not guarded).
    pub open spec fn wf(self) -> bool {
        &&& valid_string(self.code)
        &&& valid_string(self.url)
        &&& valid_string(self.ip)
    }
}

impl TokenV {
    /// The token value passed the injection guard.
    pub open spec fn wf(self) -> bool {
        valid_string(self.token)
    }
}

/// The abstract state of the store: the three tables, plus the service
/// configuration the `Database` carries.
#[verifier::ext_equal]
pub struct DbView {
    pub behind_traefik: bool,
    pub base_url: Seq<char>,
    pub username: Seq<char>,
    pub password: Seq<char>,
    pub filename: Seq<char>,
    pub redirects: Seq<RedirectV>,
    pub logs: Seq<LogV>,
    pub tokens: Seq<TokenV>,
}

impl DbView {
    /// Injection safety of the whole store: every string that reached a
    /// table passed the whitelist guard on its way in.
    pub open spec fn wf(self) -> bool {
        &&& forall|i: int| 0 <= i < self.redirects.len() ==> (#[trigger] self.redirects[i]).wf()
        &&& forall|i: int| 0 <= i < self.logs.len() ==> (#[trigger] self.logs[i]).wf()
        &&& forall|i: int| 0 <= i < self.tokens.len() ==> (#[trigger] self.tokens[i]).wf()
    }
}

/// The store together with the service configuration. All access to the
/// tables goes through the operation methods below; the actor serializes
/// calls to them.
pub struct Database {
    pub behind_traefik: bool,
    pub base_url: String,
    pub username: String,
    pub password: String,
    pub filename: String,
    redirects: Vec<Redirect>,
    logs: Vec<LogEntry>,
    tokens: Vec<TokenRow>,
}

impl View for Database {
    type V = DbView;

    closed spec fn view(&self) -> DbView {
        DbView {
            behind_traefik: self.behind_traefik,
            base_url: self.base_url@,
            username: self.username@,
            password: self.password@,
            filename: self.filename@,
            redirects: self.redirects@.map_values(|r: Redirect| r@),
            logs: self.logs@.map_values(|l: LogEntry| l@),
            tokens: self.tokens@.map_values(|t: TokenRow| t@),
        }
    }
}

/// The URL the store maps `code` to: the last matching row wins, as a
/// row-by-row scan that keeps overwriting its result reports it.
pub open spec fn find_url(rs: Seq<RedirectV>, code: Seq<char>) -> Option<Seq<char>>
    decreases rs.len(),
{
    if rs.len() == 0 {
        None
    } else if rs.last().code == code {
        Some(rs.last().url)
    } else {
        find_url(rs.drop_last(), code)
    }
}

/// What `GetRedirect` reports: a code that fails the guard is rejected
/// before it reaches the table.
pub open spec fn lookup_url(v: DbView, code: Seq<char>) -> Option<Seq<char>> {
    if valid_string(code) {
        find_url(v.redirects, code)
    } else {
        None
    }
}

/// The store after `InsertRedirect`: a fresh row without a comment is
/// appended, provided both strings pass the guard.
pub open spec fn with_redirect(v: DbView, url: Seq<char>, code: Seq<char>) -> DbView {
    if valid_string(url) && valid_string(code) {
        DbView {
            redirects: v.redirects.push(RedirectV { url: url, code: code, comment: None }),
            ..v
        }
    } else {
        v
    }
}

/// Appending to a sequence appends the image to its map.
pub broadcast proof fn lemma_map_values_push<A, B>(s: Seq<A>, x: A, f: spec_fn(A) -> B)
    ensures
        #[trigger] s.push(x).map_values(f) == s.map_values(f).push(f(x)),
{
    assert(s.push(x).map_values(f) =~= s.map_values(f).push(f(x)));
}

/// Appending an element either appends it to the filtered sequence or
/// leaves the filtered sequence alone, by the filter's verdict on it.
pub broadcast proof fn lemma_filter_push<A>(s: Seq<A>, x: A, pred: spec_fn(A) -> bool)
    ensures
        #[trigger] s.push(x).filter(pred) == if pred(x) {
            s.filter(pred).push(x)
        } else {
            s.filter(pred)
        },
{
    reveal(Seq::filter);
    assert(s.push(x).drop_last() =~= s);
    assert(s.push(x).last() == x);
}

/// The store after `RemoveRedirect`: every row carrying the code leaves,
/// provided the code passes the guard.
pub open spec fn without_redirect(v: DbView, code: Seq<char>) -> DbView {
    if valid_string(code) {
        DbView { redirects: v.redirects.filter(|r: RedirectV| r.code != code), ..v }
    } else {
        v
    }
}

/// The store after `UpdateRedirectUrl`: every row carrying the code gets
/// the new URL, provided both strings pass the guard.
pub open spec fn with_url(v: DbView, code: Seq<char>, url: Seq<char>) -> DbView {
    if valid_string(code) && valid_string(url) {
        DbView {
            redirects: v.redirects.map_values(
                |r: RedirectV| if r.code == code { RedirectV { url: url, ..r } } else { r },
            ),
            ..v
        }
    } else {
        v
    }
}

/// The store after `UpdateComment`: every row carrying the code gets the
/// new comment, provided both strings pass the guard.
pub open spec fn with_comment(v: DbView, code: Seq<char>, comment: Seq<char>) -> DbView {
    if valid_string(code) && valid_string(comment) {
        DbView {
            redirects: v.redirects.map_values(
                |r: RedirectV| if r.code == code {
                    RedirectV { comment: Some(comment), ..r }
                } else {
                    r
                },
            ),
            ..v
        }
    } else {
        v
    }
}

/// The store after `InsertLog`: one row is appended, provided the guarded
/// strings pass; nothing else of the log table ever changes.
pub open spec fn with_log(
    v: DbView,
    code: Seq<char>,
    url: Seq<char>,
    ip: Seq<char>,
    timestamp: Seq<char>,
) -> DbView {
    if valid_string(code) && valid_string(url) && valid_string(ip) {
        DbView {
            logs: v.logs.push(LogV { timestamp: timestamp, code: code, url: url, ip: ip }),
            ..v
        }
    } else {
        v
    }
}

/// The click-log rows that carry `code`, in insertion order.
pub open spec fn logs_for(logs: Seq<LogV>, code: Seq<char>) -> Seq<LogV> {
    logs.filter(|l: LogV| l.code == code)
}

/// What `GetLogs` reports: the rows carrying `code`, each stripped to
/// timestamp, source address and URL snapshot.
pub open spec fn logs_out(v: DbView, code: Seq<char>) -> Seq<LogOutV> {
    logs_for(v.logs, code).map_values(
        |l: LogV| LogOutV { timestamp: l.timestamp, ip: l.ip, url: l.url },
    )
}

/// The number of click-log rows that carry `code`.
pub open spec fn visits(logs: Seq<LogV>, code: Seq<char>) -> nat {
    logs_for(logs, code).len()
}

/// The statistics entry for one redirect row: the row joined with its
/// visit count; a missing comment reads as the empty string.
pub open spec fn stat_of(v: DbView, r: RedirectV) -> StatV {
    StatV {
        url: r.url,
        code: r.code,
        comment: match r.comment {
            Some(c) => c,
            None => Seq::<char>::empty(),
        },
        visits: visits(v.logs, r.code),
    }
}

/// What `GetStats` reports: one entry per redirect row, in table order.
pub open spec fn stats_of(v: DbView) -> Seq<StatV> {
    v.redirects.map_values(|r: RedirectV| stat_of(v, r))
}

/// The expiry second of the first token row carrying `token`, if any: a
/// row-by-row scan that stops at the first match reports it.
pub open spec fn find_token(ts: Seq<TokenV>, token: Seq<char>) -> Option<u64>
    decreases ts.len(),
{
    if ts.len() == 0 {
        None
    } else if ts[0].token == token {
        Some(ts[0].expires)
    } else {
        find_token(ts.skip(1), token)
    }
}

/// The store after `InsertToken`: one row expiring an hour past `now` is
/// appended, provided the token passes the guard.
pub open spec fn with_token(v: DbView, token: Seq<char>, now: u64) -> DbView {
    if valid_string(token) {
        DbView { tokens: v.tokens.push(TokenV { token: token, expires: (now + 3600) as u64 }), ..v }
    } else {
        v
    }
}

/// What `CheckToken` reports: the token is on file and its expiry lies
/// strictly in the future.
pub open spec fn token_valid(v: DbView, token: Seq<char>, now: u64) -> bool {
    valid_string(token) && (find_token(v.tokens, token) matches Some(e) && e > now)
}

/// The store after `CheckToken`: a valid check purges every expired row
/// (and no live one); an expired check deletes the checked token's rows;
/// an unknown or guard-rejected token leaves the table alone.
pub open spec fn after_check_token(v: DbView, token: Seq<char>, now: u64) -> DbView {
    if !valid_string(token) {
        v
    } else {
        match find_token(v.tokens, token) {
            None => v,
            Some(e) => if e > now {
                DbView { tokens: v.tokens.filter(|t: TokenV| t.expires >= now), ..v }
            } else {
                DbView { tokens: v.tokens.filter(|t: TokenV| t.token != token), ..v }
            },
        }
    }
}

proof fn lemma_find_token_push(s: Seq<TokenV>, x: TokenV, token: Seq<char>)
    ensures
        find_token(s.push(x), token) == (match find_token(s, token) {
            Some(e) => Some(e),
            None => if x.token == token {
                Some(x.expires)
            } else {
                None
            },
        }),
    decreases s.len(),
{
    if s.len() == 0 {
        assert(s.push(x)[0] == x);
        assert(s.push(x).skip(1) =~= Seq::<TokenV>::empty());
        assert(find_token(Seq::<TokenV>::empty(), token) is None);
    } else {
        assert(s.push(x)[0] == s[0]);
        assert(s.push(x).skip(1) =~= s.skip(1).push(x));
        lemma_find_token_push(s.skip(1), x, token);
    }
}

pub broadcast proof fn lemma_find_url_push(rs: Seq<RedirectV>, x: RedirectV, code: Seq<char>)
    ensures
        #[trigger] find_url(rs.push(x), code) == if x.code == code {
            Some(x.url)
        } else {
            find_url(rs, code)
        },
{
    assert(rs.push(x).drop_last() =~= rs);
    assert(rs.push(x).last() == x);
}

impl Database {
    pub open spec fn wf(self) -> bool {
        self@.wf()
    }

    /// A fresh store with the given configuration and empty tables.
    pub fn new(
        behind_traefik: bool,
        base_url: String,
        username: String,
        password: String,
        filename: String,
    ) -> (db: Database)
        ensures
            db.wf(),
            db@ == (DbView {
                behind_traefik: behind_traefik,
                base_url: base_url@,
                username: username@,
                password: password@,
                filename: filename@,
                redirects: Seq::<RedirectV>::empty(),
                logs: Seq::<LogV>::empty(),
                tokens: Seq::<TokenV>::empty(),
            }),
    {
        let db = Database {
            behind_traefik,
            base_url,
            username,
            password,
            filename,
            redirects: Vec::new(),
            logs: Vec::new(),
            tokens: Vec::new(),
        };
        proof {
            assert(db@.redirects =~= Seq::<RedirectV>::empty());
            assert(db@.logs =~= Seq::<LogV>::empty());
            assert(db@.tokens =~= Seq::<TokenV>::empty());
        }
        db
    }

    /// Exact-equality comparison of supplied admin credentials with the
    /// configured ones.
    pub fn check_credentials(&self, username: &String, password: &String) -> (r: bool)
        ensures
            r == (username@ == self@.username && password@ == self@.password),
    {
        let user_ok = *username == self.username;
        let pass_ok = *password == self.password;
        user_ok && pass_ok
    }

    /// `GetRedirect`: the URL the code maps to, or nothing when the code
    /// fails the guard or no row carries it.
    pub fn get_url(&self, code: String) -> (r: Option<String>)
        ensures
            opt_str_view(r) == lookup_url(self@, code@),
    {
        if check_string_injection(code.as_str()) {
            return None;
        }
        let n = self.redirects.len();
        let mut res: Option<String> = None;
        let mut i: usize = 0;
        while i < n
            invariant
                i <= n,
                n == self.redirects.len(),
                opt_str_view(res) == find_url(self@.redirects.take(i as int), code@),
            decreases n - i,
        {
            proof {
                assert(self@.redirects.take(i + 1) =~= self@.redirects.take(i as int).push(
                    self@.redirects[i as int],
                ));
                lemma_find_url_push(self@.redirects.take(i as int), self@.redirects[i as int], code@);
            }
            if self.redirects[i].code == code {
                res = Some(self.redirects[i].url.clone());
            }
            i += 1;
        }
        proof {
            assert(self@.redirects.take(n as int) =~= self@.redirects);
        }
        res
    }

    /// `InsertRedirect`: append a fresh mapping. No uniqueness check is
    /// made against existing codes; the later row shadows the earlier one
    /// in lookups.
    pub fn insert_url(&mut self, url: &str, code: &str) -> (r: bool)
        requires
            old(self).wf(),
        ensures
            final(self).wf(),
            final(self)@ == with_redirect(old(self)@, url@, code@),
            r == (valid_string(url@) && valid_string(code@)),
    {
        if check_string_injection(url) || check_string_injection(code) {
            return false;
        }
        self.redirects.push(Redirect { url: url.to_owned(), code: code.to_owned(), comment: None });
        proof {
            assert(final(self)@.redirects =~= old(self)@.redirects.push(
                RedirectV { url: url@, code: code@, comment: None },
            ));
            assert(final(self)@ =~~= with_redirect(old(self)@, url@, code@));
        }
        true
    }

    /// `RemoveRedirect`: every row carrying the code leaves the table.
    /// Success is reported whether or not any row carried it.
    pub fn remove_url(&mut self, code: String) -> (r: bool)
        requires
            old(self).wf(),
        ensures
            final(self).wf(),
            final(self)@ == without_redirect(old(self)@, code@),
            r == valid_string(code@),
    {
        if check_string_injection(code.as_str()) {
            return false;
        }
        let n = self.redirects.len();
        let mut kept: Vec<Redirect> = Vec::new();
        let mut i: usize = 0;
        while i < n
            invariant
                i <= n,
                n == self.redirects.len(),
                old(self).wf(),
                valid_string(code@),
                kept@.map_values(|r: Redirect| r@) == self@.redirects.take(i as int).filter(
                    |r: RedirectV| r.code != code@,
                ),
                forall|j: int| 0 <= j < kept@.len() ==> (#[trigger] kept@[j])@.wf(),
            decreases n - i,
        {
            proof {
                assert(self@.redirects.take(i + 1) =~= self@.redirects.take(i as int).push(
                    self@.redirects[i as int],
                ));
                lemma_filter_push(
                    self@.redirects.take(i as int),
                    self@.redirects[i as int],
                    |r: RedirectV| r.code != code@,
                );
            }
            let row = &self.redirects[i];
            if !(row.code == code) {
                let copied = Redirect {
                    url: row.url.clone(),
                    code: row.code.clone(),
                    comment: clone_opt_string(&row.comment),
                };
                proof {
                    lemma_map_values_push(kept@, copied, |r: Redirect| r@);
                }
                kept.push(copied);
            }
            i += 1;
        }
        proof {
            assert(self@.redirects.take(n as int) =~= self@.redirects);
        }
        self.redirects = kept;
        proof {
            assert(final(self)@ =~~= without_redirect(old(self)@, code@));
        }
        true
    }

    /// `UpdateRedirectUrl`: every row carrying the code gets the new URL.
    pub fn modify_url(&mut self, code: String, url: String) -> (r: bool)
        requires
            old(self).wf(),
        ensures
            final(self).wf(),
            final(self)@ == with_url(old(self)@, code@, url@),
            r == (valid_string(code@) && valid_string(url@)),
    {
        if check_string_injection(code.as_str()) || check_string_injection(url.as_str()) {
            return false;
        }
        let n = self.redirects.len();
        let mut kept: Vec<Redirect> = Vec::new();
        let mut i: usize = 0;
        while i < n
            invariant
                i <= n,
                n == self.redirects.len(),
                old(self).wf(),
                valid_string(code@),
                valid_string(url@),
                kept@.map_values(|r: Redirect| r@) == self@.redirects.take(i as int).map_values(
                    |r: RedirectV| if r.code == code@ { RedirectV { url: url@, ..r } } else { r },
                ),
                forall|j: int| 0 <= j < kept@.len() ==> (#[trigger] kept@[j])@.wf(),
            decreases n - i,
        {
            proof {
                assert(self@.redirects.take(i + 1) =~= self@.redirects.take(i as int).push(
                    self@.redirects[i as int],
                ));
                lemma_map_values_push(
                    self@.redirects.take(i as int),
                    self@.redirects[i as int],
                    |r: RedirectV| if r.code == code@ { RedirectV { url: url@, ..r } } else { r },
                );
            }
            let row = &self.redirects[i];
            let copied = if row.code == code {
                Redirect {
                    url: url.clone(),
                    code: row.code.clone(),
                    comment: clone_opt_string(&row.comment),
                }
            } else {
                Redirect {
                    url: row.url.clone(),
                    code: row.code.clone(),
                    comment: clone_opt_string(&row.comment),
                }
            };
            proof {
                lemma_map_values_push(kept@, copied, |r: Redirect| r@);
            }
            kept.push(copied);
            i += 1;
        }
        proof {
            assert(self@.redirects.take(n as int) =~= self@.redirects);
        }
        self.redirects = kept;
        proof {
            assert(final(self)@ =~~= with_url(old(self)@, code@, url@));
        }
        true
    }

    /// `UpdateComment`: every row carrying the code gets the new comment.
    pub fn modify_comment(&mut self, code: String, comment: String) -> (r: bool)
        requires
            old(self).wf(),
        ensures
            final(self).wf(),
            final(self)@ == with_comment(old(self)@, code@, comment@),
            r == (valid_string(code@) && valid_string(comment@)),
    {
        if check_string_injection(code.as_str()) || check_string_injection(comment.as_str()) {
            return false;
        }
        let n = self.redirects.len();
        let mut kept: Vec<Redirect> = Vec::new();
        let mut i: usize = 0;
        while i < n
            invariant
                i <= n,
                n == self.redirects.len(),
                old(self).wf(),
                valid_string(code@),
                valid_string(comment@),
                kept@.map_values(|r: Redirect| r@) == self@.redirects.take(i as int).map_values(
                    |r: RedirectV| if r.code == code@ {
                        RedirectV { comment: Some(comment@), ..r }
                    } else {
                        r
                    },
                ),
                forall|j: int| 0 <= j < kept@.len() ==> (#[trigger] kept@[j])@.wf(),
            decreases n - i,
        {
            proof {
                assert(self@.redirects.take(i + 1) =~= self@.redirects.take(i as int).push(
                    self@.redirects[i as int],
                ));
                lemma_map_values_push(
                    self@.redirects.take(i as int),
                    self@.redirects[i as int],
                    |r: RedirectV| if r.code == code@ {
                        RedirectV { comment: Some(comment@), ..r }
                    } else {
                        r
                    },
                );
            }
            let row = &self.redirects[i];
            let copied = if row.code == code {
                Redirect {
                    url: row.url.clone(),
                    code: row.code.clone(),
                    comment: Some(comment.clone()),
                }
            } else {
                Redirect {
                    url: row.url.clone(),
                    code: row.code.clone(),
                    comment: clone_opt_string(&row.comment),
                }
            };
            proof {
                lemma_map_values_push(kept@, copied, |r: Redirect| r@);
            }
            kept.push(copied);
            i += 1;
        }
        proof {
            assert(self@.redirects.take(n as int) =~= self@.redirects);
        }
        self.redirects = kept;
        proof {
            assert(final(self)@ =~~= with_comment(old(self)@, code@, comment@));
        }
        true
    }

    /// `InsertLog`: append one click-log row with the timestamp the actor
    /// captured when it processed the operation. The log table is
    /// append-only: no operation ever mutates or drops a row of it.
    pub fn log(&mut self, code: String, url: String, ip: String, timestamp: String) -> (r: bool)
        requires
            old(self).wf(),
        ensures
            final(self).wf(),
            final(self)@ == with_log(old(self)@, code@, url@, ip@, timestamp@),
            r == (valid_string(code@) && valid_string(url@) && valid_string(ip@)),
    {
        if check_string_injection(code.as_str()) || check_string_injection(ip.as_str()) {
            return false;
        }
        if check_string_injection(url.as_str()) {
            return false;
        }
        self.logs.push(LogEntry { timestamp, code, url, ip });
        proof {
            assert(final(self)@.logs =~= old(self)@.logs.push(
                LogV { timestamp: timestamp@, code: code@, url: url@, ip: ip@ },
            ));
            assert(final(self)@ =~~= with_log(old(self)@, code@, url@, ip@, timestamp@));
        }
        true
    }

    /// `GetLogs`: every click-log row carrying the code, oldest first.
    pub fn get_logs(&self, code: String) -> (r: Vec<DatabaseLog>)
        ensures
            r@.map_values(|d: DatabaseLog| d@) == logs_out(self@, code@),
    {
        let n = self.logs.len();
        let mut out: Vec<DatabaseLog> = Vec::new();
        let mut i: usize = 0;
        while i < n
            invariant
                i <= n,
                n == self.logs.len(),
                out@.map_values(|d: DatabaseLog| d@) == logs_for(
                    self@.logs.take(i as int),
                    code@,
                ).map_values(|l: LogV| LogOutV { timestamp: l.timestamp, ip: l.ip, url: l.url }),
            decreases n - i,
        {
            proof {
                assert(self@.logs.take(i + 1) =~= self@.logs.take(i as int).push(
                    self@.logs[i as int],
                ));
                lemma_filter_push(
                    self@.logs.take(i as int),
                    self@.logs[i as int],
                    |l: LogV| l.code == code@,
                );
                lemma_map_values_push(
                    logs_for(self@.logs.take(i as int), code@),
                    self@.logs[i as int],
                    |l: LogV| LogOutV { timestamp: l.timestamp, ip: l.ip, url: l.url },
                );
            }
            let row = &self.logs[i];
            if row.code == code {
                let entry = DatabaseLog {
                    timestamp: row.timestamp.clone(),
                    ip: row.ip.clone(),
                    url: row.url.clone(),
                };
                proof {
                    lemma_map_values_push(out@, entry, |d: DatabaseLog| d@);
                }
                out.push(entry);
            }
            i += 1;
        }
        proof {
            assert(self@.logs.take(n as int) =~= self@.logs);
        }
        out
    }

    /// `GetStats`: one entry per redirect row, in table order, each with
    /// the count of click-log rows joined by its code.
    pub fn get_stats(&self) -> (r: Vec<DatabaseStats>)
        ensures
            r@.map_values(|s: DatabaseStats| s@) == stats_of(self@),
    {
        let n = self.redirects.len();
        let mut out: Vec<DatabaseStats> = Vec::new();
        let mut i: usize = 0;
        while i < n
            invariant
                i <= n,
                n == self.redirects.len(),
                out@.map_values(|s: DatabaseStats| s@) == self@.redirects.take(i as int).map_values(
                    |r: RedirectV| stat_of(self@, r),
                ),
            decreases n - i,
        {
            proof {
                assert(self@.redirects.take(i + 1) =~= self@.redirects.take(i as int).push(
                    self@.redirects[i as int],
                ));
                lemma_map_values_push(
                    self@.redirects.take(i as int),
                    self@.redirects[i as int],
                    |r: RedirectV| stat_of(self@, r),
                );
            }
            let row = &self.redirects[i];
            let count = self.count_logs(&row.code);
            let entry = DatabaseStats {
                url: row.url.clone(),
                code: row.code.clone(),
                comment: match &row.comment {
                    Some(c) => c.clone(),
                    None => String::new(),
                },
                visits: count,
            };
            proof {
                lemma_map_values_push(out@, entry, |s: DatabaseStats| s@);
            }
            out.push(entry);
            i += 1;
        }
        proof {
            assert(self@.redirects.take(n as int) =~= self@.redirects);
        }
        out
    }

    /// The number of click-log rows carrying `code`.
    fn count_logs(&self, code: &String) -> (count: usize)
        ensures
            count as nat == visits(self@.logs, code@),
    {
        let n = self.logs.len();
        let mut count: usize = 0;
        let mut j: usize = 0;
        while j < n
            invariant
                j <= n,
                n == self.logs.len(),
                count <= j,
                count as nat == visits(self@.logs.take(j as int), code@),
            decreases n - j,
        {
            proof {
                assert(self@.logs.take(j + 1) =~= self@.logs.take(j as int).push(
                    self@.logs[j as int],
                ));
                lemma_filter_push(
                    self@.logs.take(j as int),
                    self@.logs[j as int],
                    |l: LogV| l.code == code@,
                );
            }
            if self.logs[j].code == *code {
                count += 1;
            }
            j += 1;
        }
        proof {
            assert(self@.logs.take(n as int) =~= self@.logs);
        }
        count
    }

    /// `InsertToken`: append the token with its expiry one hour past the
    /// second at which the actor processed the operation. An expiry, once
    /// persisted, is never extended.
    pub fn insert_token(&mut self, token: String, now: u64) -> (r: bool)
        requires
            old(self).wf(),
            now <= u64::MAX - 3600,
        ensures
            final(self).wf(),
            final(self)@ == with_token(old(self)@, token@, now),
            r == valid_string(token@),
    {
        if check_string_injection(token.as_str()) {
            return false;
        }
        self.tokens.push(TokenRow { token, expires: now + 3600 });
        proof {
            assert(final(self)@.tokens =~= old(self)@.tokens.push(
                TokenV { token: token@, expires: (now + 3600) as u64 },
            ));
            assert(final(self)@ =~~= with_token(old(self)@, token@, now));
        }
        true
    }

    /// `CheckToken`: report whether the token is on file with an expiry
    /// strictly in the future. A valid check opportunistically purges
    /// every expired row as a side effect and leaves the checked row
    /// intact; an expired check deletes the checked token's rows and
    /// nothing else; an unknown or guard-rejected token changes nothing.
    pub fn check_token(&mut self, token: String, now: u64) -> (r: bool)
        requires
            old(self).wf(),
        ensures
            final(self).wf(),
            final(self)@ == after_check_token(old(self)@, token@, now),
            r == token_valid(old(self)@, token@, now),
    {
        if check_string_injection(token.as_str()) {
            return false;
        }
        let n = self.tokens.len();
        let mut found: Option<u64> = None;
        let mut i: usize = 0;
        while i < n
            invariant
                i <= n,
                n == self.tokens.len(),
                found == find_token(self@.tokens.take(i as int), token@),
            decreases n - i,
        {
            proof {
                assert(self@.tokens.take(i + 1) =~= self@.tokens.take(i as int).push(
                    self@.tokens[i as int],
                ));
                lemma_find_token_push(self@.tokens.take(i as int), self@.tokens[i as int], token@);
            }
            if found.is_none() && self.tokens[i].token == token {
                found = Some(self.tokens[i].expires);
            }
            i += 1;
        }
        proof {
            assert(self@.tokens.take(n as int) =~= self@.tokens);
        }
        match found {
            None => false,
            Some(expires) => {
                if expires > now {
                    self.purge_tokens_below(now);
                    proof {
                        assert(final(self)@ =~~= after_check_token(old(self)@, token@, now));
                    }
                    true
                } else {
                    self.delete_token_rows(&token);
                    proof {
                        assert(final(self)@ =~~= after_check_token(old(self)@, token@, now));
                    }
                    false
                }
            },
        }
    }

    /// Drop every token row whose expiry lies strictly before `now`.
    fn purge_tokens_below(&mut self, now: u64)
        requires
            old(self).wf(),
        ensures
            final(self).wf(),
            final(self)@ == (DbView {
                tokens: old(self)@.tokens.filter(|t: TokenV| t.expires >= now),
                ..old(self)@
            }),
    {
        let n = self.tokens.len();
        let mut kept: Vec<TokenRow> = Vec::new();
        let mut i: usize = 0;
        while i < n
            invariant
                i <= n,
                n == self.tokens.len(),
                old(self).wf(),
                kept@.map_values(|t: TokenRow| t@) == self@.tokens.take(i as int).filter(
                    |t: TokenV| t.expires >= now,
                ),
                forall|j: int| 0 <= j < kept@.len() ==> (#[trigger] kept@[j])@.wf(),
            decreases n - i,
        {
            proof {
                assert(self@.tokens.take(i + 1) =~= self@.tokens.take(i as int).push(
                    self@.tokens[i as int],
                ));
                lemma_filter_push(
                    self@.tokens.take(i as int),
                    self@.tokens[i as int],
                    |t: TokenV| t.expires >= now,
                );
            }
            let row = &self.tokens[i];
            if row.expires >= now {
                let copied = TokenRow { token: row.token.clone(), expires: row.expires };
                proof {
                    lemma_map_values_push(kept@, copied, |t: TokenRow| t@);
                }
                kept.push(copied);
            }
            i += 1;
        }
        proof {
            assert(self@.tokens.take(n as int) =~= self@.tokens);
        }
        self.tokens = kept;
        proof {
            assert(final(self)@ =~~= (DbView {
                tokens: old(self)@.tokens.filter(|t: TokenV| t.expires >= now),
                ..old(self)@
            }));
        }
    }

    /// Drop every token row that carries exactly this token value.
    fn delete_token_rows(&mut self, token: &String)
        requires
            old(self).wf(),
        ensures
            final(self).wf(),
            final(self)@ == (DbView {
                tokens: old(self)@.tokens.filter(|t: TokenV| t.token != token@),
                ..old(self)@
            }),
    {
        let n = self.tokens.len();
        let mut kept: Vec<TokenRow> = Vec::new();
        let mut i: usize = 0;
        while i < n
            invariant
                i <= n,
                n == self.tokens.len(),
                old(self).wf(),
                kept@.map_values(|t: TokenRow| t@) == self@.tokens.take(i as int).filter(
                    |t: TokenV| t.token != token@,
                ),
                forall|j: int| 0 <= j < kept@.len() ==> (#[trigger] kept@[j])@.wf(),
            decreases n - i,
        {
            proof {
                assert(self@.tokens.take(i + 1) =~= self@.tokens.take(i as int).push(
                    self@.tokens[i as int],
                ));
                lemma_filter_push(
                    self@.tokens.take(i as int),
                    self@.tokens[i as int],
                    |t: TokenV| t.token != token@,
                );
            }
            let row = &self.tokens[i];
            if !(row.token == *token) {
                let copied = TokenRow { token: row.token.clone(), expires: row.expires };
                proof {
                    lemma_map_values_push(kept@, copied, |t: TokenRow| t@);
                }
                kept.push(copied);
            }
            i += 1;
        }
        proof {
            assert(self@.tokens.take(n as int) =~= self@.tokens);
        }
        self.tokens = kept;
        proof {
            assert(final(self)@ =~~= (DbView {
                tokens: old(self)@.tokens.filter(|t: TokenV| t.token != token@),
                ..old(self)@
            }));
        }
    }
}

/// Clone an optional string, keeping its view.
fn clone_opt_string(o: &Option<String>) -> (r: Option<String>)
    ensures
        opt_str_view(r) == opt_str_view(*o),
{
    match o {
        Some(s) => Some(s.clone()),
        None => None,
    }
}

/// The view of an optional owned string.
pub open spec fn opt_str_view(o: Option<String>) -> Option<Seq<char>> {
    match o {
        Some(s) => Some(s@),
        None => None,
    }
}

} // verus!
