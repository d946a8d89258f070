//! The storage actor's protocol: a typed operation set, one reply per
//! operation, and the serialized processing that the single worker gives
//! them. `step` processes one operation to completion; `run` drains a
//! batch in queue order, and its contract is the serial-order guarantee:
//! every reply is computed against the state left by all earlier
//! operations of the queue and none of the later ones, so all callers
//! observe one consistent serial order.

use vstd::prelude::*;

use crate::guard::valid_string;
use crate::store::{
    after_check_token, logs_out, lookup_url, stats_of, token_valid, with_comment, with_log,
    with_redirect, with_token, with_url, without_redirect, Database, DatabaseLog, DatabaseStats,
    DbView, LogOutV, StatV,
};

verus! {

/// One request to the storage actor.
pub enum Operation {
    GetRedirect { code: String },
    InsertRedirect { url: String, code: String },
    RemoveRedirect { code: String },
    UpdateRedirectUrl { code: String, url: String },
    UpdateComment { code: String, comment: String },
    InsertLog { code: String, url: String, ip: String },
    GetStats,
    GetLogs { code: String },
    InsertToken { token: String },
    CheckToken { token: String },
}

/// The abstract form of an operation: its strings as character sequences.
pub enum OperationV {
    GetRedirect { code: Seq<char> },
    InsertRedirect { url: Seq<char>, code: Seq<char> },
    RemoveRedirect { code: Seq<char> },
    UpdateRedirectUrl { code: Seq<char>, url: Seq<char> },
    UpdateComment { code: Seq<char>, comment: Seq<char> },
    InsertLog { code: Seq<char>, url: Seq<char>, ip: Seq<char> },
    GetStats,
    GetLogs { code: Seq<char> },
    InsertToken { token: Seq<char> },
    CheckToken { token: Seq<char> },
}

impl View for Operation {
    type V = OperationV;

    open spec fn view(&self) -> OperationV {
        match self {
            Operation::GetRedirect { code } => OperationV::GetRedirect { code: code@ },
            Operation::InsertRedirect { url, code } => OperationV::InsertRedirect {
                url: url@,
                code: code@,
            },
            Operation::RemoveRedirect { code } => OperationV::RemoveRedirect { code: code@ },
            Operation::UpdateRedirectUrl { code, url } => OperationV::UpdateRedirectUrl {
                code: code@,
                url: url@,
            },
            Operation::UpdateComment { code, comment } => OperationV::UpdateComment {
                code: code@,
                comment: comment@,
            },
            Operation::InsertLog { code, url, ip } => OperationV::InsertLog {
                code: code@,
                url: url@,
                ip: ip@,
            },
            Operation::GetStats => OperationV::GetStats,
            Operation::GetLogs { code } => OperationV::GetLogs { code: code@ },
            Operation::InsertToken { token } => OperationV::InsertToken { token: token@ },
            Operation::CheckToken { token } => OperationV::CheckToken { token: token@ },
        }
    }
}

impl Clone for Operation {
    /// A clone carries the same abstract operation.
    fn clone(&self) -> (r: Self)
        ensures
            r@ == self@,
    {
        match self {
            Operation::GetRedirect { code } => Operation::GetRedirect { code: code.clone() },
            Operation::InsertRedirect { url, code } => Operation::InsertRedirect {
                url: url.clone(),
                code: code.clone(),
            },
            Operation::RemoveRedirect { code } => Operation::RemoveRedirect { code: code.clone() },
            Operation::UpdateRedirectUrl { code, url } => Operation::UpdateRedirectUrl {
                code: code.clone(),
                url: url.clone(),
            },
            Operation::UpdateComment { code, comment } => Operation::UpdateComment {
                code: code.clone(),
                comment: comment.clone(),
            },
            Operation::InsertLog { code, url, ip } => Operation::InsertLog {
                code: code.clone(),
                url: url.clone(),
                ip: ip.clone(),
            },
            Operation::GetStats => Operation::GetStats,
            Operation::GetLogs { code } => Operation::GetLogs { code: code.clone() },
            Operation::InsertToken { token } => Operation::InsertToken { token: token.clone() },
            Operation::CheckToken { token } => Operation::CheckToken { token: token.clone() },
        }
    }
}

/// The actor's answer to one operation.
pub enum Reply {
    Url(Option<String>),
    Flag(bool),
    Stats(Vec<DatabaseStats>),
    Logs(Vec<DatabaseLog>),
}

/// The abstract form of a reply.
pub enum ReplyV {
    Url(Option<Seq<char>>),
    Flag(bool),
    Stats(Seq<StatV>),
    Logs(Seq<LogOutV>),
}

impl View for Reply {
    type V = ReplyV;

    open spec fn view(&self) -> ReplyV {
        match self {
            Reply::Url(o) => ReplyV::Url(
                match o {
                    Some(u) => Some(u@),
                    None => None,
                },
            ),
            Reply::Flag(b) => ReplyV::Flag(*b),
            Reply::Stats(v) => ReplyV::Stats(v@.map_values(|s: DatabaseStats| s@)),
            Reply::Logs(v) => ReplyV::Logs(v@.map_values(|l: DatabaseLog| l@)),
        }
    }
}

/// The state the store is left in by one operation, processed at second
/// `now` with the timestamp string `ts` captured for it.
pub open spec fn apply_op(v: DbView, op: OperationV, now: u64, ts: Seq<char>) -> DbView {
    match op {
        OperationV::GetRedirect { .. } => v,
        OperationV::InsertRedirect { url, code } => with_redirect(v, url, code),
        OperationV::RemoveRedirect { code } => without_redirect(v, code),
        OperationV::UpdateRedirectUrl { code, url } => with_url(v, code, url),
        OperationV::UpdateComment { code, comment } => with_comment(v, code, comment),
        OperationV::InsertLog { code, url, ip } => with_log(v, code, url, ip, ts),
        OperationV::GetStats => v,
        OperationV::GetLogs { .. } => v,
        OperationV::InsertToken { token } => with_token(v, token, now),
        OperationV::CheckToken { token } => after_check_token(v, token, now),
    }
}

/// The reply one operation earns against store state `v`.
pub open spec fn reply_op(v: DbView, op: OperationV, now: u64, ts: Seq<char>) -> ReplyV {
    match op {
        OperationV::GetRedirect { code } => ReplyV::Url(lookup_url(v, code)),
        OperationV::InsertRedirect { url, code } => ReplyV::Flag(
            valid_string(url) && valid_string(code),
        ),
        OperationV::RemoveRedirect { code } => ReplyV::Flag(valid_string(code)),
        OperationV::UpdateRedirectUrl { code, url } => ReplyV::Flag(
            valid_string(code) && valid_string(url),
        ),
        OperationV::UpdateComment { code, comment } => ReplyV::Flag(
            valid_string(code) && valid_string(comment),
        ),
        OperationV::InsertLog { code, url, ip } => ReplyV::Flag(
            valid_string(code) && valid_string(url) && valid_string(ip),
        ),
        OperationV::GetStats => ReplyV::Stats(stats_of(v)),
        OperationV::GetLogs { code } => ReplyV::Logs(logs_out(v, code)),
        OperationV::InsertToken { token } => ReplyV::Flag(valid_string(token)),
        OperationV::CheckToken { token } => ReplyV::Flag(token_valid(v, token, now)),
    }
}

/// Process one operation to completion: no other operation's effect can
/// interleave with it, so the store moves in one step from `old(db)@` to
/// `apply_op` of it, and the reply is read off the pre-state.
pub fn step(db: &mut Database, op: Operation, now: u64, timestamp: String) -> (r: Reply)
    requires
        old(db).wf(),
        now <= u64::MAX - 3600,
    ensures
        final(db).wf(),
        final(db)@ == apply_op(old(db)@, op@, now, timestamp@),
        r@ == reply_op(old(db)@, op@, now, timestamp@),
{
    match op {
        Operation::GetRedirect { code } => Reply::Url(db.get_url(code)),
        Operation::InsertRedirect { url, code } => Reply::Flag(
            db.insert_url(url.as_str(), code.as_str()),
        ),
        Operation::RemoveRedirect { code } => Reply::Flag(db.remove_url(code)),
        Operation::UpdateRedirectUrl { code, url } => Reply::Flag(db.modify_url(code, url)),
        Operation::UpdateComment { code, comment } => Reply::Flag(db.modify_comment(code, comment)),
        Operation::InsertLog { code, url, ip } => Reply::Flag(db.log(code, url, ip, timestamp)),
        Operation::GetStats => Reply::Stats(db.get_stats()),
        Operation::GetLogs { code } => Reply::Logs(db.get_logs(code)),
        Operation::InsertToken { token } => Reply::Flag(db.insert_token(token, now)),
        Operation::CheckToken { token } => Reply::Flag(db.check_token(token, now)),
    }
}

/// The state after a whole queue of operations, drained front to back.
pub open spec fn apply_all(v: DbView, ops: Seq<OperationV>, now: u64, ts: Seq<char>) -> DbView
    decreases ops.len(),
{
    if ops.len() == 0 {
        v
    } else {
        apply_op(apply_all(v, ops.drop_last(), now, ts), ops.last(), now, ts)
    }
}

pub broadcast proof fn lemma_apply_all_push(
    v: DbView,
    ops: Seq<OperationV>,
    op: OperationV,
    now: u64,
    ts: Seq<char>,
)
    ensures
        #[trigger] apply_all(v, ops.push(op), now, ts) == apply_op(
            apply_all(v, ops, now, ts),
            op,
            now,
            ts,
        ),
{
    assert(ops.push(op).drop_last() =~= ops);
    assert(ops.push(op).last() == op);
}

/// Drain a queue of operations in submission order. The contract is the
/// single-writer serial-order guarantee: the store ends in the fold of
/// the operations over the initial state, and the reply at position `i`
/// is computed against exactly the state left by the first `i`
/// operations — every earlier mutation is visible to it, no later or
/// partial one is.
pub fn run(db: &mut Database, ops: Vec<Operation>, now: u64, timestamp: String) -> (replies: Vec<
    Reply,
>)
    requires
        old(db).wf(),
        now <= u64::MAX - 3600,
    ensures
        final(db).wf(),
        final(db)@ == apply_all(
            old(db)@,
            ops@.map_values(|o: Operation| o@),
            now,
            timestamp@,
        ),
        replies@.len() == ops@.len(),
        forall|i: int|
            0 <= i < ops@.len() ==> (#[trigger] replies@[i])@ == reply_op(
                apply_all(old(db)@, ops@.map_values(|o: Operation| o@).take(i), now, timestamp@),
                ops@[i]@,
                now,
                timestamp@,
            ),
{
    let ghost opsv = ops@.map_values(|o: Operation| o@);
    let n = ops.len();
    let mut replies: Vec<Reply> = Vec::new();
    let mut i: usize = 0;
    while i < n
        invariant
            i <= n,
            n == ops@.len(),
            opsv == ops@.map_values(|o: Operation| o@),
            now <= u64::MAX - 3600,
            db.wf(),
            db@ == apply_all(old(db)@, opsv.take(i as int), now, timestamp@),
            replies@.len() == i,
            forall|j: int|
                0 <= j < i ==> (#[trigger] replies@[j])@ == reply_op(
                    apply_all(old(db)@, opsv.take(j), now, timestamp@),
                    opsv[j],
                    now,
                    timestamp@,
                ),
        decreases n - i,
    {
        proof {
            assert(opsv.take(i + 1) =~= opsv.take(i as int).push(opsv[i as int]));
            lemma_apply_all_push(old(db)@, opsv.take(i as int), opsv[i as int], now, timestamp@);
        }
        let op = ops[i].clone();
        let rep = step(db, op, now, timestamp.clone());
        replies.push(rep);
        i += 1;
    }
    proof {
        assert(opsv.take(n as int) =~= opsv);
    }
    replies
}

} // verus!
