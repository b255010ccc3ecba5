//! The control loop's decision rules: what to do with a classified reply,
//! when to retry a failed send, and the shape of a whole loop run.
//!
//! The loop itself performs blocking transport calls, so the surrounding
//! application drives it; every decision it takes comes from here.

use vstd::prelude::*;

use crate::backend::BackendCommand;
use crate::render::{unknown_ack, unknown_ack_text};

verus! {

/// A send is attempted at most twice: the first attempt and one retry.
pub const SEND_ATTEMPT_LIMIT: u64 = 2;

/// The loop's answer to a failed send attempt.
pub enum SendStep {
    RetryAfterDelay,
    GiveUp,
}

/// Decides whether another send attempt is allowed after `failures` failed
/// ones: retry while fewer than the limit have failed, give up at the limit.
pub fn send_decision(failures: u64) -> (r: SendStep)
    ensures
        failures < SEND_ATTEMPT_LIMIT ==> r is RetryAfterDelay,
        failures >= SEND_ATTEMPT_LIMIT ==> r is GiveUp,
{
    if failures < SEND_ATTEMPT_LIMIT {
        SendStep::RetryAfterDelay
    } else {
        SendStep::GiveUp
    }
}

/// What one delivery of a message amounts to under the retry policy.
pub struct SendReport {
    /// How many send attempts were made (at most the limit).
    pub attempts: u64,
    /// Whether one of them succeeded.
    pub delivered: bool,
}

/// Plays the send-retry policy against the attempt outcomes a transport
/// would produce: `outcomes[i]` tells whether the `i`-th attempt would
/// succeed. Exactly one attempt is made when the first succeeds; otherwise
/// exactly one retry follows, and a second failure gives up — a third
/// attempt is never made, whatever its outcome would be.
pub fn send_plan(outcomes: &Vec<bool>) -> (r: SendReport)
    ensures
        ({
            let first = outcomes@.len() > 0 && outcomes@[0];
            let second = outcomes@.len() > 1 && outcomes@[1];
            &&& r.attempts == if first { 1u64 } else { 2u64 }
            &&& r.delivered == (first || second)
        }),
{
    let first = outcomes.len() > 0 && *outcomes.get(0).unwrap_or(&false);
    if first {
        return SendReport { attempts: 1, delivered: true };
    }
    let second = outcomes.len() > 1 && *outcomes.get(1).unwrap_or(&false);
    SendReport { attempts: 2, delivered: second }
}

/// The loop's reaction to a classified reply.
pub enum ReplyReaction {
    /// Re-run the command and send its fresh result.
    RunAgain,
    /// Send the final acknowledgment and terminate.
    SendDoneAndStop,
    /// Send the canned attachment and wait for the next reply.
    SendCatAndWait,
    /// Send the carried acknowledgment text and wait for the next reply.
    SendErrorAndWait(String),
}

/// Maps a classified reply to the loop's reaction. Every reply triggers
/// exactly one reaction; only `Done` terminates, only `Rerun` re-runs the
/// command.
pub fn reply_reaction(cmd: &BackendCommand) -> (r: ReplyReaction)
    ensures
        (cmd is Rerun) <==> (r is RunAgain),
        (cmd is Done) <==> (r is SendDoneAndStop),
        (cmd is Cat) <==> (r is SendCatAndWait),
        (cmd is Unknown) <==> (r is SendErrorAndWait),
        cmd matches BackendCommand::Unknown(s) ==> r matches ReplyReaction::SendErrorAndWait(t)
            && t@ == unknown_ack_text(s@),
{
    match cmd {
        BackendCommand::Rerun => ReplyReaction::RunAgain,
        BackendCommand::Done => ReplyReaction::SendDoneAndStop,
        BackendCommand::Cat => ReplyReaction::SendCatAndWait,
        BackendCommand::Unknown(s) => ReplyReaction::SendErrorAndWait(unknown_ack(s.as_str())),
    }
}

/// Index of the first `Done` among the replies, or their number if none.
pub open spec fn done_index(rs: Seq<BackendCommand>) -> nat
    decreases rs.len(),
{
    if rs.len() == 0 {
        0
    } else if rs[0] is Done {
        0
    } else {
        1 + done_index(rs.drop_first())
    }
}

proof fn lemma_done_index_at(rs: Seq<BackendCommand>, d: int)
    requires
        0 <= d <= rs.len(),
        forall|j: int| 0 <= j < d ==> !((#[trigger] rs[j]) is Done),
        d < rs.len() ==> rs[d] is Done,
    ensures
        done_index(rs) == d,
    decreases d,
{
    if rs.len() == 0 {
    } else if d == 0 {
    } else {
        assert(!(rs[0] is Done));
        lemma_done_index_at(rs.drop_first(), d - 1);
    }
}

/// The observable shape of one whole loop run.
pub struct LoopTrace {
    /// How many replies were received.
    pub receives: u64,
    /// How many reactions were triggered.
    pub reactions: u64,
    /// Whether the run ended in termination (a `Done` reply).
    pub completed: bool,
}

/// Plays the control loop against a given reply sequence and reports its
/// shape: one reaction per received reply — the loop never has two receives
/// outstanding — and the run stops at the first `Done`, reacting to it and
/// to nothing after it. Without a `Done` every reply is consumed and the
/// loop is still waiting.
pub fn run_replies(replies: &Vec<BackendCommand>) -> (t: LoopTrace)
    requires
        replies@.len() < u64::MAX,
    ensures
        t.receives == t.reactions,
        t.completed <==> done_index(replies@) < replies@.len(),
        t.completed ==> t.receives == done_index(replies@) + 1,
        !t.completed ==> t.receives == replies@.len(),
{
    let n = replies.len();
    let mut i: usize = 0;
    let mut receives: u64 = 0;
    let mut reactions: u64 = 0;
    while i < n
        invariant
            i <= n,
            n == replies@.len(),
            n < u64::MAX,
            receives == i,
            reactions == i,
            forall|j: int| 0 <= j < i ==> !((#[trigger] replies@[j]) is Done),
        decreases n - i,
    {
        let cmd = &replies[i];
        receives += 1;
        let reaction = reply_reaction(cmd);
        reactions += 1;
        if matches!(reaction, ReplyReaction::SendDoneAndStop) {
            proof {
                lemma_done_index_at(replies@, i as int);
            }
            return LoopTrace { receives, reactions, completed: true };
        }
        i += 1;
    }
    proof {
        lemma_done_index_at(replies@, n as int);
    }
    LoopTrace { receives, reactions, completed: false }
}

} // verus!
