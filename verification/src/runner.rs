//! The run protocol: the worker-to-caller message stream, the runner state
//! machine that drives a queue of items with cancellation, and the caller's
//! aggregation of the stream into progress counters.

use vstd::prelude::*;

use crate::foreign::opt_str_view;
use crate::text::{cat, contains_seq, dec_str, str_contains, u64_dec, views_of};

verus! {

/// One worker-to-caller event.  Sub-progress is the pair of bytes done and
/// bytes expected; the receiver renders their quotient.
pub enum InstallMsg {
    Progress(String, String, Option<String>),
    SubProgress(u64, u64),
    Log(String),
    Done(String, Result<Vec<String>, String>),
    Finished,
}

pub enum MsgView {
    Progress(Seq<char>, Seq<char>, Option<Seq<char>>),
    SubProgress(u64, u64),
    Log(Seq<char>),
    Done(Seq<char>, Result<Seq<Seq<char>>, Seq<char>>),
    Finished,
}

/// A worker outcome at the view level.
pub open spec fn outcome_view(o: Result<Vec<String>, String>) -> Result<
    Seq<Seq<char>>,
    Seq<char>,
> {
    match o {
        Ok(ls) => Ok(views_of(ls@)),
        Err(e) => Err(e@),
    }
}

impl View for InstallMsg {
    type V = MsgView;

    open spec fn view(&self) -> MsgView {
        match self {
            InstallMsg::Progress(k, op, sp) => MsgView::Progress(
                k@,
                op@,
                match sp {
                    Some(s) => Some(s@),
                    None => None,
                },
            ),
            InstallMsg::SubProgress(n, d) => MsgView::SubProgress(*n, *d),
            InstallMsg::Log(l) => MsgView::Log(l@),
            InstallMsg::Done(k, o) => MsgView::Done(k@, outcome_view(*o)),
            InstallMsg::Finished => MsgView::Finished,
        }
    }
}

pub open spec fn opt_msg_view(m: Option<InstallMsg>) -> Seq<MsgView> {
    match m {
        Some(msg) => seq![msg@],
        None => Seq::empty(),
    }
}

/// An error counts as a cancellation when its text says so; the runner uses
/// this to tell a cancelled item from a failed one.
pub open spec fn spec_is_cancel_text(e: Seq<char>) -> bool {
    contains_seq(e, "cancelled"@)
}

pub fn is_cancel_error(e: &str) -> (r: bool)
    ensures
        r == spec_is_cancel_text(e@),
{
    str_contains(e, "cancelled")
}

pub open spec fn spec_is_cancel_outcome(o: Result<Seq<Seq<char>>, Seq<char>>) -> bool {
    match o {
        Err(e) => spec_is_cancel_text(e),
        Ok(_) => false,
    }
}

// ---------------- the runner state machine ----------------

/// The worker's run state: how many items have reported, whether one is in
/// flight, and whether cancellation was observed or the final event sent.
/// Cancellation, once observed, is terminal for the run.
#[derive(Debug, Clone, Copy, PartialEq, Eq, Structural)]
pub struct Runner {
    pub done: usize,
    pub in_flight: bool,
    pub cancelled: bool,
    pub finished: bool,
}

/// One protocol action, at the view level.
pub enum RunnerOp {
    Begin { key: Seq<char>, cancel_seen: bool },
    Note { key: Seq<char>, phase: Seq<char>, speed: Option<Seq<char>> },
    FinishItem { key: Seq<char>, outcome: Result<Seq<Seq<char>>, Seq<char>> },
    Finish,
}

pub open spec fn op_allowed(s: Runner, op: RunnerOp) -> bool {
    match op {
        RunnerOp::Begin { .. } => !s.finished && !s.in_flight,
        RunnerOp::Note { .. } => s.in_flight && !s.cancelled && !s.finished,
        RunnerOp::FinishItem { .. } => s.in_flight && !s.finished && s.done < usize::MAX,
        RunnerOp::Finish => !s.finished && !s.in_flight,
    }
}

pub open spec fn op_next(s: Runner, op: RunnerOp) -> Runner {
    match op {
        RunnerOp::Begin { cancel_seen, .. } => if cancel_seen || s.cancelled {
            (Runner { cancelled: true, ..s })
        } else {
            (Runner { in_flight: true, ..s })
        },
        RunnerOp::Note { .. } => s,
        RunnerOp::FinishItem { outcome, .. } => (Runner {
            in_flight: false,
            done: (s.done + 1) as usize,
            cancelled: s.cancelled || spec_is_cancel_outcome(outcome),
            ..s
        }),
        RunnerOp::Finish => (Runner { finished: true, ..s }),
    }
}

pub open spec fn op_msgs(s: Runner, op: RunnerOp) -> Seq<MsgView> {
    match op {
        RunnerOp::Begin { key, cancel_seen } => if cancel_seen || s.cancelled {
            Seq::empty()
        } else {
            seq![MsgView::Progress(key, "Preparing"@, None)]
        },
        RunnerOp::Note { key, phase, speed } => seq![MsgView::Progress(key, phase, speed)],
        RunnerOp::FinishItem { key, outcome } => seq![MsgView::Done(key, outcome)],
        RunnerOp::Finish => seq![MsgView::Finished],
    }
}

impl Runner {
    /// A fresh run: nothing reported, nothing in flight.
    pub fn new() -> (s: Runner)
        ensures
            s == (Runner { done: 0, in_flight: false, cancelled: false, finished: false }),
    {
        Runner { done: 0, in_flight: false, cancelled: false, finished: false }
    }

    /// Polls cancellation and, when the run goes on, opens the next item
    /// with its `Preparing` event.  Once cancellation is seen here, no item
    /// is opened again.
    pub fn begin_item(&mut self, key: &str, cancel_seen: bool) -> (msg: Option<InstallMsg>)
        requires
            !old(self).finished,
            !old(self).in_flight,
        ensures
            *final(self) == op_next(
                *old(self),
                RunnerOp::Begin { key: key@, cancel_seen },
            ),
            opt_msg_view(msg) == op_msgs(
                *old(self),
                RunnerOp::Begin { key: key@, cancel_seen },
            ),
            msg is Some <==> !(cancel_seen || old(self).cancelled),
    {
        if cancel_seen || self.cancelled {
            self.cancelled = true;
            None
        } else {
            self.in_flight = true;
            Some(
                InstallMsg::Progress(
                    String::from_str(key),
                    String::from_str("Preparing"),
                    None,
                ),
            )
        }
    }

    /// A phase note for the item in flight.
    pub fn note_phase(&mut self, key: &str, phase: &str, speed: Option<String>) -> (msg:
        InstallMsg)
        requires
            old(self).in_flight,
            !old(self).cancelled,
            !old(self).finished,
        ensures
            *final(self) == *old(self),
            msg@ == MsgView::Progress(key@, phase@, opt_str_view(speed)),
            opt_msg_view(Some(msg)) == op_msgs(
                *old(self),
                RunnerOp::Note { key: key@, phase: phase@, speed: opt_str_view(speed) },
            ),
    {
        InstallMsg::Progress(String::from_str(key), String::from_str(phase), speed)
    }

    /// Closes the item in flight with its outcome.  An outcome whose error
    /// reads as a cancellation makes the run cancelled, so that the queue's
    /// remaining items are suppressed without counting another failure.
    pub fn finish_item(&mut self, key: &str, outcome: Result<Vec<String>, String>) -> (msg:
        InstallMsg)
        requires
            old(self).in_flight,
            !old(self).finished,
            old(self).done < usize::MAX,
        ensures
            *final(self) == op_next(
                *old(self),
                RunnerOp::FinishItem { key: key@, outcome: outcome_view(outcome) },
            ),
            msg@ == MsgView::Done(key@, outcome_view(outcome)),
            opt_msg_view(Some(msg)) == op_msgs(
                *old(self),
                RunnerOp::FinishItem { key: key@, outcome: outcome_view(outcome) },
            ),
    {
        let was_cancelled: bool = match &outcome {
            Err(e) => is_cancel_error(e.as_str()),
            Ok(_) => false,
        };
        self.cancelled = self.cancelled || was_cancelled;
        self.in_flight = false;
        self.done = self.done + 1;
        InstallMsg::Done(String::from_str(key), outcome)
    }

    /// The final event: always sent exactly once, so the caller can detect
    /// completion even of a cancelled run.
    pub fn finish(&mut self) -> (msg: InstallMsg)
        requires
            !old(self).finished,
            !old(self).in_flight,
        ensures
            *final(self) == op_next(*old(self), RunnerOp::Finish),
            msg@ == MsgView::Finished,
            opt_msg_view(Some(msg)) == op_msgs(*old(self), RunnerOp::Finish),
    {
        self.finished = true;
        InstallMsg::Finished
    }
}

// ---------------- traces and the cancellation law ----------------

pub open spec fn ops_allowed(s: Runner, ops: Seq<RunnerOp>) -> bool
    decreases ops.len(),
{
    ops.len() == 0 || (op_allowed(s, ops[0]) && ops_allowed(op_next(s, ops[0]), ops.drop_first()))
}

pub open spec fn trace_msgs(s: Runner, ops: Seq<RunnerOp>) -> Seq<MsgView>
    decreases ops.len(),
{
    if ops.len() == 0 {
        Seq::empty()
    } else {
        op_msgs(s, ops[0]) + trace_msgs(op_next(s, ops[0]), ops.drop_first())
    }
}

pub open spec fn count_progress(ms: Seq<MsgView>) -> int
    decreases ms.len(),
{
    if ms.len() == 0 {
        0
    } else {
        (if ms[0] is Progress {
            1int
        } else {
            0int
        }) + count_progress(ms.drop_first())
    }
}

pub open spec fn count_done(ms: Seq<MsgView>) -> int
    decreases ms.len(),
{
    if ms.len() == 0 {
        0
    } else {
        (if ms[0] is Done {
            1int
        } else {
            0int
        }) + count_done(ms.drop_first())
    }
}

pub open spec fn count_finished(ms: Seq<MsgView>) -> int
    decreases ms.len(),
{
    if ms.len() == 0 {
        0
    } else {
        (if ms[0] is Finished {
            1int
        } else {
            0int
        }) + count_finished(ms.drop_first())
    }
}

proof fn lemma_count_single(m: MsgView)
    ensures
        count_progress(seq![m]) == if m is Progress {
            1int
        } else {
            0int
        },
        count_done(seq![m]) == if m is Done {
            1int
        } else {
            0int
        },
        count_finished(seq![m]) == if m is Finished {
            1int
        } else {
            0int
        },
{
    assert(seq![m].drop_first() =~= Seq::<MsgView>::empty());
    assert(count_progress(Seq::<MsgView>::empty()) == 0);
    assert(count_done(Seq::<MsgView>::empty()) == 0);
    assert(count_finished(Seq::<MsgView>::empty()) == 0);
}

proof fn lemma_count_concat(a: Seq<MsgView>, b: Seq<MsgView>)
    ensures
        count_progress(a + b) == count_progress(a) + count_progress(b),
        count_done(a + b) == count_done(a) + count_done(b),
        count_finished(a + b) == count_finished(a) + count_finished(b),
    decreases a.len(),
{
    if a.len() == 0 {
        assert(a + b =~= b);
    } else {
        assert((a + b).drop_first() =~= a.drop_first() + b);
        lemma_count_concat(a.drop_first(), b);
    }
}

/// Once cancellation has been observed, the rest of the run emits no
/// Progress and no Done, and at most one Finished.
pub proof fn lemma_cancel_terminal(s: Runner, ops: Seq<RunnerOp>)
    requires
        s.cancelled,
        !s.in_flight,
        ops_allowed(s, ops),
    ensures
        count_progress(trace_msgs(s, ops)) == 0,
        count_done(trace_msgs(s, ops)) == 0,
        count_finished(trace_msgs(s, ops)) <= if s.finished {
            0int
        } else {
            1int
        },
    decreases ops.len(),
{
    if ops.len() > 0 {
        let op = ops[0];
        let s2 = op_next(s, op);
        let rest = ops.drop_first();
        match op {
            RunnerOp::Begin { .. } => {
                assert(s2.cancelled && !s2.in_flight && s2.finished == s.finished);
                lemma_cancel_terminal(s2, rest);
                lemma_count_concat(op_msgs(s, op), trace_msgs(s2, rest));
            },
            RunnerOp::Note { .. } => {
                assert(!op_allowed(s, op));
            },
            RunnerOp::FinishItem { .. } => {
                assert(!op_allowed(s, op));
            },
            RunnerOp::Finish => {
                assert(s2.cancelled && !s2.in_flight && s2.finished);
                lemma_cancel_terminal(s2, rest);
                lemma_count_single(MsgView::Finished);
                lemma_count_concat(op_msgs(s, op), trace_msgs(s2, rest));
            },
        }
    }
}

/// Cancelling a run mid-item quiesces it: the item in flight when the
/// cancellation is observed still reports exactly one Done, after which the
/// runner emits no further Progress or Done and at most one Finished.
pub proof fn lemma_cancelled_run_quiesces(
    s: Runner,
    key: Seq<char>,
    outcome: Result<Seq<Seq<char>>, Seq<char>>,
    ops: Seq<RunnerOp>,
)
    requires
        s.in_flight,
        !s.finished,
        s.done < usize::MAX,
        spec_is_cancel_outcome(outcome),
        ops_allowed(op_next(s, RunnerOp::FinishItem { key, outcome }), ops),
    ensures
        count_done(trace_msgs(s, seq![RunnerOp::FinishItem { key, outcome }] + ops)) == 1,
        count_progress(trace_msgs(s, seq![RunnerOp::FinishItem { key, outcome }] + ops)) == 0,
        count_finished(trace_msgs(s, seq![RunnerOp::FinishItem { key, outcome }] + ops)) <= 1,
{
    let op = RunnerOp::FinishItem { key, outcome };
    let all = seq![op] + ops;
    let s2 = op_next(s, op);
    assert(all[0] == op);
    assert(all.drop_first() =~= ops);
    assert(s2.cancelled && !s2.in_flight && !s2.finished);
    lemma_cancel_terminal(s2, ops);
    assert(trace_msgs(s, all) == op_msgs(s, op) + trace_msgs(s2, ops));
    lemma_count_concat(op_msgs(s, op), trace_msgs(s2, ops));
    lemma_count_single(MsgView::Done(key, outcome));
}

/// A run whose worker ends with the final event emits exactly one
/// Finished, whatever happened before: the caller can rely on it to
/// detect completion, cancelled or not.
pub proof fn lemma_exactly_one_finished(s: Runner, ops: Seq<RunnerOp>)
    requires
        !s.finished,
        ops_allowed(s, ops),
        ops.len() > 0,
        ops.last() is Finish,
    ensures
        count_finished(trace_msgs(s, ops)) == 1,
    decreases ops.len(),
{
    let op = ops[0];
    let s2 = op_next(s, op);
    let rest = ops.drop_first();
    lemma_count_concat(op_msgs(s, op), trace_msgs(s2, rest));
    if ops.len() == 1 {
        lemma_count_single(MsgView::Finished);
        assert(count_finished(trace_msgs(s2, rest)) == 0);
    } else {
        match op {
            RunnerOp::Finish => {
                assert(s2.finished);
                assert(!op_allowed(s2, rest[0]));
                assert(false);
            },
            RunnerOp::Begin { key, cancel_seen } => {
                assert(rest.last() == ops.last());
                lemma_exactly_one_finished(s2, rest);
                if !(cancel_seen || s.cancelled) {
                    lemma_count_single(MsgView::Progress(key, "Preparing"@, None));
                }
            },
            RunnerOp::Note { key, phase, speed } => {
                assert(rest.last() == ops.last());
                lemma_exactly_one_finished(s2, rest);
                lemma_count_single(MsgView::Progress(key, phase, speed));
            },
            RunnerOp::FinishItem { key, outcome } => {
                assert(rest.last() == ops.last());
                lemma_exactly_one_finished(s2, rest);
                lemma_count_single(MsgView::Done(key, outcome));
            },
        }
    }
}

// ---------------- caller-side aggregation ----------------

/// The estimated seconds left: items remaining times the observed seconds
/// per item, saturated at the counter's width.
pub open spec fn spec_eta(elapsed: u64, done: int, remaining: int) -> u64 {
    if done <= 0 {
        0
    } else {
        let q = remaining * elapsed / done;
        if q > u64::MAX {
            u64::MAX
        } else {
            q as u64
        }
    }
}

pub open spec fn spec_format_eta(eta: u64) -> Seq<char> {
    if eta == 0 {
        "finishing..."@
    } else if eta / 60 > 0 {
        "~"@ + dec_str((eta / 60) as nat) + "m "@ + dec_str((eta % 60) as nat) + "s"@
    } else {
        "~"@ + dec_str((eta % 60) as nat) + "s"@
    }
}

/// An ETA rendered for display.
pub fn format_eta(eta: u64) -> (r: String)
    ensures
        r@ == spec_format_eta(eta),
{
    if eta == 0 {
        return String::from_str("finishing...");
    }
    let mins: u64 = eta / 60;
    let secs: u64 = eta % 60;
    if mins > 0 {
        let m = u64_dec(mins);
        let s = u64_dec(secs);
        cat(cat(cat(cat("~", m.as_str()).as_str(), "m ").as_str(), s.as_str()).as_str(), "s")
    } else {
        let s = u64_dec(secs);
        cat(cat("~", s.as_str()).as_str(), "s")
    }
}

} // verus!
