//! The platform-agnostic operation-lifetime protocol.
//!
//! A `File` owns one reusable transfer descriptor, and at most one unretired
//! operation may exist per file at any time. On a target that cannot lean on
//! a borrow checker, both rules are enforced at run time: a per-file busy
//! flag ([`SingleFlight`]) is set when a transfer is issued and cleared when
//! the operation retires, and issuing fails fast while the flag is set.
//!
//! [`PollLatch`] records the first terminal result an operation observes, so
//! that polling is idempotent: before a terminal state every poll reports
//! `Pending` or the eventual terminal value, and once a terminal value has
//! been reached no later poll can flip back to `Pending`.

use vstd::prelude::*;

use crate::async_io::OperationResult;

verus! {

/// What issuing a transfer does to the busy flag: the issue is accepted
/// exactly when the descriptor is free, and either way the descriptor is
/// busy afterwards (an accepted issue claims it; a rejected one leaves the
/// existing claim in place).
pub open spec fn issue_step(busy: bool) -> (bool, bool) {
    if busy {
        (true, false)
    } else {
        (true, true)
    }
}

/// What retiring the outstanding operation does to the busy flag: the
/// descriptor becomes free, whether the operation completed or was
/// cancelled and drained.
pub open spec fn retire_step(busy: bool) -> bool {
    false
}

/// Single-flight enforcement: once an issue has been accepted, every
/// further issue is rejected until the outstanding operation retires.
pub proof fn lemma_single_flight(busy: bool)
    ensures
        issue_step(busy).1 ==> !issue_step(issue_step(busy).0).1,
{
}

/// The outcome of each of `n` consecutive issue attempts, starting from
/// the given busy state, with no retirement in between.
pub open spec fn issue_outcomes(busy: bool, n: nat) -> Seq<bool>
    decreases n,
{
    if n == 0 {
        Seq::empty()
    } else {
        seq![issue_step(busy).1] + issue_outcomes(issue_step(busy).0, (n - 1) as nat)
    }
}

/// There is one outcome per attempt.
pub proof fn lemma_issue_outcomes_len(busy: bool, n: nat)
    ensures
        issue_outcomes(busy, n).len() == n,
    decreases n,
{
    if n > 0 {
        lemma_issue_outcomes_len(issue_step(busy).0, (n - 1) as nat);
    }
}

/// While the descriptor is busy, every issue attempt is rejected, however
/// many are made.
pub proof fn lemma_busy_rejects_all(n: nat, k: int)
    requires
        0 <= k < n,
    ensures
        issue_outcomes(true, n)[k] == false,
    decreases n,
{
    lemma_issue_outcomes_len(true, (n - 1) as nat);
    if k > 0 {
        lemma_busy_rejects_all((n - 1) as nat, k - 1);
    }
}

/// Single-flight enforcement in general: once an issue has been accepted,
/// every further issue on the same file — however many are attempted — is
/// rejected until the outstanding operation retires.
pub proof fn lemma_single_flight_general(busy: bool, n: nat, k: int)
    requires
        issue_step(busy).1,
        0 <= k < n,
    ensures
        issue_outcomes(issue_step(busy).0, n)[k] == false,
{
    lemma_busy_rejects_all(n, k);
}

/// Safe abandonment: retiring an operation — including by cancellation and
/// drain of an abandoned one — frees the descriptor, so the very next issue
/// on the same file is accepted.
pub proof fn lemma_reissue_after_retire(busy: bool)
    ensures
        issue_step(retire_step(busy)).1,
{
}

/// The run-time guard for the one-reusable-descriptor rule: a per-file busy
/// flag set on issue and cleared on retirement.
pub struct SingleFlight {
    busy: bool,
}

impl SingleFlight {
    /// True while an unretired operation holds the file's descriptor.
    pub closed spec fn spec_busy(&self) -> bool {
        self.busy
    }

    /// A fresh guard: no operation is outstanding.
    pub fn new() -> (r: SingleFlight)
        ensures
            !r.spec_busy(),
    {
        SingleFlight { busy: false }
    }

    /// True while an unretired operation holds the file's descriptor.
    pub fn is_busy(&self) -> (r: bool)
        ensures
            r == self.spec_busy(),
    {
        self.busy
    }

    /// Claim the descriptor for a new transfer. The claim is accepted
    /// exactly when no operation is outstanding; a second issue before the
    /// first retires is rejected rather than silently interleaved.
    pub fn try_issue(&mut self) -> (accepted: bool)
        ensures
            final(self).spec_busy() == issue_step(old(self).spec_busy()).0,
            accepted == issue_step(old(self).spec_busy()).1,
    {
        if self.busy {
            false
        } else {
            self.busy = true;
            true
        }
    }

    /// Release the descriptor once the outstanding operation has reached a
    /// terminal state or has been cancelled and drained.
    pub fn retire(&mut self)
        ensures
            final(self).spec_busy() == retire_step(old(self).spec_busy()),
    {
        self.busy = false;
    }
}

/// What recording one polled result does to the latch: the first terminal
/// value sticks; `Pending` records nothing.
pub open spec fn latch_step(
    st: Option<OperationResult>,
    polled: OperationResult,
) -> Option<OperationResult> {
    match st {
        Some(t) => Some(t),
        None => if polled is Pending {
            None
        } else {
            Some(polled)
        },
    }
}

/// What a poll reports: the recorded terminal value if there is one, and
/// the freshly polled result otherwise.
pub open spec fn latch_out(st: Option<OperationResult>, polled: OperationResult) -> OperationResult {
    match st {
        Some(t) => t,
        None => polled,
    }
}

/// The latch state after a whole sequence of polled results.
pub open spec fn latch_after(
    st: Option<OperationResult>,
    polls: Seq<OperationResult>,
) -> Option<OperationResult>
    decreases polls.len(),
{
    if polls.len() == 0 {
        st
    } else {
        latch_after(latch_step(st, polls[0]), polls.drop_first())
    }
}

/// The sequence of results a poller observes for a sequence of polled
/// results.
pub open spec fn latch_outputs(
    st: Option<OperationResult>,
    polls: Seq<OperationResult>,
) -> Seq<OperationResult>
    decreases polls.len(),
{
    if polls.len() == 0 {
        Seq::empty()
    } else {
        seq![latch_out(st, polls[0])] + latch_outputs(latch_step(st, polls[0]), polls.drop_first())
    }
}

/// A latch always reports as many results as it was asked for.
pub proof fn lemma_latch_outputs_len(st: Option<OperationResult>, polls: Seq<OperationResult>)
    ensures
        latch_outputs(st, polls).len() == polls.len(),
    decreases polls.len(),
{
    if polls.len() > 0 {
        lemma_latch_outputs_len(latch_step(st, polls[0]), polls.drop_first());
    }
}

/// Once a terminal value is recorded, every later poll reports exactly that
/// value, whatever the platform reports afterwards.
pub proof fn lemma_terminal_is_stable(
    t: OperationResult,
    polls: Seq<OperationResult>,
    k: int,
)
    requires
        0 <= k < polls.len(),
    ensures
        latch_outputs(Some(t), polls)[k] == t,
    decreases polls.len(),
{
    lemma_latch_outputs_len(latch_step(Some(t), polls[0]), polls.drop_first());
    if k > 0 {
        lemma_terminal_is_stable(t, polls.drop_first(), k - 1);
    }
}

/// Idempotent polling: for any sequence of polled results, the observed
/// results never flip backward — as soon as one observation is terminal,
/// every later observation equals it.
pub proof fn lemma_poll_idempotent(polls: Seq<OperationResult>, i: int, j: int)
    requires
        0 <= i <= j < polls.len(),
        !(latch_outputs(None, polls)[i] is Pending),
    ensures
        latch_outputs(None, polls)[j] == latch_outputs(None, polls)[i],
    decreases polls.len(),
{
    lemma_latch_outputs_len(latch_step(None, polls[0]), polls.drop_first());
    if polls[0] is Pending {
        if i == 0 {
        } else {
            lemma_poll_idempotent(polls.drop_first(), i - 1, j - 1);
        }
    } else {
        if i == 0 {
            if j > 0 {
                lemma_terminal_is_stable(polls[0], polls.drop_first(), j - 1);
            }
        } else {
            lemma_terminal_is_stable(polls[0], polls.drop_first(), i - 1);
            lemma_terminal_is_stable(polls[0], polls.drop_first(), j - 1);
        }
    }
}

/// The run-time latch an operation carries: the first terminal result it
/// observes is recorded and reported from then on.
pub struct PollLatch {
    terminal: Option<OperationResult>,
}

impl PollLatch {
    /// The recorded terminal result, if one has been reached.
    pub closed spec fn spec_terminal(&self) -> Option<OperationResult> {
        self.terminal
    }

    /// A fresh latch: nothing from any earlier transfer is carried over.
    pub fn new() -> (r: PollLatch)
        ensures
            r.spec_terminal() is None,
    {
        PollLatch { terminal: None }
    }

    /// True once the operation has reached a terminal state.
    pub fn is_terminal(&self) -> (r: bool)
        ensures
            r == (self.spec_terminal() is Some),
    {
        match self.terminal {
            Some(_) => true,
            None => false,
        }
    }

    /// Fold one freshly polled platform result into the latch and report
    /// what the poller observes.
    pub fn record(&mut self, polled: OperationResult) -> (r: OperationResult)
        ensures
            final(self).spec_terminal() == latch_step(old(self).spec_terminal(), polled),
            r == latch_out(old(self).spec_terminal(), polled),
    {
        match self.terminal {
            Some(t) => t,
            None => {
                match polled {
                    OperationResult::Pending => OperationResult::Pending,
                    t => {
                        self.terminal = Some(t);
                        t
                    },
                }
            },
        }
    }
}

} // verus!
