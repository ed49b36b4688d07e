use vstd::prelude::*;
use crate::errors::{ExitInfo, RunError};

verus! {

/// The observable lifecycle of one monitored process, as the guard
/// sees it: still running, found dead by a health check, or shut down
/// by the termination handshake.
#[derive(Clone, Copy, PartialEq, Eq, Structural, Debug)]
pub enum GuardPhase {
    Running,
    Exited,
    Terminated,
}

/// Control state of a process guard. `holds_child` says whether the
/// child handle is still owned (it is given up once an unexpected exit
/// has been reported); `terminated` is the once-only flag set when the
/// termination handshake has reaped the process.
#[derive(Clone, Copy, PartialEq, Eq, Structural, Debug)]
pub struct GuardModel {
    pub holds_child: bool,
    pub terminated: bool,
}

impl GuardModel {
    pub open spec fn phase(self) -> GuardPhase {
        if self.terminated {
            GuardPhase::Terminated
        } else if !self.holds_child {
            GuardPhase::Exited
        } else {
            GuardPhase::Running
        }
    }

    /// The phase this control state is in.
    pub fn phase_of(&self) -> (p: GuardPhase)
        ensures
            p == self.phase(),
    {
        if self.terminated {
            GuardPhase::Terminated
        } else if !self.holds_child {
            GuardPhase::Exited
        } else {
            GuardPhase::Running
        }
    }

    /// The state a guard starts in, right after a successful spawn.
    pub fn on_spawn() -> (g: GuardModel)
        ensures
            g == (GuardModel { holds_child: true, terminated: false }),
            g.phase() == GuardPhase::Running,
    {
        GuardModel { holds_child: true, terminated: false }
    }
}

/// What the caller of a termination step must do next: nothing, or
/// send the graceful signal, arm the watchdog, and await the reap.
#[derive(Clone, Copy, PartialEq, Eq, Structural, Debug)]
pub enum TermAction {
    Skip,
    SignalAndAwait,
}

/// The action a termination request takes in a given guard state.
pub open spec fn terminate_action(g: GuardModel) -> TermAction {
    if g.terminated || !g.holds_child {
        TermAction::Skip
    } else {
        TermAction::SignalAndAwait
    }
}

/// The guard state after a termination request has run to completion.
pub open spec fn terminate_next(g: GuardModel) -> GuardModel {
    if g.terminated || !g.holds_child {
        g
    } else {
        GuardModel { holds_child: g.holds_child, terminated: true }
    }
}

/// One termination request. `Skip` means the request returns at once,
/// without signalling or blocking; `SignalAndAwait` means the caller
/// signals the process group, arms the grace-period watchdog, and
/// blocks until the process is reaped, after which this state (with
/// its `terminated` flag now set) holds.
pub fn terminate_step(g: &mut GuardModel) -> (a: TermAction)
    ensures
        a == terminate_action(*old(g)),
        *final(g) == terminate_next(*old(g)),
{
    if g.terminated || !g.holds_child {
        TermAction::Skip
    } else {
        g.terminated = true;
        TermAction::SignalAndAwait
    }
}

/// One health check. `observed_exit` is what a non-blocking wait on
/// the child reported: `None` while it still runs, or its exit record.
/// An observed exit gives up the child handle and reports the death.
pub fn check_step(g: &mut GuardModel, observed_exit: Option<ExitInfo>) -> (r: Result<(), RunError>)
    ensures
        !old(g).holds_child ==> r is Ok && *final(g) == *old(g),
        old(g).holds_child && observed_exit is None ==> r is Ok && *final(g) == *old(g),
        old(g).holds_child ==> (observed_exit matches Some(info) ==> {
            &&& r == Result::<(), RunError>::Err(RunError::ProcessDied(info))
            &&& *final(g) == (GuardModel { holds_child: false, terminated: old(g).terminated })
        }),
{
    if !g.holds_child {
        return Ok(());
    }
    match observed_exit {
        None => Ok(()),
        Some(info) => {
            g.holds_child = false;
            Err(RunError::ProcessDied(info))
        },
    }
}

/// The watchdog's decision when the grace period elapses: force-kill
/// exactly when the graceful handshake has not already finished.
pub fn watchdog_should_kill(terminated: bool) -> (b: bool)
    ensures
        b == !terminated,
{
    !terminated
}

/// The teardown decision when a guard is discarded: force-kill at once
/// exactly when the process was neither terminated nor already reaped.
pub fn teardown_should_kill(g: &GuardModel) -> (b: bool)
    ensures
        b == (!g.terminated && g.holds_child),
{
    !g.terminated && g.holds_child
}

/// Law: however the guard started, a second termination request after
/// a completed first one is a no-op, so the graceful signal is sent at
/// most once and the second call never blocks.
pub proof fn lemma_terminate_at_most_once(g: GuardModel)
    ensures
        terminate_action(terminate_next(g)) == TermAction::Skip,
        terminate_next(terminate_next(g)) == terminate_next(g),
{
}

/// One event in the termination handshake, as seen by the shared
/// atomic flag: the reaping thread confirms the exit (`Reaped`), or
/// the watchdog's grace period runs out (`GraceElapsed`).
#[derive(Clone, Copy, PartialEq, Eq, Structural, Debug)]
pub enum TermEvent {
    Reaped,
    GraceElapsed,
}

/// How many forced kills the watchdog issues along a trace of
/// handshake events, starting from a given flag value: a grace expiry
/// fires exactly when the flag is still clear, and a reap sets the
/// flag for good.
pub open spec fn force_kills(trace: Seq<TermEvent>, flag: bool) -> nat
    decreases trace.len(),
{
    if trace.len() == 0 {
        0
    } else {
        let fired: nat = if trace[0] is GraceElapsed && !flag { 1 } else { 0 };
        fired + force_kills(trace.drop_first(), flag || trace[0] is Reaped)
    }
}

/// How many grace expiries a trace holds.
pub open spec fn grace_expiries(trace: Seq<TermEvent>) -> nat
    decreases trace.len(),
{
    if trace.len() == 0 {
        0
    } else {
        (if trace[0] is GraceElapsed { 1 as nat } else { 0 as nat })
            + grace_expiries(trace.drop_first())
    }
}

/// Once the flag is set, no grace expiry fires.
pub proof fn lemma_no_kill_after_flag(trace: Seq<TermEvent>)
    ensures
        force_kills(trace, true) == 0,
    decreases trace.len(),
{
    if trace.len() > 0 {
        lemma_no_kill_after_flag(trace.drop_first());
    }
}

/// Law: in a handshake whose watchdog fires once (one grace expiry in
/// the trace), a forced kill is issued at most once, and it is issued
/// exactly when the process was not reaped before the grace period ran
/// out.
pub proof fn lemma_escalation_exactly_once(trace: Seq<TermEvent>)
    requires
        grace_expiries(trace) == 1,
    ensures
        force_kills(trace, false) <= 1,
        force_kills(trace, false) == 0 <==> trace[0] is Reaped,
{
    assert(trace.len() > 0);
    if trace[0] is Reaped {
        lemma_no_kill_after_flag(trace.drop_first());
    } else {
        lemma_kills_bounded_by_expiries(trace.drop_first());
    }
}

/// A trace never fires more forced kills than it has grace expiries.
pub proof fn lemma_kills_bounded_by_expiries(trace: Seq<TermEvent>)
    ensures
        force_kills(trace, false) <= grace_expiries(trace),
    decreases trace.len(),
{
    if trace.len() > 0 {
        if trace[0] is Reaped {
            lemma_no_kill_after_flag(trace.drop_first());
            lemma_kills_bounded_by_expiries(trace.drop_first());
        } else {
            lemma_kills_bounded_by_expiries(trace.drop_first());
        }
    }
}

} // verus!
