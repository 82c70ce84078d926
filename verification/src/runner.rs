//! The diagnostic test runner: drives N repeated diagnostic cycles for one
//! mode, translates each result into the color overlay, reports per-run
//! progress, and stops early on the first failure. The captured keymap is
//! handed back for restoration whichever way the sequence ends.
//!
//! Hardware calls stay with the caller: the runner says which run to issue
//! next, and the caller feeds each outcome back in.

use vstd::prelude::*;

use crate::diagnostic::{overlay_after, DiagnosticMode, DiagnosticResult};
use crate::keymap::{neutral_view, KeyMap, KeymapGuard};
use crate::numfmt::{dec_seq, dec_u64};
use crate::overlay::ColorOverlay;

verus! {

/// The enabled/disabled state of the test-trigger controls. Starting a test
/// sequence demands the controls and disables them, so at most one sequence
/// is active at a time; finishing re-enables them.
pub struct TestControls {
    enabled: bool,
}

impl TestControls {
    /// Whether the test triggers are currently enabled.
    pub closed spec fn is_enabled(&self) -> bool {
        self.enabled
    }

    /// Controls start out enabled.
    pub fn new() -> (c: Self)
        ensures
            c.is_enabled(),
    {
        TestControls { enabled: true }
    }

    /// Exec twin of `is_enabled`, for the rendering layer.
    pub fn enabled(&self) -> (r: bool)
        ensures
            r == self.is_enabled(),
    {
        self.enabled
    }

    /// Claims the controls for one test sequence; a second sequence cannot
    /// start until they are enabled again.
    pub fn disable(&mut self)
        requires
            old(self).is_enabled(),
        ensures
            !final(self).is_enabled(),
    {
        self.enabled = false;
    }

    /// Releases the controls once the sequence has ended.
    pub fn enable(&mut self)
        ensures
            final(self).is_enabled(),
    {
        self.enabled = true;
    }
}

/// The human-readable progress of a test sequence.
#[derive(Debug, PartialEq, Eq)]
pub enum Progress {
    /// No run has been issued yet.
    Idle,
    /// Run `run` of `total` is underway.
    Running { run: u32, total: u32 },
    /// Run `run` of `total` completed without faults.
    Successful { run: u32, total: u32 },
    /// The hardware call for run `run` of `total` itself failed.
    RunError { run: u32, total: u32, detail: String },
    /// Run `run` of `total` reported physical faults.
    Failed { run: u32, total: u32 },
}

/// The text a progress value displays as.
pub open spec fn progress_seq(p: Progress) -> Seq<char> {
    match p {
        Progress::Idle => Seq::empty(),
        Progress::Running { run, total } => "Test "@ + dec_seq(run as nat) + "/"@ + dec_seq(
            total as nat,
        ) + " running"@,
        Progress::Successful { run, total } => "Test "@ + dec_seq(run as nat) + "/"@ + dec_seq(
            total as nat,
        ) + " successful"@,
        Progress::RunError { run, total, detail } => "Test "@ + dec_seq(run as nat) + "/"@
            + dec_seq(total as nat) + " failed to run: "@ + detail@,
        Progress::Failed { run, total } => "Test "@ + dec_seq(run as nat) + "/"@ + dec_seq(
            total as nat,
        ) + " failed"@,
    }
}

/// "Test <run>/<total>" followed by `tail`.
fn run_of_total(run: u32, total: u32, tail: &str) -> (s: String)
    ensures
        s@ == "Test "@ + dec_seq(run as nat) + "/"@ + dec_seq(total as nat) + tail@,
{
    let mut s = String::from_str("Test ");
    let run_text = dec_u64(run as u64);
    s.append(run_text.as_str());
    s.append("/");
    let total_text = dec_u64(total as u64);
    s.append(total_text.as_str());
    s.append(tail);
    proof {
        assert(s@ =~= "Test "@ + dec_seq(run as nat) + "/"@ + dec_seq(total as nat) + tail@);
    }
    s
}

impl Progress {
    /// Renders the progress text.
    pub fn text(&self) -> (s: String)
        ensures
            s@ == progress_seq(*self),
    {
        match self {
            Progress::Idle => String::new(),
            Progress::Running { run, total } => run_of_total(*run, *total, " running"),
            Progress::Successful { run, total } => run_of_total(*run, *total, " successful"),
            Progress::RunError { run, total, detail } => {
                let mut s = run_of_total(*run, *total, " failed to run: ");
                s.append(detail.as_str());
                proof {
                    assert(s@ =~= progress_seq(*self));
                }
                s
            },
            Progress::Failed { run, total } => run_of_total(*run, *total, " failed"),
        }
    }
}

/// The control state of a test sequence, as the contracts speak of it.
pub struct RunnerState {
    pub total: u32,
    pub issued: u32,
    pub awaiting: bool,
    pub done: bool,
    pub mode: DiagnosticMode,
    pub saved: Seq<(Seq<char>, Seq<Seq<char>>)>,
}

/// What asking for the next run does to the control state, and what it
/// yields: a run while runs remain and nothing has failed; nothing, and no
/// change, once the sequence is done.
pub open spec fn next_run_step(v: RunnerState) -> (RunnerState, Option<DiagnosticMode>) {
    if v.done {
        (v, None)
    } else if v.issued < v.total {
        (
            RunnerState { issued: (v.issued + 1) as u32, awaiting: true, ..v },
            Some(v.mode),
        )
    } else {
        (RunnerState { done: true, ..v }, None)
    }
}

/// The overall outcome of one run, as the control state sees it: the
/// success flag of a completed run, or nothing for a hardware error.
pub open spec fn outcome_kind(outcome: Result<&DiagnosticResult, String>) -> Option<bool> {
    match outcome {
        Ok(res) => Some(res.success),
        Err(_) => None,
    }
}

/// What recording one run's outcome does to the control state: a hardware
/// error or a failed run ends the sequence.
pub open spec fn record_step(v: RunnerState, outcome: Option<bool>) -> RunnerState {
    match outcome {
        Some(success) => RunnerState { awaiting: false, done: v.done || !success, ..v },
        None => RunnerState { awaiting: false, done: true, ..v },
    }
}

/// One step of a test sequence: a run is asked for, or an outcome arrives.
pub enum RunnerEvent {
    Issue,
    Outcome(Option<bool>),
}

/// The control state after a whole sequence of steps.
pub open spec fn after_events(v: RunnerState, events: Seq<RunnerEvent>) -> RunnerState
    decreases events.len(),
{
    if events.len() == 0 {
        v
    } else {
        let prev = after_events(v, events.drop_last());
        match events.last() {
            RunnerEvent::Issue => next_run_step(prev).0,
            RunnerEvent::Outcome(o) => record_step(prev, o),
        }
    }
}

/// However the runs go, no step of a test sequence touches the captured
/// keymap, the run count or the mode: the keymap restored at the end is the
/// one present at the start, byte for byte.
pub proof fn lemma_saved_keymap_constant(v: RunnerState, events: Seq<RunnerEvent>)
    ensures
        after_events(v, events).saved == v.saved,
        after_events(v, events).total == v.total,
        after_events(v, events).mode == v.mode,
    decreases events.len(),
{
    if events.len() > 0 {
        lemma_saved_keymap_constant(v, events.drop_last());
    }
}

/// A run that reports overall failure, or fails to run, ends the sequence.
pub proof fn lemma_failure_ends_sequence(v: RunnerState)
    ensures
        record_step(v, Some(false)).done,
        record_step(v, None).done,
{
}

/// Early stop: once a sequence is done, no later step ever issues another
/// run — asking again yields nothing and changes nothing.
pub proof fn lemma_done_is_absorbing(v: RunnerState, events: Seq<RunnerEvent>)
    requires
        v.done,
    ensures
        after_events(v, events).done,
        next_run_step(after_events(v, events)).1 is None,
        after_events(v, events).issued == v.issued,
    decreases events.len(),
{
    if events.len() > 0 {
        lemma_done_is_absorbing(v, events.drop_last());
    }
}

/// One invocation of the diagnostic test runner: N repeated cycles of one
/// diagnostic mode, stopping early on the first failed or unrunnable run.
pub struct TestSequence {
    run_count: u32,
    mode: DiagnosticMode,
    issued: u32,
    awaiting: bool,
    done: bool,
    guard: KeymapGuard,
    progress: Progress,
}

impl TestSequence {
    /// How many runs the sequence was asked for.
    pub closed spec fn total_runs(&self) -> u32 {
        self.run_count
    }

    /// The diagnostic mode every run uses.
    pub closed spec fn mode_of(&self) -> DiagnosticMode {
        self.mode
    }

    /// How many runs have been issued so far.
    pub closed spec fn runs_issued(&self) -> u32 {
        self.issued
    }

    /// Whether a run was issued whose outcome is not yet recorded.
    pub closed spec fn is_awaiting(&self) -> bool {
        self.awaiting
    }

    /// Whether the sequence has ended (all runs done, a run failed, or a
    /// hardware error); once done it never issues another run.
    pub closed spec fn is_done(&self) -> bool {
        self.done
    }

    /// The keymap captured at the start, to be restored at the end.
    pub closed spec fn saved_keymap(&self) -> Seq<(Seq<char>, Seq<Seq<char>>)> {
        self.guard@
    }

    /// The current progress report.
    pub closed spec fn progress_of(&self) -> Progress {
        self.progress
    }

    /// The control state the transition functions speak of.
    pub open spec fn control_state(&self) -> RunnerState {
        RunnerState {
            total: self.total_runs(),
            issued: self.runs_issued(),
            awaiting: self.is_awaiting(),
            done: self.is_done(),
            mode: self.mode_of(),
            saved: self.saved_keymap(),
        }
    }

    /// The current progress text.
    pub fn progress_text(&self) -> (s: String)
        ensures
            s@ == progress_seq(self.progress_of()),
    {
        self.progress.text()
    }

    /// Disables the test controls, captures the keymap, and yields the
    /// neutral keymap the caller applies before the first run.
    pub fn start(run_count: u32, mode: DiagnosticMode, keymap: KeyMap, controls: &mut TestControls)
        -> (r: (TestSequence, KeyMap))
        requires
            run_count >= 1,
            old(controls).is_enabled(),
        ensures
            !final(controls).is_enabled(),
            r.0.total_runs() == run_count,
            r.0.mode_of() == mode,
            r.0.runs_issued() == 0,
            !r.0.is_awaiting(),
            !r.0.is_done(),
            r.0.saved_keymap() == keymap@,
            r.0.progress_of() == Progress::Idle,
            r.1@ =~= neutral_view(keymap@),
    {
        controls.disable();
        let (guard, neutral) = KeymapGuard::engage(keymap);
        let seq = TestSequence {
            run_count,
            mode,
            issued: 0,
            awaiting: false,
            done: false,
            guard,
            progress: Progress::Idle,
        };
        (seq, neutral)
    }

    /// Asks for the next run. Yields the mode to invoke the diagnostic
    /// with while runs remain; once the sequence is done — by early stop or
    /// by exhausting the run count — it yields nothing, ever.
    pub fn next_run(&mut self) -> (r: Option<DiagnosticMode>)
        requires
            !old(self).is_awaiting(),
        ensures
            (final(self).control_state(), r) == next_run_step(old(self).control_state()),
            old(self).is_done() ==> *final(self) == *old(self),
            !old(self).is_done() && old(self).runs_issued() < old(self).total_runs()
                ==> final(self).progress_of() == (Progress::Running {
                run: (old(self).runs_issued() + 1) as u32,
                total: old(self).total_runs(),
            }),
            !old(self).is_done() && old(self).runs_issued() == old(self).total_runs()
                ==> final(self).progress_of() == old(self).progress_of(),
    {
        if self.done {
            None
        } else if self.issued < self.run_count {
            self.issued = self.issued + 1;
            self.awaiting = true;
            self.progress = Progress::Running { run: self.issued, total: self.run_count };
            Some(self.mode)
        } else {
            self.done = true;
            None
        }
    }

    /// Records the outcome of the run issued last. A hardware error ends
    /// the sequence with the error text and touches nothing else; a
    /// completed run repaints the overlay from its fault planes, and ends
    /// the sequence exactly when its overall success flag is false.
    pub fn record_outcome(
        &mut self,
        outcome: Result<&DiagnosticResult, String>,
        overlay: &mut ColorOverlay,
    )
        requires
            old(self).is_awaiting(),
            !old(self).is_done(),
            old(overlay).wf(),
            match outcome {
                Ok(res) => res.wf(),
                Err(_) => true,
            },
        ensures
            final(overlay).wf(),
            final(self).control_state() == record_step(
                old(self).control_state(),
                outcome_kind(outcome),
            ),
            match outcome {
                Ok(res) => {
                    &&& final(overlay)@ =~= overlay_after(*res, old(overlay)@)
                    &&& res.success ==> final(self).progress_of() == (Progress::Successful {
                        run: old(self).runs_issued(),
                        total: old(self).total_runs(),
                    })
                    &&& !res.success ==> final(self).progress_of() == (Progress::Failed {
                        run: old(self).runs_issued(),
                        total: old(self).total_runs(),
                    })
                },
                Err(e) => {
                    &&& final(overlay)@ == old(overlay)@
                    &&& final(self).progress_of() == (Progress::RunError {
                        run: old(self).runs_issued(),
                        total: old(self).total_runs(),
                        detail: e,
                    })
                },
            },
    {
        self.awaiting = false;
        match outcome {
            Ok(res) => {
                res.apply_to_overlay(overlay);
                if res.success {
                    self.progress = Progress::Successful {
                        run: self.issued,
                        total: self.run_count,
                    };
                } else {
                    self.progress = Progress::Failed { run: self.issued, total: self.run_count };
                    self.done = true;
                }
            },
            Err(e) => {
                self.progress = Progress::RunError {
                    run: self.issued,
                    total: self.run_count,
                    detail: e,
                };
                self.done = true;
            },
        }
    }

    /// Ends the sequence: re-enables the controls and hands back the
    /// keymap captured at the start, byte for byte, whichever way the runs
    /// went.
    pub fn finish(self, controls: &mut TestControls) -> (r: KeyMap)
        ensures
            final(controls).is_enabled(),
            r@ == self.saved_keymap(),
    {
        controls.enable();
        self.guard.release()
    }
}

} // verus!
