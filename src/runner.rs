//! The decisions of a pipeline of external commands.
//!
//! A [`Runner`] holds the steps of one flow and says what to do next; the
//! caller does it (prints a preview, looks the program up, runs it) and
//! reports back what happened. The first step that fails stops the
//! pipeline; a `pull` that fails only because the branch is not on the
//! remote yet is a warning and the pipeline goes on.
use vstd::prelude::*;
use vstd::string::StringSliceAdditionalSpecFns;

use crate::config::{ErrorView, GlitterError};
use crate::tasks::{step_views, Step};
use crate::text::{contains_bytes, has_infix, str_eq, views};

verus! {

/// What git prints when the branch to pull does not exist on the remote.
pub const REMOTE_REF_MISSING: &'static str = "fatal: couldn't find remote ref";

/// The bytes of [`REMOTE_REF_MISSING`].
pub open spec fn marker() -> Seq<u8> {
    REMOTE_REF_MISSING.spec_bytes()
}

/// How one step ended.
#[derive(Clone, Copy, Debug, PartialEq, Eq, Structural)]
pub enum StepOutcome {
    /// It ran (or was previewed) and the pipeline goes on.
    Success,
    /// It failed in a way that lets the pipeline go on.
    Warning,
    /// It failed and the pipeline stops.
    Fatal,
}

/// What the caller reports about the current step.
#[derive(Debug)]
pub enum RunEvent {
    /// The step was shown and not run.
    Previewed,
    /// Its program is not on the search path.
    BinaryMissing,
    /// It ran: whether it exited successfully, then what it wrote to
    /// stdout and to stderr.
    Exited(bool, Vec<u8>, Vec<u8>),
}

/// What the caller is to do next.
#[derive(Clone, Copy, Debug, PartialEq, Eq, Structural)]
pub enum RunAction {
    /// Show the step at this position without running it.
    Preview(usize),
    /// Look up the program of the step at this position and run it.
    Execute(usize),
    /// Every step has been taken care of.
    Finished,
    /// A step failed; the failure is in the runner.
    Failed,
}

/// The outcome of a command that exited: a failed `pull` whose output
/// reports the missing remote branch is a warning, every other failure is
/// fatal.
pub open spec fn exit_outcome(
    args: Seq<Seq<char>>,
    success: bool,
    stdout: Seq<u8>,
    stderr: Seq<u8>,
) -> StepOutcome {
    if success {
        StepOutcome::Success
    } else if args.len() > 0 && args[0] == "pull"@ && (has_infix(
        stdout,
        marker(),
    ) || has_infix(stderr, marker())) {
        StepOutcome::Warning
    } else {
        StepOutcome::Fatal
    }
}

/// Classifies how a command ended from its arguments, its exit status and
/// what it printed.
pub fn classify_exit(args: &Vec<String>, success: bool, stdout: &[u8], stderr: &[u8]) -> (r:
    StepOutcome)
    ensures
        r == exit_outcome(views(args@), success, stdout@, stderr@),
{
    if success {
        return StepOutcome::Success;
    }
    if args.len() > 0 && str_eq(args[0].as_str(), "pull") {
        assert(views(args@)[0] == args@[0]@);
        let marker = REMOTE_REF_MISSING.as_bytes();
        if contains_bytes(stdout, marker) || contains_bytes(stderr, marker) {
            return StepOutcome::Warning;
        }
    } else {
        assert(args.len() > 0 ==> views(args@)[0] == args@[0]@);
    }
    StepOutcome::Fatal
}

/// The outcome of an event on a step with arguments `args`.
pub open spec fn event_outcome(args: Seq<Seq<char>>, ev: RunEvent) -> StepOutcome {
    match ev {
        RunEvent::Previewed => StepOutcome::Success,
        RunEvent::BinaryMissing => StepOutcome::Fatal,
        RunEvent::Exited(ok, out, err) => exit_outcome(args, ok, out@, err@),
    }
}

/// The failure an event that stops the pipeline leaves behind.
pub open spec fn event_failure(step: (Seq<char>, Seq<Seq<char>>), ev: RunEvent) -> ErrorView {
    match ev {
        RunEvent::Exited(_, out, err) => ErrorView::CommandFailed(step.0, step.1, out@, err@),
        _ => ErrorView::BinaryNotFound(step.0),
    }
}

/// The steps of a flow and how far they have come.
pub struct Runner {
    pub steps: Vec<Step>,
    /// Steps are shown, never run.
    pub dry: bool,
    /// The position of the next step.
    pub next: usize,
    /// The failure that stopped the pipeline.
    pub failure: Option<GlitterError>,
}

/// What a runner in this state asks for.
pub open spec fn action_of(r: &Runner) -> RunAction {
    if r.failure is Some {
        RunAction::Failed
    } else if r.next >= r.steps.len() {
        RunAction::Finished
    } else if r.dry {
        RunAction::Preview(r.next)
    } else {
        RunAction::Execute(r.next)
    }
}

impl Runner {
    /// A runner at the first of `steps`.
    pub fn new(steps: Vec<Step>, dry: bool) -> (r: Runner)
        ensures
            step_views(r.steps@) == step_views(steps@),
            r.dry == dry,
            r.next == 0,
            r.failure is None,
    {
        Runner { steps, dry, next: 0, failure: None }
    }

    /// What to do next.
    pub fn next_action(&self) -> (r: RunAction)
        ensures
            r == action_of(self),
    {
        if self.failure.is_some() {
            RunAction::Failed
        } else if self.next >= self.steps.len() {
            RunAction::Finished
        } else if self.dry {
            RunAction::Preview(self.next)
        } else {
            RunAction::Execute(self.next)
        }
    }

    /// Records what happened to the current step. A step that succeeded or
    /// only warned moves the runner to the next one; one that failed stops
    /// it, with the failure kept.
    pub fn handle(&mut self, ev: RunEvent) -> (o: StepOutcome)
        requires
            old(self).failure is None,
            old(self).next < old(self).steps.len(),
        ensures
            step_views(final(self).steps@) == step_views(old(self).steps@),
            final(self).dry == old(self).dry,
            o == event_outcome(old(self).steps@[old(self).next as int]@.1, ev),
            o != StepOutcome::Fatal ==> final(self).next == old(self).next + 1
                && final(self).failure is None,
            o == StepOutcome::Fatal ==> final(self).next == old(self).next,
            o == StepOutcome::Fatal ==> (final(self).failure matches Some(e) && e@ == event_failure(
                old(self).steps@[old(self).next as int]@,
                ev,
            )),
    {
        let i = self.next;
        let o = match &ev {
            RunEvent::Previewed => StepOutcome::Success,
            RunEvent::BinaryMissing => StepOutcome::Fatal,
            RunEvent::Exited(ok, out, err) => classify_exit(
                &self.steps[i].args,
                *ok,
                out.as_slice(),
                err.as_slice(),
            ),
        };
        if o == StepOutcome::Fatal {
            let program = self.steps[i].program.clone();
            let failure = match ev {
                RunEvent::Exited(_, out, err) => GlitterError::CommandFailed(
                    program,
                    crate::config::clone_strings(&self.steps[i].args),
                    out,
                    err,
                ),
                _ => GlitterError::BinaryNotFound(program),
            };
            self.failure = Some(failure);
        } else {
            self.next = i + 1;
        }
        o
    }
}

/// A failed `pull` whose output reports that the branch is missing on the
/// remote does not stop the pipeline, while every other failed exit does.
pub proof fn lemma_missing_remote_ref_is_not_fatal(
    args: Seq<Seq<char>>,
    stdout: Seq<u8>,
    stderr: Seq<u8>,
)
    ensures
        args.len() > 0 && args[0] == "pull"@ && (has_infix(stdout, marker())
            || has_infix(stderr, marker())) ==> exit_outcome(
            args,
            false,
            stdout,
            stderr,
        ) == StepOutcome::Warning,
        !(args.len() > 0 && args[0] == "pull"@ && (has_infix(
            stdout,
            marker(),
        ) || has_infix(stderr, marker()))) ==> exit_outcome(
            args,
            false,
            stdout,
            stderr,
        ) == StepOutcome::Fatal,
{
}

} // verus!
