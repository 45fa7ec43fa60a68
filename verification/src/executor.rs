//! Executors and how their runs end.

use vstd::prelude::*;
use crate::error::Error;

verus! {

/// How an execution finished.
#[derive(Clone, Copy, PartialEq, Eq, Structural, Debug)]
pub enum ExitKind {
    /// The run exited normally.
    Normal,
    /// The run crashed the target.
    Crash,
    /// The run exhausted the memory.
    Oom,
    /// The run timed out.
    Timeout,
    /// Two runs of one input ended differently.
    Diff { primary: DiffExitKind, secondary: DiffExitKind },
}

/// How one side of a differential run finished.
#[derive(Clone, Copy, PartialEq, Eq, Structural, Debug)]
pub enum DiffExitKind {
    /// The run exited normally.
    Normal,
    /// The run crashed the target.
    Crash,
    /// The run exhausted the memory.
    Oom,
    /// The run timed out.
    Timeout,
    /// The side was itself a differential run whose sides disagreed.
    Diff,
}

/// The summary of an exit kind that a differential report keeps for one side.
pub open spec fn diff_exit_kind(kind: ExitKind) -> DiffExitKind {
    match kind {
        ExitKind::Normal => DiffExitKind::Normal,
        ExitKind::Crash => DiffExitKind::Crash,
        ExitKind::Oom => DiffExitKind::Oom,
        ExitKind::Timeout => DiffExitKind::Timeout,
        ExitKind::Diff { .. } => DiffExitKind::Diff,
    }
}

impl From<ExitKind> for DiffExitKind {
    fn from(kind: ExitKind) -> (side: DiffExitKind) {
        match kind {
            ExitKind::Normal => DiffExitKind::Normal,
            ExitKind::Crash => DiffExitKind::Crash,
            ExitKind::Oom => DiffExitKind::Oom,
            ExitKind::Timeout => DiffExitKind::Timeout,
            ExitKind::Diff { .. } => DiffExitKind::Diff,
        }
    }
}

impl vstd::std_specs::convert::FromSpecImpl<ExitKind> for DiffExitKind {
    open spec fn obeys_from_spec() -> bool {
        true
    }

    open spec fn from_spec(kind: ExitKind) -> DiffExitKind {
        diff_exit_kind(kind)
    }
}

/// Something that runs a target on an input.
///
/// An implementation chooses `may_run` and `may_reset`, the relations that its runs and
/// resets keep to. One that chooses none promises nothing.
pub trait Executor<EM, I, S, Z>: Sized {
    /// Whether a run on `input` may turn the executor, the fuzzer, the state and the event
    /// manager into those after it, and return `result`.
    open spec fn may_run(
        before: Self,
        fuzzer: Z,
        state: S,
        mgr: EM,
        input: I,
        after: Self,
        fuzzer_after: Z,
        state_after: S,
        mgr_after: EM,
        result: Result<ExitKind, Error>,
    ) -> bool {
        true
    }

    /// Whether a reset may turn `before` into `after`.
    open spec fn may_reset(before: Self, after: Self) -> bool {
        true
    }

    /// Runs the target on `input`.
    fn run_target(&mut self, fuzzer: &mut Z, state: &mut S, mgr: &mut EM, input: &I) -> (result:
        Result<ExitKind, Error>)
        ensures
            Self::may_run(
                *old(self),
                *old(fuzzer),
                *old(state),
                *old(mgr),
                *input,
                *final(self),
                *final(fuzzer),
                *final(state),
                *final(mgr),
                result,
            ),
    ;

    /// Prepares the executor for its next run.
    fn post_run_reset(&mut self)
        ensures
            Self::may_reset(*old(self), *final(self)),
    ;
}

/// The summary of an exit kind has the same name, and one of a difference says only that it is
/// one.
pub proof fn law_summary(kind: ExitKind, side: DiffExitKind)
    requires
        call_ensures(<DiffExitKind as From<ExitKind>>::from, (kind,), side),
    ensures
        side == diff_exit_kind(kind),
        kind == ExitKind::Normal <==> side == DiffExitKind::Normal,
        kind == ExitKind::Crash <==> side == DiffExitKind::Crash,
        kind == ExitKind::Oom <==> side == DiffExitKind::Oom,
        kind == ExitKind::Timeout <==> side == DiffExitKind::Timeout,
        kind is Diff <==> side == DiffExitKind::Diff,
{
}

/// The summary of each exit kind.
pub proof fn law_summary_of_kinds(primary: DiffExitKind, secondary: DiffExitKind)
    ensures
        diff_exit_kind(ExitKind::Normal) == DiffExitKind::Normal,
        diff_exit_kind(ExitKind::Crash) == DiffExitKind::Crash,
        diff_exit_kind(ExitKind::Oom) == DiffExitKind::Oom,
        diff_exit_kind(ExitKind::Timeout) == DiffExitKind::Timeout,
        diff_exit_kind(ExitKind::Diff { primary, secondary }) == DiffExitKind::Diff,
{
}

} // verus!
