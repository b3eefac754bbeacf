//! What a run's end means for the program: go on waiting or stop.
//!
//! The caller owns the loop. It waits for a notice that the dump has changed,
//! runs the extraction, carries out the plan and tells this module how that
//! went. The module answers what comes next.

use crate::error::ExtractError;
use vstd::prelude::*;

verus! {

/// Whether the program runs once or keeps watching the dump.
#[derive(Debug, Clone, Copy, PartialEq, Eq, Structural)]
pub enum RunMode {
    SingleShot,
    Watch,
}

/// The kinds of failure of a run.
#[derive(Debug, Clone, Copy, PartialEq, Eq, Structural)]
pub enum FailureKind {
    /// The dump could not be opened or read.
    InputUnavailable,
    /// The dump lacks a count or holds something else where a number
    /// belongs, or its player pattern was rejected.
    MalformedInput,
    /// A declared player lacks a field of the fixed schema.
    MissingField,
    /// The output directory, the staging file or the move to the permanent
    /// name failed.
    OutputUnavailable,
}

/// How a run ended.
#[derive(Debug, Clone, Copy, PartialEq, Eq, Structural)]
pub enum RunOutcome {
    /// A new snapshot was promoted.
    Promoted,
    /// The text was staged and equals the latest snapshot.
    Unchanged,
    /// The dump describes no finished match.
    NoMatchData,
    /// The run was given up.
    Failed(FailureKind),
}

/// What the dump's watcher reported.
#[derive(Debug, Clone, Copy, PartialEq, Eq, Structural)]
pub enum WatchEvent {
    /// The dump has changed.
    Changed,
    /// The watcher reported an error of its own.
    WatchFailed,
}

/// What the program does next.
#[derive(Debug, Clone, Copy, PartialEq, Eq, Structural)]
pub enum NextStep {
    /// Run the extraction now.
    Run,
    /// Report the watcher's error and wait for the next notice.
    ReportAndWait,
    /// Wait for the next notice.
    Wait,
    /// Stop, with the given exit code.
    Exit { code: u8 },
}

/// The kind of failure that an extraction error is.
pub open spec fn failure_kind_of(e: ExtractError) -> FailureKind {
    match e {
        ExtractError::MalformedInput { .. } => FailureKind::MalformedInput,
        ExtractError::MissingField { .. } => FailureKind::MissingField,
        ExtractError::PatternRejected => FailureKind::MalformedInput,
    }
}

/// Tells the kind of failure of an extraction error.
pub fn failure_kind(e: &ExtractError) -> (kind: FailureKind)
    ensures
        kind == failure_kind_of(*e),
{
    match e {
        ExtractError::MalformedInput { .. } => FailureKind::MalformedInput,
        ExtractError::MissingField { .. } => FailureKind::MissingField,
        ExtractError::PatternRejected => FailureKind::MalformedInput,
    }
}

/// The first step of the program: one run at once, or waiting.
pub open spec fn first_step_of(mode: RunMode) -> NextStep {
    match mode {
        RunMode::SingleShot => NextStep::Run,
        RunMode::Watch => NextStep::Wait,
    }
}

/// The step after a notice from the watcher: a change starts one run, an
/// error of the watcher is reported and starts none.
pub open spec fn step_on_event(event: WatchEvent) -> NextStep {
    match event {
        WatchEvent::Changed => NextStep::Run,
        WatchEvent::WatchFailed => NextStep::ReportAndWait,
    }
}

/// The step after a run. A single run ends the program: with code 0 unless
/// it failed, with code 1 if it did. While watching, no outcome ends the
/// program: a failure costs the one run only.
pub open spec fn step_after_run(mode: RunMode, outcome: RunOutcome) -> NextStep {
    match mode {
        RunMode::Watch => NextStep::Wait,
        RunMode::SingleShot => match outcome {
            RunOutcome::Failed(_) => NextStep::Exit { code: 1 },
            _ => NextStep::Exit { code: 0 },
        },
    }
}

/// The first step of the program.
pub fn first_step(mode: RunMode) -> (step: NextStep)
    ensures
        step == first_step_of(mode),
{
    match mode {
        RunMode::SingleShot => NextStep::Run,
        RunMode::Watch => NextStep::Wait,
    }
}

/// The step after a notice from the watcher.
pub fn on_watch_event(event: WatchEvent) -> (step: NextStep)
    ensures
        step == step_on_event(event),
{
    match event {
        WatchEvent::Changed => NextStep::Run,
        WatchEvent::WatchFailed => NextStep::ReportAndWait,
    }
}

/// The step after a run.
pub fn after_run(mode: RunMode, outcome: RunOutcome) -> (step: NextStep)
    ensures
        step == step_after_run(mode, outcome),
{
    match mode {
        RunMode::Watch => NextStep::Wait,
        RunMode::SingleShot => match outcome {
            RunOutcome::Failed(_) => NextStep::Exit { code: 1 },
            _ => NextStep::Exit { code: 0 },
        },
    }
}

/// While watching, the program never stops of its own accord, and each
/// notice of a change starts exactly one run.
pub proof fn lemma_watching_never_exits(outcome: RunOutcome, event: WatchEvent)
    ensures
        !(step_after_run(RunMode::Watch, outcome) is Exit),
        !(step_on_event(event) is Exit),
        step_on_event(event) is Run <==> event is Changed,
{
}

} // verus!
