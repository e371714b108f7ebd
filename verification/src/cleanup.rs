//! The cleanup pass: which removals it asks for, what it reports, and when
//! it runs.

use crate::span::Span;
use crate::storage::filesystem::Kind;
use crate::storage::filesystem::Scope;
use crate::storage::StorageError;
use crate::upstream::InvalidationConfig;
use vstd::prelude::*;

verus! {

/// Seconds from the start of one cleanup pass to the start of the next.
pub const PERIOD_SECS: u64 = 300;

/// One removal of a cleanup pass: the objects within `scope` that are
/// older than `max_age`.
#[derive(Debug)]
pub struct Task {
    pub scope: Kind,
    pub max_age: Span,
}

/// The removals of one cleanup pass: first the blobs, with their one
/// window, then the manifests of each namespace, with the window of the
/// namespace.
pub fn tasks(upstream: &InvalidationConfig) -> (tasks: Vec<Task>)
    ensures
        tasks@.len() == upstream.manifests@.len() + 1,
        tasks@[0].scope@ == Scope::Blobs,
        tasks@[0].max_age == upstream.blob,
        forall|i: int|
            0 <= i < upstream.manifests@.len() ==> (#[trigger] tasks@[i + 1]).scope@
                == Scope::Manifests(upstream.manifests@[i].0@) && tasks@[i + 1].max_age
                == upstream.manifests@[i].1,
{
    let mut tasks: Vec<Task> = Vec::new();
    tasks.push(Task { scope: Kind::Blob, max_age: upstream.blob });
    let mut i: usize = 0;
    while i < upstream.manifests.len()
        invariant
            i <= upstream.manifests@.len(),
            tasks@.len() == i + 1,
            tasks@[0].scope@ == Scope::Blobs,
            tasks@[0].max_age == upstream.blob,
            forall|k: int|
                0 <= k < i ==> (#[trigger] tasks@[k + 1]).scope@ == Scope::Manifests(
                    upstream.manifests@[k].0@,
                ) && tasks@[k + 1].max_age == upstream.manifests@[k].1,
        decreases upstream.manifests.len() - i,
    {
        let entry = &upstream.manifests[i];
        tasks.push(Task { scope: Kind::Manifest(entry.0.clone()), max_age: entry.1 });
        i += 1;
    }
    tasks
}

/// The number of objects that the removals of a pass took away: a removal
/// that succeeded counts with the number it reports, one that failed counts
/// with nothing.
pub open spec fn removed(outcomes: Seq<Result<usize, StorageError>>) -> nat
    decreases outcomes.len(),
{
    if outcomes.len() == 0 {
        0
    } else {
        removed(outcomes.drop_last()) + match outcomes.last() {
            Ok(count) => count as nat,
            Err(_) => 0,
        }
    }
}

/// The number of removals of a pass that failed.
pub open spec fn failures(outcomes: Seq<Result<usize, StorageError>>) -> nat
    decreases outcomes.len(),
{
    if outcomes.len() == 0 {
        0
    } else {
        failures(outcomes.drop_last()) + match outcomes.last() {
            Ok(_) => 0nat,
            Err(_) => 1nat,
        }
    }
}

/// How loud the report of a pass is.
#[derive(Clone, Copy, Debug, PartialEq, Eq, Structural)]
pub enum Level {
    /// Nothing was removed.
    Info,
    /// Objects were removed, and may have to be fetched again.
    Warn,
}

/// What a cleanup pass did.
#[derive(Debug)]
pub struct Report {
    /// The number of objects removed, by all removals that succeeded. A
    /// number beyond `usize::MAX` is reported as `usize::MAX`.
    pub removed: usize,
    /// The number of removals that failed.
    pub failed: usize,
    /// How loud the report is.
    pub level: Level,
}

/// Sums up a cleanup pass from the outcomes of its removals. A removal
/// that failed takes nothing from the others: it adds nothing to the number
/// of objects removed and one to the number of failures.
pub fn cleanup(outcomes: &Vec<Result<usize, StorageError>>) -> (report: Report)
    ensures
        report.removed == if removed(outcomes@) <= usize::MAX {
            removed(outcomes@)
        } else {
            usize::MAX as nat
        },
        report.failed == failures(outcomes@),
        report.level == if removed(outcomes@) > 0 {
            Level::Warn
        } else {
            Level::Info
        },
{
    let mut total: usize = 0;
    let mut failed: usize = 0;
    let mut i: usize = 0;
    assert(outcomes@.take(0) =~= Seq::<Result<usize, StorageError>>::empty());
    while i < outcomes.len()
        invariant
            i <= outcomes.len(),
            failed == failures(outcomes@.take(i as int)),
            failed <= i,
            total == if removed(outcomes@.take(i as int)) <= usize::MAX {
                removed(outcomes@.take(i as int))
            } else {
                usize::MAX as nat
            },
        decreases outcomes.len() - i,
    {
        proof {
            assert(outcomes@.take(i + 1).drop_last() =~= outcomes@.take(i as int));
            assert(outcomes@.take(i + 1).last() == outcomes@[i as int]);
        }
        match &outcomes[i] {
            Ok(count) => {
                total = total.saturating_add(*count);
            },
            Err(_) => {
                failed += 1;
            },
        }
        i += 1;
    }
    assert(outcomes@.take(outcomes.len() as int) =~= outcomes@);
    let level = if total > 0 {
        Level::Warn
    } else {
        Level::Info
    };
    Report { removed: total, failed, level }
}

/// Where the scheduler of the cleanup pass stands.
#[derive(Clone, Copy, Debug, PartialEq, Eq, Structural)]
pub enum Phase {
    /// No pass is running; the scheduler waits for the timer or for the end
    /// of the process.
    Idle,
    /// A pass is running.
    Running,
    /// A pass is running, and the process is to end once it is done.
    Draining,
    /// The scheduler has ended.
    Stopped,
}

/// What happened.
#[derive(Clone, Copy, Debug, PartialEq, Eq, Structural)]
pub enum Signal {
    /// The timer fired.
    Tick,
    /// The pass that was running is done.
    Finished,
    /// The process is to end.
    Shutdown,
}

/// What the scheduler asks for.
#[derive(Clone, Copy, Debug, PartialEq, Eq, Structural)]
pub enum Command {
    /// Wait for the timer or for the end of the process.
    Wait,
    /// Run a pass now.
    Run,
    /// Let the pass that is running go on.
    Continue,
    /// Leave.
    Exit,
}

/// The phase that follows `phase` on `signal`, and what the scheduler asks
/// for then.
///
/// A pass starts on a tick and on nothing else. While it runs, ticks are
/// let go and the end of the process is noted, but the pass goes on: only
/// its own end leads out of `Running` and `Draining`.
pub open spec fn next(phase: Phase, signal: Signal) -> (Phase, Command) {
    match (phase, signal) {
        (Phase::Idle, Signal::Tick) => (Phase::Running, Command::Run),
        (Phase::Idle, Signal::Finished) => (Phase::Idle, Command::Wait),
        (Phase::Idle, Signal::Shutdown) => (Phase::Stopped, Command::Exit),
        (Phase::Running, Signal::Tick) => (Phase::Running, Command::Continue),
        (Phase::Running, Signal::Finished) => (Phase::Idle, Command::Wait),
        (Phase::Running, Signal::Shutdown) => (Phase::Draining, Command::Continue),
        (Phase::Draining, Signal::Finished) => (Phase::Stopped, Command::Exit),
        (Phase::Draining, _) => (Phase::Draining, Command::Continue),
        (Phase::Stopped, _) => (Phase::Stopped, Command::Exit),
    }
}

impl Phase {
    /// The phase in which the scheduler starts: it waits for the first tick.
    pub fn start() -> (phase: Phase)
        ensures
            phase == Phase::Idle,
    {
        Phase::Idle
    }

    /// Whether a pass is running in this phase.
    pub open spec fn in_flight(self) -> bool {
        self == Phase::Running || self == Phase::Draining
    }

    /// Takes in `signal`: the phase that follows, and what to do now.
    pub fn step(self, signal: Signal) -> (then: (Phase, Command))
        ensures
            then == next(self, signal),
    {
        match (self, signal) {
            (Phase::Idle, Signal::Tick) => (Phase::Running, Command::Run),
            (Phase::Idle, Signal::Finished) => (Phase::Idle, Command::Wait),
            (Phase::Idle, Signal::Shutdown) => (Phase::Stopped, Command::Exit),
            (Phase::Running, Signal::Tick) => (Phase::Running, Command::Continue),
            (Phase::Running, Signal::Finished) => (Phase::Idle, Command::Wait),
            (Phase::Running, Signal::Shutdown) => (Phase::Draining, Command::Continue),
            (Phase::Draining, Signal::Finished) => (Phase::Stopped, Command::Exit),
            (Phase::Draining, _) => (Phase::Draining, Command::Continue),
            (Phase::Stopped, _) => (Phase::Stopped, Command::Exit),
        }
    }
}

/// The phase that the scheduler is in after the given signals, taken in one
/// after the other from `phase`.
pub open spec fn phase_after(phase: Phase, signals: Seq<Signal>) -> Phase
    decreases signals.len(),
{
    if signals.len() == 0 {
        phase
    } else {
        next(phase_after(phase, signals.drop_last()), signals.last()).0
    }
}

/// Whether the process has been told to end in this phase.
pub open spec fn ending(phase: Phase) -> bool {
    phase == Phase::Draining || phase == Phase::Stopped
}

/// A removal that failed adds nothing to the number of objects removed,
/// and the removals around it count as they would without it.
pub proof fn lemma_failure_counts_as_nothing(
    before: Seq<Result<usize, StorageError>>,
    failure: StorageError,
    after: Seq<Result<usize, StorageError>>,
)
    ensures
        removed(before + seq![Err(failure)] + after) == removed(before + after),
        failures(before + seq![Err(failure)] + after) == failures(before + after) + 1,
    decreases after.len(),
{
    let with = before + seq![Err(failure)] + after;
    let without = before + after;
    if after.len() == 0 {
        assert(with.drop_last() =~= before);
        assert(without =~= before);
    } else {
        assert(with.drop_last() =~= before + seq![Err(failure)] + after.drop_last());
        assert(without.drop_last() =~= before + after.drop_last());
        assert(with.last() == after.last());
        assert(without.last() == after.last());
        lemma_failure_counts_as_nothing(before, failure, after.drop_last());
    }
}

/// A pass starts on a tick while the scheduler is idle, and on nothing
/// else: not before the first tick, not while a pass runs, and not once the
/// process has been told to end.
pub proof fn lemma_pass_starts_on_tick_only(phase: Phase, signal: Signal)
    ensures
        next(phase, signal).1 == Command::Run <==> phase == Phase::Idle && signal == Signal::Tick,
{
}

/// A pass is never abandoned: while it runs, whatever signals arrive, the
/// scheduler neither leaves nor starts another pass until the pass itself is
/// done.
pub proof fn lemma_pass_runs_to_its_end(phase: Phase, signals: Seq<Signal>)
    requires
        phase.in_flight(),
        forall|i: int| 0 <= i < signals.len() ==> signals[i] != Signal::Finished,
    ensures
        phase_after(phase, signals).in_flight(),
        forall|signal: Signal|
            signal != Signal::Finished ==> next(phase_after(phase, signals), signal).1
                == Command::Continue,
    decreases signals.len(),
{
    if signals.len() > 0 {
        assert(signals.last() == signals[signals.len() - 1]);
        lemma_pass_runs_to_its_end(phase, signals.drop_last());
    }
}

/// Once the process has been told to end, no pass is started any more, and
/// the scheduler has ended as soon as no pass is running.
pub proof fn lemma_shutdown_is_final(phase: Phase, signals: Seq<Signal>)
    requires
        ending(phase),
    ensures
        ending(phase_after(phase, signals)),
        forall|signal: Signal| next(phase_after(phase, signals), signal).1 != Command::Run,
        !phase_after(phase, signals).in_flight() ==> phase_after(phase, signals)
            == Phase::Stopped,
    decreases signals.len(),
{
    if signals.len() > 0 {
        lemma_shutdown_is_final(phase, signals.drop_last());
    }
}

/// The end of the process is noticed at once: told to end, an idle
/// scheduler leaves, and one that runs a pass leaves when the pass is done.
pub proof fn lemma_shutdown_is_noticed(phase: Phase)
    ensures
        ending(next(phase, Signal::Shutdown).0),
        phase == Phase::Idle ==> next(phase, Signal::Shutdown) == (Phase::Stopped, Command::Exit),
        phase == Phase::Running ==> next(next(phase, Signal::Shutdown).0, Signal::Finished) == (
            Phase::Stopped,
            Command::Exit,
        ),
{
}

} // verus!
