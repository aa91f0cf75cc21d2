//! The background sweeps that keep the cache and the set of dirty marks from growing.
//!
//! An [`EvictionTask`] decides what is done next; waiting, and the work on the cache, is done
//! outside, and what came of it is handed back as an [`EvictionEvent`].

use vstd::prelude::*;

verus! {

/// How far the current sweep has come.
#[derive(Clone, Copy, Debug, PartialEq, Eq, Structural)]
pub enum SweepPhase {
    /// The next tick is awaited.
    Waiting,
    /// Expired entries are being removed from the cache.
    Evicting,
    /// The entries that the cache now holds are being counted.
    Measuring { removed: u64 },
    /// Their number is being recorded.
    RecordingSize { removed: u64 },
    /// Stale dirty marks are being removed.
    Pruning { removed: u64 },
    /// The outcome is being logged.
    Reporting,
}

/// The background task: how long a dirty mark may stay, and how far the sweep has come.
#[derive(Clone, Copy, Debug, PartialEq, Eq, Structural)]
pub struct EvictionTask {
    pub dirty_ttl_seconds: u64,
    pub phase: SweepPhase,
}

/// What came of an action.
#[derive(Clone, Copy, Debug, PartialEq, Eq, Structural)]
pub enum EvictionEvent {
    /// The interval has passed.
    Ticked,
    /// So many expired entries were removed from the cache.
    Evicted(u64),
    /// The cache holds so many entries.
    Measured(usize),
    /// The size of the cache was recorded.
    SizeRecorded,
    /// So many stale dirty marks were removed.
    Pruned(u64),
    /// The outcome was logged.
    Reported,
}

/// What is to be done next.
#[derive(Clone, Copy, Debug, PartialEq, Eq, Structural)]
pub enum EvictionAction {
    /// Wait for the next tick.
    AwaitTick,
    /// Remove the expired entries from the cache.
    EvictExpired,
    /// Count the entries that the cache holds.
    MeasureCache,
    /// Record this as the number of entries that the cache holds.
    RecordSize { size: usize },
    /// Remove the dirty marks that are older than this.
    PruneDirty { older_than_seconds: u64 },
    /// Log how much was removed.
    Report { removed: u64, pruned: u64 },
}

impl EvictionTask {
    /// The task in another phase.
    pub open spec fn at(self, phase: SweepPhase) -> EvictionTask {
        EvictionTask { phase, ..self }
    }

    /// Where the task stands after `event` and what is to be done next, or `None` where the
    /// event cannot come at this point. A sweep in which nothing was removed is not reported.
    pub open spec fn after(self, event: EvictionEvent) -> Option<(EvictionTask, EvictionAction)> {
        match (self.phase, event) {
            (SweepPhase::Waiting, EvictionEvent::Ticked) => Some(
                (self.at(SweepPhase::Evicting), EvictionAction::EvictExpired),
            ),
            (SweepPhase::Evicting, EvictionEvent::Evicted(removed)) => Some(
                (self.at(SweepPhase::Measuring { removed }), EvictionAction::MeasureCache),
            ),
            (SweepPhase::Measuring { removed }, EvictionEvent::Measured(size)) => Some(
                (
                    self.at(SweepPhase::RecordingSize { removed }),
                    EvictionAction::RecordSize { size },
                ),
            ),
            (SweepPhase::RecordingSize { removed }, EvictionEvent::SizeRecorded) => Some(
                (
                    self.at(SweepPhase::Pruning { removed }),
                    EvictionAction::PruneDirty { older_than_seconds: self.dirty_ttl_seconds },
                ),
            ),
            (SweepPhase::Pruning { removed }, EvictionEvent::Pruned(pruned)) => if removed > 0
                || pruned > 0 {
                Some(
                    (
                        self.at(SweepPhase::Reporting),
                        EvictionAction::Report { removed, pruned },
                    ),
                )
            } else {
                Some((self.at(SweepPhase::Waiting), EvictionAction::AwaitTick))
            },
            (SweepPhase::Reporting, EvictionEvent::Reported) => Some(
                (self.at(SweepPhase::Waiting), EvictionAction::AwaitTick),
            ),
            _ => None,
        }
    }

    /// How the background task begins, or `None` where the interval turns it off.
    pub open spec fn started(interval_seconds: u64, dirty_ttl_seconds: u64) -> Option<
        (EvictionTask, EvictionAction),
    > {
        if interval_seconds == 0 {
            None
        } else {
            Some(
                (
                    EvictionTask { dirty_ttl_seconds, phase: SweepPhase::Waiting },
                    EvictionAction::AwaitTick,
                ),
            )
        }
    }

    /// Begins the background task: the first tick is awaited. `None` where the interval is
    /// zero, which turns the sweeps off.
    pub fn start(interval_seconds: u64, dirty_ttl_seconds: u64) -> (res: Option<
        (EvictionTask, EvictionAction),
    >)
        ensures
            res == Self::started(interval_seconds, dirty_ttl_seconds),
            res == if interval_seconds == 0 {
                None
            } else {
                Some(
                    (
                        (EvictionTask { dirty_ttl_seconds, phase: SweepPhase::Waiting }),
                        EvictionAction::AwaitTick,
                    ),
                )
            },
    {
        if interval_seconds == 0 {
            return None;
        }
        Some(
            (
                EvictionTask { dirty_ttl_seconds, phase: SweepPhase::Waiting },
                EvictionAction::AwaitTick,
            ),
        )
    }

    /// Takes what came of the last action, and returns where the task stands now and what is
    /// to be done next. `None` where the event cannot come at this point.
    pub fn step(self, event: EvictionEvent) -> (res: Option<(EvictionTask, EvictionAction)>)
        ensures
            res == self.after(event),
    {
        let ttl: u64 = self.dirty_ttl_seconds;
        let (phase, action): (SweepPhase, EvictionAction) = match (self.phase, event) {
            (SweepPhase::Waiting, EvictionEvent::Ticked) => (
                SweepPhase::Evicting,
                EvictionAction::EvictExpired,
            ),
            (SweepPhase::Evicting, EvictionEvent::Evicted(removed)) => (
                SweepPhase::Measuring { removed },
                EvictionAction::MeasureCache,
            ),
            (SweepPhase::Measuring { removed }, EvictionEvent::Measured(size)) => (
                SweepPhase::RecordingSize { removed },
                EvictionAction::RecordSize { size },
            ),
            (SweepPhase::RecordingSize { removed }, EvictionEvent::SizeRecorded) => (
                SweepPhase::Pruning { removed },
                EvictionAction::PruneDirty { older_than_seconds: ttl },
            ),
            (SweepPhase::Pruning { removed }, EvictionEvent::Pruned(pruned)) => if removed > 0
                || pruned > 0 {
                (SweepPhase::Reporting, EvictionAction::Report { removed, pruned })
            } else {
                (SweepPhase::Waiting, EvictionAction::AwaitTick)
            },
            (SweepPhase::Reporting, EvictionEvent::Reported) => (
                SweepPhase::Waiting,
                EvictionAction::AwaitTick,
            ),
            _ => return None,
        };
        Some((EvictionTask { dirty_ttl_seconds: ttl, phase }, action))
    }
}

/// What a task comes to through a row of events, or `None` where one of them cannot come.
pub open spec fn run(task: EvictionTask, events: Seq<EvictionEvent>) -> Option<EvictionTask>
    decreases events.len(),
{
    if events.len() == 0 {
        Some(task)
    } else {
        match run(task, events.drop_last()) {
            Some(before) => match before.after(events.last()) {
                Some((next, _)) => Some(next),
                None => None,
            },
            None => None,
        }
    }
}

/// Every sweep removes expired entries, then counts those that are left and records their
/// number, whether or not any was removed, then removes the dirty marks older than the configured time, then reports where anything was removed, and
/// then waits for the next tick.
pub proof fn law_sweep(task: EvictionTask, removed: u64, size: usize, pruned: u64)
    requires
        task.phase == SweepPhase::Waiting,
    ensures
        ({
            let evicting = task.at(SweepPhase::Evicting);
            let measuring = task.at(SweepPhase::Measuring { removed });
            let recording = task.at(SweepPhase::RecordingSize { removed });
            let pruning = task.at(SweepPhase::Pruning { removed });
            let reporting = task.at(SweepPhase::Reporting);
            let ttl = task.dirty_ttl_seconds;
            &&& task.after(EvictionEvent::Ticked) == Some((evicting, EvictionAction::EvictExpired))
            &&& evicting.after(EvictionEvent::Evicted(removed)) == Some(
                (measuring, EvictionAction::MeasureCache),
            )
            &&& measuring.after(EvictionEvent::Measured(size)) == Some(
                (recording, EvictionAction::RecordSize { size }),
            )
            &&& recording.after(EvictionEvent::SizeRecorded) == Some(
                (pruning, EvictionAction::PruneDirty { older_than_seconds: ttl }),
            )
            &&& if removed == 0 && pruned == 0 {
                pruning.after(EvictionEvent::Pruned(pruned)) == Some(
                    (task, EvictionAction::AwaitTick),
                )
            } else {
                &&& pruning.after(EvictionEvent::Pruned(pruned)) == Some(
                    (reporting, EvictionAction::Report { removed, pruned }),
                )
                &&& reporting.after(EvictionEvent::Reported) == Some(
                    (task, EvictionAction::AwaitTick),
                )
            }
        }),
{
}

/// In a sweep over a cache of `before` entries that nobody else uses meanwhile, so that the
/// count gives what the eviction left, the size that is recorded is the number of entries
/// that are left: not the number before, and not the number removed. It is recorded also
/// where nothing was removed.
pub proof fn law_recorded_size_is_what_is_left(
    task: EvictionTask,
    before: nat,
    removed: u64,
    counted: usize,
)
    requires
        task.phase == SweepPhase::Waiting,
        counted == before - removed,
    ensures
        ({
            let evicted = run(task, seq![EvictionEvent::Ticked, EvictionEvent::Evicted(removed)]);
            &&& evicted is Some
            &&& evicted->0.after(EvictionEvent::Measured(counted)) matches Some(
                (_, EvictionAction::RecordSize { size }),
            )
            &&& size == before - removed
        }),
{
    let events = seq![EvictionEvent::Ticked, EvictionEvent::Evicted(removed)];
    reveal_with_fuel(run, 3);
    assert(events.drop_last() =~= seq![EvictionEvent::Ticked]);
    assert(events.drop_last().drop_last() =~= Seq::empty());
}

/// A size is recorded only right after it was counted, and nothing but the count is recorded:
/// in every run, the event before is the count, and the one before that the eviction.
pub proof fn law_only_counts_are_recorded(
    task: EvictionTask,
    events: Seq<EvictionEvent>,
    last: EvictionEvent,
    size: usize,
)
    requires
        task.phase == SweepPhase::Waiting,
        run(task, events) matches Some(reached) && reached.after(last) matches Some(
            (_, EvictionAction::RecordSize { size: recorded }),
        ) && recorded == size,
    ensures
        last == EvictionEvent::Measured(size),
        events.len() > 0 && events.last() is Evicted,
{
    if events.len() > 0 {
        assert(run(task, events.drop_last()) is Some);
    }
}

/// The task never ends: at every point some event is awaited.
pub proof fn law_never_ends(task: EvictionTask)
    ensures
        exists|event: EvictionEvent| #[trigger] task.after(event) is Some,
{
    let event = match task.phase {
        SweepPhase::Waiting => EvictionEvent::Ticked,
        SweepPhase::Evicting => EvictionEvent::Evicted(0),
        SweepPhase::Measuring { .. } => EvictionEvent::Measured(0),
        SweepPhase::RecordingSize { .. } => EvictionEvent::SizeRecorded,
        SweepPhase::Pruning { .. } => EvictionEvent::Pruned(0),
        SweepPhase::Reporting => EvictionEvent::Reported,
    };
    assert(task.after(event) is Some);
}

/// However long the task runs, it keeps the time that a dirty mark may stay, and that is the
/// time that it prunes by.
pub proof fn law_ttl_is_kept(
    task: EvictionTask,
    events: Seq<EvictionEvent>,
    last: EvictionEvent,
)
    ensures
        run(task, events) matches Some(reached) ==> {
            &&& reached.dirty_ttl_seconds == task.dirty_ttl_seconds
            &&& reached.after(last) matches Some(
                (_, EvictionAction::PruneDirty { older_than_seconds }),
            ) ==> older_than_seconds == task.dirty_ttl_seconds
        },
    decreases events.len(),
{
    if events.len() > 0 {
        law_ttl_is_kept(task, events.drop_last(), events.last());
    }
}

/// What each event leads to in each phase, over all tasks: which event is taken, what is to
/// be done then, with which numbers, and that nothing of the task but its phase changes.
pub proof fn law_each_event(task: EvictionTask, event: EvictionEvent)
    ensures
        task.after(event) is Some <==> {
            ||| task.phase is Waiting && event is Ticked
            ||| task.phase is Evicting && event is Evicted
            ||| task.phase is Measuring && event is Measured
            ||| task.phase is RecordingSize && event is SizeRecorded
            ||| task.phase is Pruning && event is Pruned
            ||| task.phase is Reporting && event is Reported
        },
        task.after(event) matches Some((next, action)) ==> {
            &&& next.dirty_ttl_seconds == task.dirty_ttl_seconds
            &&& event is Ticked ==> next.phase is Evicting && action is EvictExpired
            &&& event matches EvictionEvent::Evicted(removed) ==> next.phase
                == SweepPhase::Measuring { removed } && action is MeasureCache
            &&& event matches EvictionEvent::Measured(size) ==> next.phase is RecordingSize
                && next.phase->RecordingSize_removed == task.phase->Measuring_removed && action
                == EvictionAction::RecordSize { size }
            &&& event is SizeRecorded ==> next.phase is Pruning && next.phase->Pruning_removed
                == task.phase->RecordingSize_removed && action is PruneDirty
                && action->older_than_seconds == task.dirty_ttl_seconds
            &&& event matches EvictionEvent::Pruned(pruned) ==> {
                let removed = task.phase->Pruning_removed;
                if removed == 0 && pruned == 0 {
                    next.phase is Waiting && action is AwaitTick
                } else {
                    next.phase is Reporting && action == EvictionAction::Report {
                        removed,
                        pruned,
                    }
                }
            }
            &&& event is Reported ==> next.phase is Waiting && action is AwaitTick
        },
{
}

/// The sweeps are off exactly where the interval is zero, whatever the time that a dirty mark
/// may stay; else the task begins by waiting for a tick, with that time as it is given.
pub proof fn law_start(interval_seconds: u64, dirty_ttl_seconds: u64)
    ensures
        EvictionTask::started(interval_seconds, dirty_ttl_seconds) is None <==> interval_seconds
            == 0,
        EvictionTask::started(interval_seconds, dirty_ttl_seconds) matches Some((task, action)) ==> {
            &&& task.dirty_ttl_seconds == dirty_ttl_seconds
            &&& task.phase is Waiting
            &&& action is AwaitTick
        },
{
}

} // verus!
