use mcp_cache_ci::eviction::{EvictionAction, EvictionEvent, EvictionTask, SweepPhase};

fn step(task: EvictionTask, event: EvictionEvent) -> (EvictionTask, EvictionAction) {
    task.step(event).unwrap()
}

fn sweep(removed: u64, pruned: u64) -> (EvictionTask, EvictionAction) {
    let (task, action) = EvictionTask::start(30, 600).unwrap();
    assert_eq!(action, EvictionAction::AwaitTick);
    assert_eq!(task.phase, SweepPhase::Waiting);
    let (task, action) = step(task, EvictionEvent::Ticked);
    assert_eq!(action, EvictionAction::EvictExpired);
    let (task, action) = step(task, EvictionEvent::Evicted(removed));
    assert_eq!(action, EvictionAction::MeasureCache);
    let (task, action) = step(task, EvictionEvent::Measured(12));
    assert_eq!(action, EvictionAction::RecordSize { size: 12 });
    let (task, action) = step(task, EvictionEvent::SizeRecorded);
    assert_eq!(action, EvictionAction::PruneDirty { older_than_seconds: 600 });
    step(task, EvictionEvent::Pruned(pruned))
}

#[test]
fn zero_interval_turns_sweeps_off() {
    assert_eq!(EvictionTask::start(0, 600), None);
    assert!(EvictionTask::start(1, 0).is_some());
}

#[test]
fn empty_sweep_is_not_reported() {
    let (task, action) = sweep(0, 0);
    assert_eq!(action, EvictionAction::AwaitTick);
    assert_eq!(task, EvictionTask::start(30, 600).unwrap().0);
}

#[test]
fn sweep_that_removed_something_is_reported() {
    for (removed, pruned) in [(1, 0), (0, 1), (2, 3)] {
        let (task, action) = sweep(removed, pruned);
        assert_eq!(action, EvictionAction::Report { removed, pruned });
        let (task, action) = step(task, EvictionEvent::Reported);
        assert_eq!(action, EvictionAction::AwaitTick);
        assert_eq!(task, EvictionTask::start(30, 600).unwrap().0);
    }
}

#[test]
fn sweeps_follow_each_other() {
    let (mut task, _) = EvictionTask::start(1, 7).unwrap();
    for round in 0..100u64 {
        task = step(task, EvictionEvent::Ticked).0;
        task = step(task, EvictionEvent::Evicted(round % 2)).0;
        let (next, action) = step(task, EvictionEvent::Measured(round as usize));
        assert_eq!(action, EvictionAction::RecordSize { size: round as usize });
        task = next;
        let (next, action) = step(task, EvictionEvent::SizeRecorded);
        assert_eq!(action, EvictionAction::PruneDirty { older_than_seconds: 7 });
        let (next, action) = step(next, EvictionEvent::Pruned(0));
        task = if action == EvictionAction::AwaitTick {
            next
        } else {
            step(next, EvictionEvent::Reported).0
        };
        assert_eq!(task.phase, SweepPhase::Waiting);
    }
}

#[test]
fn eviction_events_out_of_turn_are_not_taken() {
    let (task, _) = EvictionTask::start(30, 600).unwrap();
    assert_eq!(task.step(EvictionEvent::Evicted(1)), None);
    assert_eq!(task.step(EvictionEvent::Reported), None);
    let (task, _) = step(task, EvictionEvent::Ticked);
    assert_eq!(task.step(EvictionEvent::Ticked), None);
    assert_eq!(task.step(EvictionEvent::Pruned(1)), None);
    assert_eq!(task.step(EvictionEvent::Measured(1)), None);
    let (task, _) = step(task, EvictionEvent::Evicted(1));
    assert_eq!(task.step(EvictionEvent::SizeRecorded), None);
}

#[test]
fn recorded_size_is_what_the_eviction_left() {
    let mut cache: Vec<u64> = vec![3, 9, 4, 8];
    for expected in [2, 2] {
        let before = cache.len();
        let (task, _) = EvictionTask::start(30, 600).unwrap();
        let (task, _) = step(task, EvictionEvent::Ticked);
        cache.retain(|expires| *expires > 5);
        let (task, _) = step(task, EvictionEvent::Evicted((before - cache.len()) as u64));
        let (_, action) = step(task, EvictionEvent::Measured(cache.len()));
        assert_eq!(action, EvictionAction::RecordSize { size: expected });
    }
}
