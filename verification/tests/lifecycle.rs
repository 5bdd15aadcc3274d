use memos::error::{LifecycleError, MemoryError};
use memos::lifecycle::{archive_all_query, candidates_failure_text, check_transition, policy_candidates, policy_step, select_flagged};
use memos::policy::{DefaultTransitionPolicy, PolicyConfig};
use memos::scheduler::{LifecycleScheduler, SchedulerState, TickAction};
use memos::types::{MemoryContent, MemoryEntry, MemoryMetadata, MemorySource, MemoryStatus, SearchResult};

fn result_for(id: u128, status: MemoryStatus, access_count: u64) -> SearchResult {
    let mut m = MemoryEntry::new(
        id,
        1,
        MemoryContent::text("x"),
        MemoryMetadata::new(MemorySource::System { source_type: "t".to_string() }),
        0,
    );
    m.status = status;
    m.access_count = access_count;
    SearchResult { memory: m, score: 1.0f32.to_bits(), highlights: vec![] }
}

#[test]
fn scheduler_starts_stopped() {
    let s = LifecycleScheduler::new();
    assert_eq!(s.state(), SchedulerState::Stopped);
    assert_eq!(s.interval(), (3600, 0));
    assert_eq!(s.batch_size(), 100);
    let t = LifecycleScheduler::new().with_interval(5, 500).with_batch_size(7);
    assert_eq!(t.interval(), (5, 500));
    assert_eq!(t.batch_size(), 7);
}

#[test]
fn scheduler_state_machine() {
    let mut s = LifecycleScheduler::default();
    match s.stop() {
        Err(LifecycleError::SchedulerError(m)) => assert_eq!(m, "Scheduler not running"),
        _ => panic!("Expected SchedulerError"),
    }
    assert!(s.check_trigger().is_err());
    s.start().unwrap();
    assert_eq!(s.state(), SchedulerState::Running);
    match s.start() {
        Err(LifecycleError::SchedulerError(m)) => assert_eq!(m, "Scheduler already running"),
        _ => panic!("Expected SchedulerError"),
    }
    assert_eq!(s.on_tick(), TickAction::RunCycle);
    match s.resume() {
        Err(LifecycleError::SchedulerError(m)) => assert_eq!(m, "Scheduler not paused"),
        _ => panic!("Expected SchedulerError"),
    }
    s.pause().unwrap();
    assert_eq!(s.state(), SchedulerState::Paused);
    assert_eq!(s.on_tick(), TickAction::StopTicker);
    assert!(s.check_trigger().is_ok());
    assert!(s.pause().is_err());
    s.resume().unwrap();
    assert_eq!(s.state(), SchedulerState::Running);
    s.stop().unwrap();
    assert_eq!(s.state(), SchedulerState::Stopped);
    assert_eq!(s.on_tick(), TickAction::StopTicker);
}

#[test]
fn test_invalid_transition_error_message() {
    match check_transition(MemoryStatus::Active, MemoryStatus::Zombie) {
        Err(MemoryError::InvalidOperation(m)) => {
            assert!(m.contains("Invalid transition"));
            assert_eq!(m, "Invalid transition from Active to Zombie");
        }
        _ => panic!("Expected InvalidOperation"),
    }
    assert!(check_transition(MemoryStatus::Cold, MemoryStatus::Cooling).is_ok());
}

#[test]
fn policy_steps() {
    let active = result_for(1, MemoryStatus::Active, 0).memory;
    assert!(policy_step(active.clone(), None, 50).unwrap().is_none());
    let moved = policy_step(active, Some(MemoryStatus::Cooling), 50).unwrap().expect("moved");
    assert_eq!(moved.status, MemoryStatus::Cooling);
    assert_eq!(moved.updated_at, 50);
    assert_eq!(moved.id, 1);
    let zombie = result_for(2, MemoryStatus::Zombie, 0).memory;
    match policy_step(zombie, Some(MemoryStatus::Cold), 50) {
        Err(MemoryError::InvalidOperation(m)) => assert_eq!(m, "Invalid transition from Zombie to Cold"),
        _ => panic!("Expected InvalidOperation"),
    }
}

#[test]
fn flagged_selection() {
    let results = vec![
        result_for(1, MemoryStatus::Active, 0),
        result_for(2, MemoryStatus::Active, 5),
        result_for(3, MemoryStatus::Zombie, 0),
    ];
    assert_eq!(select_flagged(&results, &vec![true, false, true]), vec![1, 3]);
    let policy = DefaultTransitionPolicy::with_config(PolicyConfig::default());
    let picked = policy_candidates(&policy, &results, 100 * 86_400_000_000);
    assert_eq!(picked, vec![1]);
}

#[test]
fn lifecycle_queries_and_texts() {
    let q = archive_all_query(9);
    assert_eq!((q.workspace_id, q.status, q.limit, q.offset), (Some(9), None, 1000, 0));
    assert_eq!(candidates_failure_text(MemoryStatus::Cold, "boom"), "Failed to get candidates for Cold: boom");
}

#[test]
fn test_scheduler_initial_state() {
    let scheduler = LifecycleScheduler::new();
    assert_eq!(scheduler.state(), SchedulerState::Stopped);
}

#[test]
fn test_scheduler_start_stop() {
    let mut scheduler = LifecycleScheduler::new().with_interval(1, 0);
    scheduler.start().unwrap();
    assert_eq!(scheduler.state(), SchedulerState::Running);
    scheduler.stop().unwrap();
    assert_eq!(scheduler.state(), SchedulerState::Stopped);
}

#[test]
fn test_scheduler_pause_resume() {
    let mut scheduler = LifecycleScheduler::new().with_interval(1, 0);
    scheduler.start().unwrap();
    scheduler.pause().unwrap();
    assert_eq!(scheduler.state(), SchedulerState::Paused);
    scheduler.resume().unwrap();
    assert_eq!(scheduler.state(), SchedulerState::Running);
    scheduler.stop().unwrap();
}

#[test]
fn test_scheduler_cannot_start_twice() {
    let mut scheduler = LifecycleScheduler::new().with_interval(1, 0);
    scheduler.start().unwrap();
    assert!(scheduler.start().is_err());
    assert_eq!(scheduler.state(), SchedulerState::Running);
    scheduler.stop().unwrap();
}

#[test]
fn test_scheduler_cannot_stop_when_not_running() {
    let mut scheduler = LifecycleScheduler::new();
    assert!(scheduler.stop().is_err());
    assert_eq!(scheduler.state(), SchedulerState::Stopped);
}

#[test]
fn test_trigger_cycle() {
    let mut scheduler = LifecycleScheduler::new();
    scheduler.start().unwrap();
    assert!(scheduler.check_trigger().is_ok());
    scheduler.stop().unwrap();
}

#[test]
fn test_trigger_cycle_when_stopped() {
    let scheduler = LifecycleScheduler::new();
    match scheduler.check_trigger() {
        Err(LifecycleError::SchedulerError(m)) => assert_eq!(m, "Scheduler not running"),
        _ => panic!("Expected SchedulerError"),
    }
}

#[test]
fn stopped_scheduler_can_start_again() {
    let mut scheduler = LifecycleScheduler::new();
    scheduler.start().unwrap();
    scheduler.pause().unwrap();
    scheduler.stop().unwrap();
    assert_eq!(scheduler.state(), SchedulerState::Stopped);
    scheduler.start().unwrap();
    assert_eq!(scheduler.on_tick(), TickAction::RunCycle);
}
