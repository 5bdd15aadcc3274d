use memos::policy::{is_valid_transition, DefaultTransitionPolicy, PolicyConfig, TransitionPolicy, DAY_MICROS};
use memos::types::{MemoryContent, MemoryEntry, MemoryMetadata, MemorySource, MemoryStatus};

const DAY: i64 = 86_400_000_000;

fn now_micros() -> i64 {
    std::time::SystemTime::now()
        .duration_since(std::time::UNIX_EPOCH)
        .unwrap()
        .as_micros() as i64
}

fn create_test_memory(status: MemoryStatus, days_ago: i64, access_count: u64, importance: f32) -> MemoryEntry {
    let now = now_micros();
    MemoryEntry {
        id: 11,
        workspace_id: 22,
        content: MemoryContent::Text("test".to_string()),
        embedding: None,
        metadata: MemoryMetadata {
            tags: vec![],
            source: MemorySource::System { source_type: "test".to_string() },
            custom_fields: Vec::new(),
            importance: importance.to_bits(),
        },
        status,
        created_at: now - 60 * DAY,
        updated_at: now - days_ago * DAY,
        access_count,
        last_accessed: Some(now - days_ago * DAY),
    }
}

#[test]
fn test_active_no_recent_access_transitions() {
    let policy = DefaultTransitionPolicy::new();
    let memory = create_test_memory(MemoryStatus::Active, 10, 0, 0.5);
    assert!(policy.should_transition(&memory, now_micros()));
    assert_eq!(policy.get_next_status(&memory, now_micros()), Some(MemoryStatus::Cooling));
}

#[test]
fn test_active_with_recent_access_stays() {
    let policy = DefaultTransitionPolicy::new();
    let memory = create_test_memory(MemoryStatus::Active, 1, 1, 0.5);
    assert!(!policy.should_transition(&memory, now_micros()));
    assert_eq!(policy.get_next_status(&memory, now_micros()), None);
}

#[test]
fn test_cooling_transitions_to_cold_after_time() {
    let policy = DefaultTransitionPolicy::new();
    let memory = create_test_memory(MemoryStatus::Cooling, 20, 0, 0.5);
    assert!(policy.should_transition(&memory, now_micros()));
    assert_eq!(policy.get_next_status(&memory, now_micros()), Some(MemoryStatus::Cold));
}

#[test]
fn test_cooling_stays_if_too_early() {
    let policy = DefaultTransitionPolicy::new();
    let memory = create_test_memory(MemoryStatus::Cooling, 5, 0, 0.5);
    assert!(!policy.should_transition(&memory, now_micros()));
    assert_eq!(policy.get_next_status(&memory, now_micros()), None);
}

#[test]
fn test_cold_low_importance_becomes_zombie() {
    let policy = DefaultTransitionPolicy::new();
    let memory = create_test_memory(MemoryStatus::Cold, 40, 0, 0.05);
    assert!(policy.should_transition(&memory, now_micros()));
    assert_eq!(policy.get_next_status(&memory, now_micros()), Some(MemoryStatus::Zombie));
}

#[test]
fn test_cold_high_importance_stays_cold() {
    let policy = DefaultTransitionPolicy::new();
    let memory = create_test_memory(MemoryStatus::Cold, 40, 0, 0.5);
    assert!(!policy.should_transition(&memory, now_micros()));
    assert_eq!(policy.get_next_status(&memory, now_micros()), None);
}

#[test]
fn test_cold_recently_accessed_stays() {
    let policy = DefaultTransitionPolicy::new();
    let memory = create_test_memory(MemoryStatus::Cold, 5, 1, 0.05);
    assert!(!policy.should_transition(&memory, now_micros()));
    assert_eq!(policy.get_next_status(&memory, now_micros()), None);
}

#[test]
fn test_zombie_never_transitions() {
    let policy = DefaultTransitionPolicy::new();
    let memory = create_test_memory(MemoryStatus::Zombie, 100, 0, 0.0);
    assert!(!policy.should_transition(&memory, now_micros()));
    assert_eq!(policy.get_next_status(&memory, now_micros()), None);
}

#[test]
fn test_custom_config() {
    let config = PolicyConfig {
        active_to_cooling_days: 3,
        cooling_to_cold_days: 7,
        cold_to_zombie_days: 14,
        min_access_count: 1,
        access_count_window_days: 3,
        min_importance_score: 0.2f32.to_bits(),
    };
    let policy = DefaultTransitionPolicy::with_config(config);
    let memory = create_test_memory(MemoryStatus::Active, 5, 0, 0.5);
    assert!(policy.should_transition(&memory, now_micros()));
}

#[test]
fn test_policy_config_defaults() {
    let config = PolicyConfig::default();
    assert_eq!(config.active_to_cooling_days, 7);
    assert_eq!(config.cooling_to_cold_days, 14);
    assert_eq!(config.cold_to_zombie_days, 30);
    assert_eq!(config.min_access_count, 1);
    assert_eq!(config.access_count_window_days, 7);
    assert_eq!(f32::from_bits(config.min_importance_score), 0.1);
}

#[test]
fn test_active_threshold() {
    let config = PolicyConfig::default();
    let threshold = config.active_threshold(now_micros());
    let expected = now_micros() as i128 - 7 * DAY as i128;
    assert!((threshold - expected).abs() < 1_000_000);
}

#[test]
fn thresholds_at_a_given_instant() {
    let config = PolicyConfig::default();
    assert_eq!(config.active_threshold(100 * DAY), 93 * DAY as i128);
    assert_eq!(config.cold_threshold(100 * DAY), 70 * DAY as i128);
    assert_eq!(config.access_count_threshold(100 * DAY), 93 * DAY as i128);
    assert_eq!(DAY_MICROS, DAY as i128);
}

#[test]
fn test_should_not_transition_recently_accessed() {
    let config = PolicyConfig::default();
    let memory = create_test_memory(MemoryStatus::Active, 1, 1, 0.5);
    assert!(!config.should_transition(&memory, now_micros()));
}

#[test]
fn test_should_transition_inactive_memory() {
    let config = PolicyConfig::default();
    let memory = create_test_memory(MemoryStatus::Active, 10, 0, 0.5);
    assert!(config.should_transition(&memory, now_micros()));
}

#[test]
fn test_get_next_status_active_to_cooling() {
    let config = PolicyConfig::default();
    let memory = create_test_memory(MemoryStatus::Active, 10, 0, 0.5);
    assert_eq!(config.get_next_status(&memory, now_micros()), Some(MemoryStatus::Cooling));
}

#[test]
fn test_get_next_status_cooling_to_cold() {
    let config = PolicyConfig::default();
    let memory = create_test_memory(MemoryStatus::Cooling, 20, 0, 0.5);
    assert_eq!(config.get_next_status(&memory, now_micros()), Some(MemoryStatus::Cold));
}

#[test]
fn test_get_next_status_cold_to_zombie() {
    let config = PolicyConfig::default();
    let memory = create_test_memory(MemoryStatus::Cold, 40, 0, 0.05);
    assert_eq!(config.get_next_status(&memory, now_micros()), Some(MemoryStatus::Zombie));
}

#[test]
fn test_important_memory_not_zombie() {
    let config = PolicyConfig::default();
    let memory = create_test_memory(MemoryStatus::Cold, 40, 0, 0.5);
    assert_eq!(config.get_next_status(&memory, now_micros()), None);
}

#[test]
fn policy_moves_one_step_at_fixed_instant() {
    let config = PolicyConfig::default();
    let now = 1_000 * DAY;
    let mut m = create_test_memory(MemoryStatus::Active, 0, 0, 0.05);
    m.last_accessed = None;
    m.updated_at = now - 100 * DAY;
    assert_eq!(config.get_next_status(&m, now), Some(MemoryStatus::Cooling));
    m.status = MemoryStatus::Cooling;
    assert_eq!(config.get_next_status(&m, now), Some(MemoryStatus::Cold));
    m.status = MemoryStatus::Cold;
    assert_eq!(config.get_next_status(&m, now), Some(MemoryStatus::Zombie));
    m.status = MemoryStatus::Zombie;
    assert_eq!(config.get_next_status(&m, now), None);
    assert!(!config.should_transition(&m, now));
}

#[test]
fn test_is_valid_transition() {
    assert!(is_valid_transition(MemoryStatus::Active, MemoryStatus::Cooling));
    assert!(is_valid_transition(MemoryStatus::Cooling, MemoryStatus::Cold));
    assert!(is_valid_transition(MemoryStatus::Cold, MemoryStatus::Zombie));
    assert!(!is_valid_transition(MemoryStatus::Active, MemoryStatus::Zombie));
    assert!(!is_valid_transition(MemoryStatus::Zombie, MemoryStatus::Cold));
    assert!(is_valid_transition(MemoryStatus::Cooling, MemoryStatus::Active));
    assert!(is_valid_transition(MemoryStatus::Cold, MemoryStatus::Cooling));
    assert!(is_valid_transition(MemoryStatus::Cold, MemoryStatus::Active));
    assert!(is_valid_transition(MemoryStatus::Zombie, MemoryStatus::Active));
    assert!(is_valid_transition(MemoryStatus::Zombie, MemoryStatus::Zombie));
}

#[test]
fn default_policy_config_is_exposed() {
    let policy = DefaultTransitionPolicy::default();
    assert_eq!(policy.config().cold_to_zombie_days, 30);
}

#[test]
fn recent_access_and_time_in_status_at_an_instant() {
    let policy = PolicyConfig::default();
    let now = 1_000 * DAY;
    let mut m = create_test_memory(MemoryStatus::Active, 0, 0, 0.5);
    m.last_accessed = Some(now);
    m.updated_at = now;
    assert!(policy.has_recent_access(&m, now));
    assert!(!policy.has_been_in_status_long_enough(&m, 1, now));
    m.last_accessed = Some(now - 30 * DAY);
    m.updated_at = now - 30 * DAY;
    assert!(!policy.has_recent_access(&m, now));
    assert!(policy.has_been_in_status_long_enough(&m, 7, now));
}

#[test]
fn active_memory_cools_after_its_own_threshold() {
    let config = PolicyConfig {
        active_to_cooling_days: 3,
        access_count_window_days: 10,
        min_access_count: 1,
        ..PolicyConfig::default()
    };
    let now = 1_000 * DAY;
    let mut m = create_test_memory(MemoryStatus::Active, 0, 0, 0.5);
    m.last_accessed = Some(now - 5 * DAY);
    m.updated_at = now - 5 * DAY;
    assert_eq!(config.get_next_status(&m, now), Some(MemoryStatus::Cooling));
    m.last_accessed = Some(now - 2 * DAY);
    assert_eq!(config.get_next_status(&m, now), None);
}

#[test]
fn cold_memory_counts_days_without_access() {
    let config = PolicyConfig::default();
    let now = 1_000 * DAY;
    let mut m = create_test_memory(MemoryStatus::Cold, 0, 0, 0.05);
    m.last_accessed = Some(now - 40 * DAY);
    m.updated_at = now - DAY;
    assert_eq!(config.get_next_status(&m, now), Some(MemoryStatus::Zombie));
    m.last_accessed = Some(now - 10 * DAY);
    m.updated_at = now - 100 * DAY;
    assert_eq!(config.get_next_status(&m, now), None);
}
