use memos::cold::{filter_rows, list_statement, parse_status, status_to_column, ColdStorage};
use memos::error::{MemoryError, StorageError};
use memos::hot::HotStorage;
use memos::tiers::{
    absorb_batch, archive_query, auto_next_status, candidate_query, candidate_tier, due_candidates, failure_text,
    is_due, list_plan, merge_listing, moved, plan_transition, record_delete, split_by_tier, stored_status, take_ids,
    tier_for_status, transition_statuses, Tier,
};
use memos::types::{
    BatchResult, MemoryContent, MemoryEntry, MemoryMetadata, MemorySource, MemoryStatus, SearchQuery, SearchResult,
};
use memos::zombie::{check_add, check_update, filter_archived, not_found_text, not_zombie_text, ZombieIndex};

fn now_micros() -> i64 {
    std::time::SystemTime::now()
        .duration_since(std::time::UNIX_EPOCH)
        .unwrap()
        .as_micros() as i64
}

fn fresh_id() -> u128 {
    uuid::Uuid::new_v4().as_u128()
}

const DAY: i64 = 86_400_000_000;

fn create_test_memory(id: u128, ws: u128, status: MemoryStatus, created: i64) -> MemoryEntry {
    let mut m = MemoryEntry::new(
        id,
        ws,
        MemoryContent::Text("test content".to_string()),
        MemoryMetadata::new(MemorySource::UserQuery { query: "test".to_string() })
            .with_tags(vec!["test".to_string()]),
        created,
    );
    m.status = status;
    m
}

fn uuid_text(id: u128) -> String {
    uuid::Uuid::from_u128(id).to_string()
}

fn result_of(m: MemoryEntry) -> SearchResult {
    SearchResult { memory: m, score: 1.0f32.to_bits(), highlights: vec![] }
}

#[test]
fn mod_test_add_active_memory() {
    let mut storage = HotStorage::new(100);
    let memory = create_test_memory(1, 9, MemoryStatus::Active, 0);
    assert_eq!(storage.add(memory).unwrap(), 1);
}

#[test]
fn mod_test_add_non_active_memory_fails() {
    let mut storage = HotStorage::new(100);
    match storage.add(create_test_memory(1, 9, MemoryStatus::Cold, 0)) {
        Err(MemoryError::InvalidOperation(m)) => assert_eq!(m, "Hot storage only accepts Active memories"),
        _ => panic!("Expected InvalidOperation"),
    }
}

#[test]
fn mod_test_get_memory() {
    let mut storage = HotStorage::new(100);
    storage.add(create_test_memory(1, 9, MemoryStatus::Active, 0)).unwrap();
    assert_eq!(storage.get(1, now_micros()).unwrap().id, 1);
}

#[test]
fn mod_test_get_nonexistent_memory() {
    let mut storage = HotStorage::new(100);
    assert!(storage.get(42, now_micros()).is_err());
}

#[test]
fn mod_test_delete_memory() {
    let mut storage = HotStorage::new(100);
    storage.add(create_test_memory(1, 9, MemoryStatus::Active, 0)).unwrap();
    assert!(storage.delete(1).is_ok());
    assert!(storage.get(1, now_micros()).is_err());
    assert!(storage.delete(1).is_err());
}

#[test]
fn mod_test_list_memories() {
    let mut storage = HotStorage::new(100);
    for i in 0..5u128 {
        storage.add(create_test_memory(i + 1, 77, MemoryStatus::Active, i as i64)).unwrap();
    }
    let query = SearchQuery { workspace_id: Some(77), limit: 10, ..SearchQuery::default() };
    let results = storage.list(77, &query);
    assert_eq!(results.len(), 5);
    let created: Vec<i64> = results.iter().map(|r| r.memory.created_at).collect();
    assert_eq!(created, vec![4, 3, 2, 1, 0]);
}

#[test]
fn hot_list_nil_workspace_lists_all_and_ignores_paging() {
    let mut storage = HotStorage::new(100);
    storage.add(create_test_memory(1, 5, MemoryStatus::Active, 1)).unwrap();
    storage.add(create_test_memory(2, 6, MemoryStatus::Active, 2)).unwrap();
    let query = SearchQuery { limit: 1, offset: 1, ..SearchQuery::default() };
    assert_eq!(storage.list(0, &query).len(), 2);
    assert_eq!(storage.list(5, &query).len(), 1);
}

#[test]
fn mod_test_batch_operations() {
    let mut storage = HotStorage::new(100);
    let memories: Vec<MemoryEntry> = (0..5u128).map(|i| create_test_memory(i + 1, 9, MemoryStatus::Active, 0)).collect();
    let result = storage.batch_add(memories);
    assert_eq!(result.success_count, 5);
    let result = storage.batch_delete(vec![100, 101]);
    assert_eq!(result.success_count, 0);
    assert_eq!(result.failure_count, 2);
}

#[test]
fn mod_test_eviction() {
    let mut storage = HotStorage::new(3);
    for i in 0..5u128 {
        storage.add(create_test_memory(i + 1, 9, MemoryStatus::Active, i as i64)).unwrap();
    }
    assert_eq!(storage.len(), 3);
    assert!(storage.contains(5));
    assert!(!storage.contains(1));
}

#[test]
fn test_access_count_increment() {
    let mut storage = HotStorage::new(10);
    storage.add(create_test_memory(1, 9, MemoryStatus::Active, 0)).unwrap();
    assert_eq!(storage.get(1, 50).unwrap().access_count, 1);
    let second = storage.get(1, 60).unwrap();
    assert_eq!(second.access_count, 2);
    assert_eq!(second.last_accessed, Some(60));
}

#[test]
fn test_load_batch() {
    let mut storage = HotStorage::new(10);
    storage.load_batch(vec![
        create_test_memory(1, 9, MemoryStatus::Active, 0),
        create_test_memory(2, 9, MemoryStatus::Cold, 0),
    ]);
    assert_eq!(storage.len(), 1);
    assert!(storage.contains(1));
    assert_eq!(storage.remove(1).map(|m| m.id), Some(1));
    assert!(storage.is_empty());
}

#[test]
fn tier_routing() {
    assert_eq!(tier_for_status(MemoryStatus::Active), Tier::Hot);
    assert_eq!(tier_for_status(MemoryStatus::Cooling), Tier::Cold);
    assert_eq!(tier_for_status(MemoryStatus::Cold), Tier::Cold);
    assert_eq!(tier_for_status(MemoryStatus::Zombie), Tier::Zombie);
    assert_eq!(candidate_tier(MemoryStatus::Zombie), None);
    assert_eq!(auto_next_status(MemoryStatus::Cold), Some(MemoryStatus::Zombie));
    assert_eq!(transition_statuses(), vec![MemoryStatus::Active, MemoryStatus::Cooling, MemoryStatus::Cold]);
}

#[test]
fn listing_plan_without_status() {
    let q = SearchQuery { tags: Some(vec!["t".to_string()]), limit: 7, offset: 3, ..SearchQuery::default() };
    let plan = list_plan(9, &q);
    assert_eq!(plan.len(), 4);
    assert_eq!(plan[0].tier, Tier::Hot);
    assert_eq!(plan[0].query.status, Some(MemoryStatus::Active));
    assert_eq!(plan[0].query.tags, Some(vec!["t".to_string()]));
    assert_eq!(plan[3].query.tags, Some(vec!["t".to_string()]));
    assert_eq!(plan[1].query.status, Some(MemoryStatus::Cooling));
    assert_eq!(plan[1].query.tags, Some(vec!["t".to_string()]));
    assert_eq!(plan[2].query.status, Some(MemoryStatus::Cold));
    assert_eq!(plan[3].tier, Tier::Zombie);
    assert!(plan.iter().all(|p| p.query.offset == 0 && p.query.limit == 7 && p.query.workspace_id == Some(9)));
    let with_status = list_plan(9, &SearchQuery { status: Some(MemoryStatus::Cold), ..SearchQuery::default() });
    assert_eq!(with_status.len(), 1);
    assert_eq!(with_status[0].tier, Tier::Cold);
}

#[test]
fn merged_listing_sorted_and_paged() {
    let results = vec![
        result_of(create_test_memory(1, 9, MemoryStatus::Active, 10)),
        result_of(create_test_memory(2, 9, MemoryStatus::Cold, 30)),
        result_of(create_test_memory(3, 9, MemoryStatus::Zombie, 20)),
    ];
    let page = merge_listing(results, 1, 1);
    assert_eq!(page.len(), 1);
    assert_eq!(page[0].memory.id, 3);
    assert!(merge_listing(vec![], 5, 1).is_empty());
}

#[test]
fn batch_split_and_absorb() {
    let batch = vec![
        create_test_memory(1, 9, MemoryStatus::Active, 0),
        create_test_memory(2, 9, MemoryStatus::Cooling, 0),
        create_test_memory(3, 9, MemoryStatus::Zombie, 0),
        create_test_memory(4, 9, MemoryStatus::Cold, 0),
    ];
    let (hot, cold, zombie) = split_by_tier(batch);
    assert_eq!(hot.iter().map(|m| m.id).collect::<Vec<_>>(), vec![1]);
    assert_eq!(cold.iter().map(|m| m.id).collect::<Vec<_>>(), vec![2, 4]);
    assert_eq!(zombie.iter().map(|m| m.id).collect::<Vec<_>>(), vec![3]);
    let mut total = BatchResult::new();
    total.add_failure("a".to_string());
    let mut part = BatchResult::new();
    part.add_success();
    part.add_failure("b".to_string());
    absorb_batch(&mut total, part);
    assert_eq!((total.success_count, total.failure_count), (1, 2));
    assert_eq!(total.errors, vec!["a".to_string(), "b".to_string()]);
}

#[test]
fn delete_outcomes() {
    let mut r = BatchResult::new();
    record_delete(&mut r, 5, true, false, true);
    assert_eq!((r.success_count, r.failure_count), (2, 0));
    record_delete(&mut r, 6, false, false, false);
    assert_eq!(r.failure_count, 1);
    assert_eq!(r.errors[0], format!("Memory {} not found in any tier", uuid_text(6)));
}

#[test]
fn transition_plans() {
    match plan_transition(8, None, MemoryStatus::Cold) {
        Err(MemoryError::NotFound(m)) => assert_eq!(m, uuid_text(8)),
        _ => panic!("Expected NotFound"),
    }
    assert_eq!(plan_transition(8, Some(MemoryStatus::Active), MemoryStatus::Active).unwrap(), None);
    assert_eq!(plan_transition(8, Some(MemoryStatus::Cooling), MemoryStatus::Cold).unwrap(), Some(MemoryStatus::Cooling));
    assert_eq!(plan_transition(8, Some(MemoryStatus::Cold), MemoryStatus::Zombie).unwrap(), Some(MemoryStatus::Cold));
    let m = moved(create_test_memory(1, 9, MemoryStatus::Active, 5), MemoryStatus::Cooling, 99);
    assert_eq!((m.status, m.updated_at, m.created_at), (MemoryStatus::Cooling, 99, 5));
}

#[test]
fn due_candidates_rule() {
    let now = 100 * DAY;
    let mut fresh = create_test_memory(1, 9, MemoryStatus::Active, now);
    fresh.access_count = 10;
    fresh.last_accessed = Some(now);
    assert!(!is_due(&fresh, now));
    let mut low = fresh.clone();
    low.id = 2;
    low.access_count = 3;
    assert!(is_due(&low, now));
    let mut stale = fresh.clone();
    stale.id = 3;
    stale.last_accessed = Some(now - 8 * DAY);
    assert!(is_due(&stale, now));
    let mut never = fresh.clone();
    never.id = 4;
    never.last_accessed = None;
    assert!(is_due(&never, now));
    let ids = due_candidates(&vec![result_of(fresh), result_of(low), result_of(stale)], now);
    assert_eq!(ids, vec![2, 3]);
    assert_eq!(take_ids(vec![1, 2, 3], 2), vec![1, 2]);
    assert_eq!(take_ids(vec![1], 5), vec![1]);
}

#[test]
fn tier_queries_and_failure_text() {
    let q = candidate_query(MemoryStatus::Cooling);
    assert_eq!((q.status, q.limit, q.offset, q.workspace_id), (Some(MemoryStatus::Cooling), 1000, 0, None));
    let a = archive_query(4);
    assert_eq!((a.status, a.workspace_id, a.limit), (Some(MemoryStatus::Cold), Some(4), 1000));
    assert_eq!(failure_text(1, "boom"), format!("{}: boom", uuid_text(1)));
}

#[test]
fn cold_storage_path() {
    let s = ColdStorage::new("/tmp/cold.db".to_string());
    assert_eq!(s.db_path(), "/tmp/cold.db");
}

#[test]
fn cold_status_round_trip() {
    for s in [MemoryStatus::Active, MemoryStatus::Cooling, MemoryStatus::Cold, MemoryStatus::Zombie] {
        let col = status_to_column(s);
        assert_eq!(parse_status(&col).unwrap(), s);
    }
    assert_eq!(status_to_column(MemoryStatus::Cold), "\"Cold\"");
    assert_eq!(parse_status("Zombie").unwrap(), MemoryStatus::Zombie);
    match parse_status("\"Frozen\"") {
        Err(StorageError::SerializationError(m)) => assert_eq!(m, "Invalid status: Frozen"),
        _ => panic!("Expected SerializationError"),
    }
}

#[test]
fn cold_list_statement() {
    let q = SearchQuery { status: Some(MemoryStatus::Cold), limit: 5, offset: 2, ..SearchQuery::default() };
    let st = list_statement(7, &q);
    assert!(st.sql.ends_with(" WHERE workspace_id = ?1 AND status = ? ORDER BY created_at DESC LIMIT 5 OFFSET 2"));
    assert!(st.sql.starts_with("SELECT id, workspace_id, content, embedding, metadata, status"));
    assert_eq!(st.params, vec![uuid_text(7), "\"Cold\"".to_string()]);
    let all = list_statement(0, &SearchQuery { limit: 0, ..SearchQuery::default() });
    assert!(all.sql.ends_with(" WHERE 1=1 ORDER BY created_at DESC"));
    assert!(all.params.is_empty());
}

#[test]
fn cold_row_filters() {
    let mut other = create_test_memory(2, 9, MemoryStatus::Cold, 0);
    other.metadata.tags = vec!["x".to_string()];
    other.content = MemoryContent::Text("Updated Content".to_string());
    let rows = vec![create_test_memory(1, 9, MemoryStatus::Cold, 0), other];
    let q = SearchQuery { tags: Some(vec!["test".to_string()]), ..SearchQuery::default() };
    assert_eq!(filter_rows(rows, &q).iter().map(|r| r.memory.id).collect::<Vec<_>>(), vec![1]);
    let mut other2 = create_test_memory(2, 9, MemoryStatus::Cold, 0);
    other2.content = MemoryContent::Text("Updated Content".to_string());
    let rows2 = vec![create_test_memory(1, 9, MemoryStatus::Cold, 0), other2];
    let q2 = SearchQuery { tags: Some(vec![]), text: Some("updated".to_string()), ..SearchQuery::default() };
    assert_eq!(filter_rows(rows2, &q2).iter().map(|r| r.memory.id).collect::<Vec<_>>(), vec![2]);
}

#[test]
fn zombie_index_files_and_forgets() {
    let mut ix = ZombieIndex::new();
    ix.index_memory(1, 10, "/z/10/1.jsonl".to_string());
    ix.index_memory(2, 10, "/z/10/2.jsonl".to_string());
    ix.index_memory(1, 10, "/z/10/1.jsonl".to_string());
    assert_eq!(ix.workspace_ids(10), vec![1, 2, 1]);
    assert_eq!(ix.path_of(2), Some("/z/10/2.jsonl".to_string()));
    assert_eq!(ix.unindex_memory(1, 10), Some("/z/10/1.jsonl".to_string()));
    assert_eq!(ix.workspace_ids(10), vec![2]);
    assert_eq!(ix.path_of(1), None);
    assert!(ix.workspace_ids(11).is_empty());
    ix.clear();
    assert!(ix.path_of(2).is_none());
}

#[test]
fn zombie_checks_and_texts() {
    match check_add(&create_test_memory(1, 9, MemoryStatus::Active, 0)) {
        Err(MemoryError::InvalidOperation(m)) => assert_eq!(m, "Zombie storage only accepts Zombie memories"),
        _ => panic!("Expected InvalidOperation"),
    }
    assert!(check_add(&create_test_memory(1, 9, MemoryStatus::Zombie, 0)).is_ok());
    match check_update(&create_test_memory(1, 9, MemoryStatus::Cold, 0), true) {
        Err(MemoryError::InvalidOperation(m)) => assert_eq!(m, "Zombie storage only holds Zombie memories"),
        _ => panic!("Expected InvalidOperation"),
    }
    assert!(matches!(check_update(&create_test_memory(1, 9, MemoryStatus::Zombie, 0), false), Err(MemoryError::NotFound(_))));
    assert_eq!(not_zombie_text(3), format!("Memory {} is not Zombie", uuid_text(3)));
    assert_eq!(not_found_text(3), format!("Memory {} not found", uuid_text(3)));
}

#[test]
fn zombie_listing_filters() {
    let memories = vec![
        create_test_memory(1, 9, MemoryStatus::Zombie, 0),
        create_test_memory(2, 9, MemoryStatus::Cold, 0),
    ];
    let q = SearchQuery { status: Some(MemoryStatus::Zombie), ..SearchQuery::default() };
    let r = filter_archived(memories, &q);
    assert_eq!(r.len(), 1);
    assert_eq!(r[0].memory.id, 1);
}

fn fresh_memory(status: MemoryStatus) -> MemoryEntry {
    let mut entry = MemoryEntry::new(fresh_id(), uuid::Uuid::new_v4().as_u128(), MemoryContent::Text("test content".to_string()), MemoryMetadata::new(MemorySource::UserQuery { query: "test".to_string() }).with_tags(vec!["test".to_string()]), now_micros());
    entry.status = status;
    entry
}

#[test]
fn test_with_capacity() {
    let storage = HotStorage::with_capacity(50, 10);
    assert_eq!(storage.len(), 0);
    assert!(storage.is_empty());
    assert_eq!(storage.max_entries(), 10);
}

#[test]
fn test_contains() {
    let mut storage = HotStorage::new(100);
    let memory = fresh_memory(MemoryStatus::Active);
    let id = memory.id;
    assert!(!storage.contains(id));
    storage.add(memory).unwrap();
    assert!(storage.contains(id));
}

#[test]
fn test_ids() {
    let mut storage = HotStorage::new(100);
    let memory = fresh_memory(MemoryStatus::Active);
    let id = memory.id;
    storage.add(memory).unwrap();
    assert_eq!(storage.ids(), vec![id]);
}

#[test]
fn test_remove() {
    let mut storage = HotStorage::new(100);
    let memory = fresh_memory(MemoryStatus::Active);
    let id = memory.id;
    storage.add(memory).unwrap();
    assert!(storage.remove(id).is_some());
    assert!(!storage.contains(id));
    assert!(storage.remove(id).is_none());
}

#[test]
fn mod_test_data_roundtrip_consistency() {
    let mut storage = HotStorage::new(100);
    let memory = fresh_memory(MemoryStatus::Active);
    let id = memory.id;
    let workspace_id = memory.workspace_id;
    let access_count = memory.access_count;
    storage.add(memory).unwrap();
    let retrieved = storage.get(id, now_micros()).unwrap();
    assert_eq!(retrieved.id, id);
    assert_eq!(retrieved.workspace_id, workspace_id);
    assert_eq!(retrieved.status, MemoryStatus::Active);
    assert_eq!(retrieved.access_count, access_count + 1);
    match &retrieved.content {
        MemoryContent::Text(t) => assert_eq!(t, "test content"),
        _ => panic!("Content type mismatch"),
    }
    assert_eq!(retrieved.metadata.tags, vec!["test".to_string()]);
}

#[test]
fn mod_test_list_data_consistency() {
    let mut storage = HotStorage::new(100);
    let workspace_id = uuid::Uuid::new_v4().as_u128();
    for i in 0..5 {
        let mut memory = fresh_memory(MemoryStatus::Active);
        memory.workspace_id = workspace_id;
        memory.content = MemoryContent::Text(format!("content {}", i));
        storage.add(memory).unwrap();
    }
    let query = SearchQuery { workspace_id: Some(workspace_id), limit: 10, ..SearchQuery::default() };
    let results = storage.list(workspace_id, &query);
    assert_eq!(results.len(), 5);
    for r in &results {
        assert_ne!(r.memory.id, 0);
        assert_eq!(r.memory.workspace_id, workspace_id);
        assert_eq!(r.memory.status, MemoryStatus::Active);
        assert_eq!(r.score, 1.0f32.to_bits());
    }
}

#[test]
fn test_concurrent_access() {
    let mut storage = HotStorage::new(100);
    let memory = fresh_memory(MemoryStatus::Active);
    let id = memory.id;
    storage.add(memory).unwrap();
    for _ in 0..10 {
        assert!(storage.get(id, now_micros()).is_ok());
    }
    assert_eq!(storage.access_count(id), Some(10));
}

#[test]
fn test_concurrent_writes() {
    let mut storage = HotStorage::new(100);
    for i in 0..20 {
        let mut memory = fresh_memory(MemoryStatus::Active);
        memory.content = MemoryContent::Text(format!("content {}", i));
        assert!(storage.add(memory).is_ok());
    }
    assert_eq!(storage.len(), 20);
}

#[test]
fn test_mixed_operations() {
    let mut storage = HotStorage::new(100);
    let memory = fresh_memory(MemoryStatus::Active);
    let id = memory.id;
    storage.add(memory).unwrap();
    for i in 0..10 {
        if i % 2 == 0 {
            assert!(storage.get(id, now_micros()).is_ok());
        } else {
            let mut m = fresh_memory(MemoryStatus::Active);
            m.content = MemoryContent::Text(format!("new content {}", i));
            assert!(storage.add(m).is_ok());
        }
    }
    assert_eq!(storage.len(), 6);
}

#[test]
fn test_high_concurrency_reads() {
    let mut storage = HotStorage::new(1000);
    let memory = fresh_memory(MemoryStatus::Active);
    let id = memory.id;
    storage.add(memory).unwrap();
    for _ in 0..100 {
        assert!(storage.get(id, now_micros()).is_ok());
    }
    assert_eq!(storage.access_count(id), Some(100));
}

#[test]
fn test_high_concurrency_writes() {
    let mut storage = HotStorage::new(2000);
    for i in 0..100 {
        let mut memory = fresh_memory(MemoryStatus::Active);
        memory.content = MemoryContent::Text(format!("content {}", i));
        assert!(storage.add(memory).is_ok());
    }
    assert_eq!(storage.len(), 100);
}

#[test]
fn hot_batch_add_reports_each_memory() {
    let mut storage = HotStorage::new(100);
    storage.add(create_test_memory(1, 9, MemoryStatus::Active, 0)).unwrap();
    let result = storage.batch_add(vec![
        create_test_memory(1, 9, MemoryStatus::Active, 5),
        create_test_memory(2, 9, MemoryStatus::Cold, 0),
        create_test_memory(3, 9, MemoryStatus::Active, 0),
    ]);
    assert_eq!(result.success_count, 1);
    assert_eq!(result.failure_count, 2);
    assert_eq!(
        result.errors,
        vec![
            format!("Failed to add memory {}", uuid_text(1)),
            format!("Memory {} is not Active", uuid_text(2)),
        ]
    );
    assert_eq!(storage.get(1, 7).unwrap().created_at, 5);
    assert!(storage.contains(3));
    assert!(!storage.contains(2));
}

#[test]
fn hot_update_keeps_only_active() {
    let mut storage = HotStorage::new(10);
    storage.add(create_test_memory(1, 9, MemoryStatus::Active, 0)).unwrap();
    match storage.update(create_test_memory(1, 9, MemoryStatus::Cooling, 0)) {
        Err(MemoryError::InvalidOperation(m)) => assert_eq!(m, "Hot storage only holds Active memories"),
        _ => panic!("Expected InvalidOperation"),
    }
    match storage.update(create_test_memory(2, 9, MemoryStatus::Active, 0)) {
        Err(MemoryError::NotFound(m)) => assert_eq!(m, uuid_text(2)),
        _ => panic!("Expected NotFound"),
    }
    assert!(storage.update(create_test_memory(1, 9, MemoryStatus::Active, 3)).is_ok());
    assert_eq!(storage.get(1, 4).unwrap().created_at, 3);
}

#[test]
fn hot_eviction_with_zero_capacity_keeps_newest_only() {
    let mut storage = HotStorage::new(0);
    storage.add(create_test_memory(1, 9, MemoryStatus::Active, 0)).unwrap();
    storage.add(create_test_memory(2, 9, MemoryStatus::Active, 1)).unwrap();
    assert_eq!(storage.len(), 1);
    assert!(storage.contains(2));
}

fn sample_metadata() -> MemoryMetadata {
    MemoryMetadata {
        tags: vec!["rust".to_string()],
        source: MemorySource::System { source_type: "test".to_string() },
        custom_fields: Vec::new(),
        importance: 0.5f32.to_bits(),
    }
}

#[test]
fn stored_row_reads_back() {
    let r = memos::cold::parse_row(
        "00000000-0000-0000-0000-00000000002a",
        "00000000-0000-0000-0000-000000000007",
        MemoryContent::Text("hello".to_string()),
        None,
        sample_metadata(),
        "\"Cooling\"",
        "1970-01-02T00:00:00Z",
        "1970-01-03T00:00:00.000001Z",
        3,
        Some("not a time"),
    );
    let e = r.unwrap();
    assert_eq!(e.id, 42);
    assert_eq!(e.workspace_id, 7);
    assert_eq!(e.status, MemoryStatus::Cooling);
    assert_eq!(e.created_at, DAY);
    assert_eq!(e.updated_at, 2 * DAY + 1);
    assert_eq!(e.access_count, 3);
    assert_eq!(e.last_accessed, None);
    assert_eq!(e.metadata.tags, vec!["rust".to_string()]);
}

#[test]
fn stored_row_with_unknown_status_is_refused() {
    let r = memos::cold::parse_row(
        "00000000-0000-0000-0000-00000000002a",
        "00000000-0000-0000-0000-000000000007",
        MemoryContent::Text("hello".to_string()),
        None,
        sample_metadata(),
        "\"Frozen\"",
        "1970-01-02T00:00:00Z",
        "1970-01-02T00:00:00Z",
        0,
        None,
    );
    match r {
        Err(StorageError::SerializationError(m)) => assert_eq!(m, "Invalid status: Frozen"),
        _ => panic!("expected a serialization error"),
    }
}

#[test]
fn stored_row_with_bad_time_or_id_is_refused() {
    let bad_time = memos::cold::parse_row(
        "00000000-0000-0000-0000-00000000002a",
        "00000000-0000-0000-0000-000000000007",
        MemoryContent::Text("hello".to_string()),
        None,
        sample_metadata(),
        "\"Active\"",
        "yesterday",
        "1970-01-02T00:00:00Z",
        0,
        None,
    );
    assert!(matches!(bad_time, Err(StorageError::SerializationError(_))));
    let bad_id = memos::cold::parse_row(
        "not-a-uuid",
        "00000000-0000-0000-0000-000000000007",
        MemoryContent::Text("hello".to_string()),
        None,
        sample_metadata(),
        "\"Active\"",
        "1970-01-02T00:00:00Z",
        "1970-01-02T00:00:00Z",
        0,
        Some("1970-01-02T00:00:00Z"),
    );
    assert!(matches!(bad_id, Err(StorageError::SerializationError(_))));
}

fn round_trip(m: &MemoryEntry) -> MemoryEntry {
    let c = memos::cold::stored_columns(m).unwrap();
    memos::cold::parse_row(
        &c.id,
        &c.workspace_id,
        m.content.clone(),
        m.embedding.clone(),
        m.metadata.clone(),
        &c.status,
        &c.created_at,
        &c.updated_at,
        m.access_count,
        c.last_accessed.as_deref(),
    )
    .unwrap()
}

#[test]
fn stored_columns_read_back_as_the_memory() {
    for status in [MemoryStatus::Active, MemoryStatus::Cooling, MemoryStatus::Cold, MemoryStatus::Zombie] {
        let mut m = create_test_memory(0x1234_5678_9abc_def0_0fed_cba9_8765_4321, 99, status, 1_700_000_000_123_456);
        m.updated_at = 1_700_000_000_000_001;
        m.access_count = 5;
        m.last_accessed = Some(1_700_000_100_000_000);
        let back = round_trip(&m);
        assert_eq!(back.id, m.id);
        assert_eq!(back.workspace_id, m.workspace_id);
        assert_eq!(back.status, status);
        assert_eq!(back.created_at, m.created_at);
        assert_eq!(back.updated_at, m.updated_at);
        assert_eq!(back.access_count, 5);
        assert_eq!(back.last_accessed, m.last_accessed);
    }
    let c = memos::cold::stored_columns(&create_test_memory(42, 7, MemoryStatus::Cold, 0)).unwrap();
    assert_eq!(c.id, "00000000-0000-0000-0000-00000000002a");
    assert_eq!(c.status, "\"Cold\"");
    assert_eq!(c.created_at, "1970-01-01T00:00:00+00:00");
}

#[test]
fn stored_columns_at_the_ends_of_the_four_digit_years() {
    let first = create_test_memory(1, 2, MemoryStatus::Active, -62_167_219_200_000_000);
    assert_eq!(round_trip(&first).created_at, -62_167_219_200_000_000);
    let last = create_test_memory(1, 2, MemoryStatus::Active, 253_402_300_799_999_999);
    assert_eq!(round_trip(&last).created_at, 253_402_300_799_999_999);
    let mut beyond = create_test_memory(1, 2, MemoryStatus::Active, 0);
    beyond.updated_at = i64::MAX;
    assert!(memos::cold::stored_columns(&beyond).is_none());
}

#[test]
fn migrated_memory_reads_back_with_new_status() {
    let m = create_test_memory(5, 6, MemoryStatus::Cooling, 10 * DAY);
    let g = moved(m.clone(), MemoryStatus::Cold, 20 * DAY);
    assert_eq!(tier_for_status(g.status), Tier::Cold);
    let back = round_trip(&g);
    assert_eq!(back.status, MemoryStatus::Cold);
    assert_eq!(back.id, m.id);
    assert_eq!(back.updated_at, 20 * DAY);
    assert_eq!(back.created_at, m.created_at);
    assert_eq!(back.metadata.tags, m.metadata.tags);
}

#[test]
fn stored_status_asks_the_tiers_in_order() {
    assert_eq!(stored_status(true, None, None), Some(MemoryStatus::Active));
    assert_eq!(stored_status(true, Some(MemoryStatus::Cold), None), Some(MemoryStatus::Active));
    assert_eq!(stored_status(false, Some(MemoryStatus::Cooling), Some(MemoryStatus::Zombie)), Some(MemoryStatus::Cooling));
    assert_eq!(stored_status(false, None, Some(MemoryStatus::Zombie)), Some(MemoryStatus::Zombie));
    assert_eq!(stored_status(false, None, None), None);
    assert_eq!(
        plan_transition(3, stored_status(false, Some(MemoryStatus::Cooling), None), MemoryStatus::Cold).unwrap(),
        Some(MemoryStatus::Cooling)
    );
}

#[test]
fn record_delete_near_the_counter_limit() {
    let mut r = BatchResult::new();
    r.success_count = u32::MAX - 1;
    r.failure_count = u32::MAX;
    record_delete(&mut r, 5, true, false, false);
    assert_eq!(r.success_count, u32::MAX);
    assert_eq!(r.failure_count, u32::MAX);
}
