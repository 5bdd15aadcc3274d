use memos::client::{ClientConfig, MemoryClient};
use memos::error::MemoryError;
use memos::types::{MemoryContent, MemoryEntry, MemoryMetadata, MemorySource, MemoryStatus, SearchQuery, Workspace};

fn now_micros() -> i64 {
    std::time::SystemTime::now()
        .duration_since(std::time::UNIX_EPOCH)
        .unwrap()
        .as_micros() as i64
}

fn fresh_id() -> u128 {
    uuid::Uuid::new_v4().as_u128()
}

fn entry(id: u128, ws: u128, text: &str) -> MemoryEntry {
    MemoryEntry::new(
        id,
        ws,
        MemoryContent::Text(text.to_string()),
        MemoryMetadata::new(MemorySource::UserQuery { query: "test".to_string() }),
        id as i64,
    )
}

fn uuid_text(id: u128) -> String {
    uuid::Uuid::from_u128(id).to_string()
}

#[test]
fn test_client_config_default() {
    let config = ClientConfig::default();
    assert!(config.storage_enabled);
    assert!(config.index_enabled);
}

#[test]
fn test_client_config_custom() {
    let config = ClientConfig { storage_enabled: false, index_enabled: false };
    assert!(!config.storage_enabled);
    assert!(!config.index_enabled);
}

#[test]
fn test_memory_client_new() {
    let client = MemoryClient::new();
    assert!(client.is_storage_enabled());
    assert!(client.is_index_enabled());
}

#[test]
fn test_memory_client_with_config() {
    let client = MemoryClient::with_config(ClientConfig { storage_enabled: false, index_enabled: true });
    assert!(!client.is_storage_enabled());
    assert!(client.is_index_enabled());
    assert_eq!(*client.config(), ClientConfig { storage_enabled: false, index_enabled: true });
}

#[test]
fn test_memory_client_default_trait() {
    let client = MemoryClient::default();
    assert!(client.is_storage_enabled());
}

#[test]
fn test_add_memory_success() {
    let mut client = MemoryClient::new();
    let m = entry(1, 10, "hello");
    assert_eq!(client.add(m).unwrap(), 1);
    assert_eq!(client.get(1).unwrap().content.as_text(), Some("hello"));
}

#[test]
fn test_add_memory_storage_disabled() {
    let mut client = MemoryClient::with_config(ClientConfig { storage_enabled: false, index_enabled: true });
    match client.add(entry(1, 10, "x")) {
        Err(MemoryError::InvalidOperation(m)) => assert_eq!(m, "Storage is disabled"),
        _ => panic!("Expected InvalidOperation"),
    }
}

#[test]
fn test_get_memory_not_found() {
    let client = MemoryClient::new();
    match client.get(5) {
        Err(MemoryError::NotFound(m)) => assert_eq!(m, uuid_text(5)),
        _ => panic!("Expected NotFound"),
    }
}

#[test]
fn test_update_memory_success() {
    let mut client = MemoryClient::new();
    client.add(entry(1, 10, "old")).unwrap();
    client.update(entry(1, 10, "new")).unwrap();
    assert_eq!(client.get(1).unwrap().content.as_text(), Some("new"));
}

#[test]
fn test_update_memory_not_found() {
    let mut client = MemoryClient::new();
    assert!(matches!(client.update(entry(1, 10, "x")), Err(MemoryError::NotFound(_))));
}

#[test]
fn test_delete_memory_success() {
    let mut client = MemoryClient::new();
    client.add(entry(1, 10, "x")).unwrap();
    client.delete(1).unwrap();
    assert!(client.get(1).is_err());
    assert!(matches!(client.delete(1), Err(MemoryError::NotFound(_))));
}

#[test]
fn test_list_memories_with_results() {
    let mut client = MemoryClient::new();
    for i in 0..3u128 {
        client.add(entry(i + 1, 10, &format!("Memory {}", i))).unwrap();
    }
    let result = client.list(10, &SearchQuery::default()).unwrap();
    assert_eq!(result.len(), 3);
    assert!(result.iter().all(|r| f32::from_bits(r.score) == 1.0 && r.highlights.is_empty()));
}

#[test]
fn test_list_memories_different_workspace() {
    let mut client = MemoryClient::new();
    client.add(entry(1, 10, "Test")).unwrap();
    client.add(entry(2, 20, "Test")).unwrap();
    assert_eq!(client.list(10, &SearchQuery::default()).unwrap().len(), 1);
}

#[test]
fn test_list_memories_storage_disabled() {
    let client = MemoryClient::with_config(ClientConfig { storage_enabled: false, index_enabled: true });
    assert!(client.list(10, &SearchQuery::default()).is_err());
}

#[test]
fn list_pages_before_text_filter() {
    let mut client = MemoryClient::new();
    client.add(entry(1, 10, "apple")).unwrap();
    client.add(entry(2, 10, "banana")).unwrap();
    client.add(entry(3, 10, "apple pie")).unwrap();
    let mut q = SearchQuery::default();
    q.text = Some("APPLE".to_string());
    q.limit = 2;
    let r = client.list(10, &q).unwrap();
    assert_eq!(r.len(), 1);
    assert_eq!(r[0].memory.id, 1);
    q.limit = 10;
    q.offset = 1;
    let r2 = client.list(10, &q).unwrap();
    assert_eq!(r2.iter().map(|x| x.memory.id).collect::<Vec<_>>(), vec![3]);
}

#[test]
fn test_batch_add_success() {
    let mut client = MemoryClient::new();
    let batch = vec![entry(1, 10, "a"), entry(2, 10, "b"), entry(1, 10, "c")];
    let r = client.batch_add(batch).unwrap();
    assert_eq!(r.success_count, 2);
    assert_eq!(r.failure_count, 1);
    assert_eq!(r.errors, vec!["Memory ID already exists".to_string()]);
    assert_eq!(client.get(1).unwrap().content.as_text(), Some("c"));
}

#[test]
fn test_batch_add_storage_disabled() {
    let mut client = MemoryClient::with_config(ClientConfig { storage_enabled: false, index_enabled: true });
    assert!(client.batch_add(vec![entry(1, 10, "a")]).is_err());
}

#[test]
fn test_batch_delete_partial_failure() {
    let mut client = MemoryClient::new();
    client.add(entry(1, 10, "a")).unwrap();
    let r = client.batch_delete(vec![1, 99]).unwrap();
    assert_eq!(r.success_count, 1);
    assert_eq!(r.failure_count, 1);
    assert_eq!(r.errors, vec![format!("Memory not found: {}", uuid_text(99))]);
}

#[test]
fn test_batch_delete_storage_disabled() {
    let mut client = MemoryClient::with_config(ClientConfig { storage_enabled: false, index_enabled: true });
    assert!(client.batch_delete(vec![1]).is_err());
}

#[test]
fn test_search_empty_results() {
    let client = MemoryClient::new();
    assert!(client.search(&SearchQuery::default()).unwrap().is_empty());
}

#[test]
fn test_search_with_memories() {
    let mut client = MemoryClient::new();
    let ws = Workspace::new(10, "test".to_string(), 0);
    client.create_workspace(ws).unwrap();
    for i in 0..3u128 {
        client.add(entry(i + 1, 10, &format!("Searchable memory {}", i))).unwrap();
    }
    assert_eq!(client.search(&SearchQuery::default()).unwrap().len(), 3);
}

#[test]
fn search_index_disabled() {
    let client = MemoryClient::with_config(ClientConfig { storage_enabled: true, index_enabled: false });
    match client.search(&SearchQuery::default()) {
        Err(MemoryError::IndexError(m)) => assert_eq!(m, "Index is disabled"),
        _ => panic!("Expected IndexError"),
    }
    assert!(client.vector_candidates(1).is_err());
}

#[test]
fn vector_candidates_need_embeddings() {
    let mut client = MemoryClient::new();
    let mut a = entry(1, 10, "a");
    a.embedding = Some(vec![1.0f32.to_bits(); 3]);
    client.add(a).unwrap();
    client.add(entry(2, 10, "b")).unwrap();
    let c = client.vector_candidates(10).unwrap();
    assert_eq!(c.len(), 1);
    assert_eq!(c[0].id, 1);
}

#[test]
fn test_get_workspace_not_found() {
    let client = MemoryClient::new();
    match client.get_workspace(7) {
        Err(MemoryError::WorkspaceError(m)) => assert_eq!(m, format!("Workspace not found: {}", uuid_text(7))),
        _ => panic!("Expected WorkspaceError"),
    }
}

#[test]
fn test_update_workspace_not_found() {
    let mut client = MemoryClient::new();
    assert!(client.update_workspace(Workspace::new(7, "w".to_string(), 0)).is_err());
    client.create_workspace(Workspace::new(7, "w".to_string(), 0)).unwrap();
    client.update_workspace(Workspace::new(7, "renamed".to_string(), 0)).unwrap();
    assert_eq!(client.get_workspace(7).unwrap().name, "renamed");
}

#[test]
fn test_delete_workspace_cascades_memories() {
    let mut client = MemoryClient::new();
    client.create_workspace(Workspace::new(10, "w".to_string(), 0)).unwrap();
    client.add(entry(1, 10, "a")).unwrap();
    client.add(entry(2, 20, "b")).unwrap();
    client.delete_workspace(10).unwrap();
    assert!(client.get(1).is_err());
    assert!(client.get(2).is_ok());
    assert!(client.get_workspace(10).is_err());
    assert!(client.delete_workspace(10).is_err());
}

#[test]
fn test_list_workspaces_with_results() {
    let mut client = MemoryClient::new();
    client.create_workspace(Workspace::new(1, "a".to_string(), 0)).unwrap();
    client.create_workspace(Workspace::new(2, "b".to_string(), 0)).unwrap();
    assert_eq!(client.list_workspaces().unwrap().len(), 2);
}

#[test]
fn test_workspace_stats_with_memories() {
    let mut client = MemoryClient::new();
    client.create_workspace(Workspace::new(10, "w".to_string(), 0)).unwrap();
    let statuses = vec![MemoryStatus::Active, MemoryStatus::Active, MemoryStatus::Cooling, MemoryStatus::Cold];
    for (i, status) in statuses.iter().enumerate() {
        let mut m = entry(i as u128 + 1, 10, "x");
        m.status = *status;
        client.add(m).unwrap();
    }
    let t = client.workspace_tally(10).unwrap();
    assert_eq!(t.total_memories, 4);
    assert_eq!(t.active_count, 2);
    assert_eq!(t.cooling_count, 1);
    assert_eq!(t.cold_count, 1);
    assert_eq!(t.zombie_count, 0);
    assert_eq!(t.importances.len(), 4);
}

#[test]
fn test_workspace_stats_not_found() {
    let client = MemoryClient::new();
    assert!(client.workspace_tally(3).is_err());
}

fn new_id() -> u128 {
    uuid::Uuid::new_v4().as_u128()
}

fn with_content(ws: u128, content: &str, importance: f32) -> MemoryEntry {
    MemoryEntry::new(fresh_id(), ws, MemoryContent::Text(content.to_string()), MemoryMetadata::new(MemorySource::UserQuery { query: "test".to_string() }).with_importance(importance.to_bits()), now_micros())
}

fn text_of(m: &MemoryEntry) -> String {
    match &m.content {
        MemoryContent::Text(s) => s.clone(),
        _ => String::new(),
    }
}

fn text_query(text: &str, ws: u128, limit: usize, offset: usize) -> SearchQuery {
    SearchQuery { text: Some(text.to_string()), workspace_id: Some(ws), limit, offset, ..SearchQuery::default() }
}

#[test]
fn test_get_memory_success() {
    let mut client = MemoryClient::new();
    let m = with_content(new_id(), "Test memory content", 0.8);
    let id = m.id;
    client.add(m).unwrap();
    assert_eq!(client.get(id).unwrap().id, id);
}

#[test]
fn test_get_memory_storage_disabled() {
    let client = MemoryClient::with_config(ClientConfig { storage_enabled: false, index_enabled: true });
    match client.get(new_id()) {
        Err(MemoryError::InvalidOperation(m)) => assert_eq!(m, "Storage is disabled"),
        _ => panic!("Expected InvalidOperation"),
    }
}

#[test]
fn test_update_memory_storage_disabled() {
    let mut client = MemoryClient::with_config(ClientConfig { storage_enabled: false, index_enabled: true });
    assert!(client.update(with_content(new_id(), "x", 0.5)).is_err());
}

#[test]
fn test_delete_memory_not_found() {
    let mut client = MemoryClient::new();
    let id = new_id();
    match client.delete(id) {
        Err(MemoryError::NotFound(m)) => assert_eq!(m, uuid_text(id)),
        _ => panic!("Expected NotFound"),
    }
}

#[test]
fn test_delete_memory_storage_disabled() {
    let mut client = MemoryClient::with_config(ClientConfig { storage_enabled: false, index_enabled: true });
    assert!(client.delete(new_id()).is_err());
}

#[test]
fn test_list_memories_empty() {
    let client = MemoryClient::new();
    assert!(client.list(new_id(), &SearchQuery::default()).unwrap().is_empty());
}

#[test]
fn test_batch_delete_success() {
    let mut client = MemoryClient::new();
    let ws = new_id();
    let mut ids = Vec::new();
    for _ in 0..5 {
        let m = with_content(ws, "Test", 0.5);
        ids.push(m.id);
        client.add(m).unwrap();
    }
    let r = client.batch_delete(ids).unwrap();
    assert_eq!(r.success_count, 5);
    assert_eq!(r.failure_count, 0);
    assert!(r.errors.is_empty());
}

#[test]
fn test_vector_search_empty_results() {
    let client = MemoryClient::new();
    assert!(client.vector_candidates(new_id()).unwrap().is_empty());
}

#[test]
fn test_vector_search_with_embeddings() {
    let mut client = MemoryClient::new();
    let ws = new_id();
    let mut m = with_content(ws, "Test content", 0.5);
    m.embedding = Some(vec![1.0f32.to_bits(); 128]);
    let id = m.id;
    client.add(m).unwrap();
    let c = client.vector_candidates(ws).unwrap();
    assert_eq!(c.len(), 1);
    assert_eq!(c[0].id, id);
    assert_eq!(c[0].embedding.as_ref().map(|e| e.len()), Some(128));
}

#[test]
fn test_vector_search_no_matching_embedding() {
    let mut client = MemoryClient::new();
    let ws = new_id();
    client.add(with_content(ws, "Test content", 0.5)).unwrap();
    assert!(client.vector_candidates(ws).unwrap().is_empty());
}

#[test]
fn test_hybrid_search_empty_results() {
    let client = MemoryClient::new();
    let ws = new_id();
    assert!(client.search(&text_query("nonexistent", ws, 10, 0)).unwrap().is_empty());
    assert!(client.vector_candidates(ws).unwrap().is_empty());
}

#[test]
fn test_hybrid_search_with_results() {
    let mut client = MemoryClient::new();
    let ws = new_id();
    let mut m = with_content(ws, "hybrid search test", 0.5);
    m.embedding = Some(vec![1.0f32.to_bits(); 128]);
    client.add(m).unwrap();
    assert_eq!(client.search(&text_query("hybrid", ws, 10, 0)).unwrap().len(), 1);
    assert_eq!(client.vector_candidates(ws).unwrap().len(), 1);
}

#[test]
fn test_create_workspace_success() {
    let mut client = MemoryClient::new();
    let w = Workspace::new(fresh_id(), "Test Workspace".to_string(), now_micros());
    let id = w.id;
    assert_eq!(client.create_workspace(w).unwrap(), id);
    assert!(client.get_workspace(id).is_ok());
}

#[test]
fn test_get_workspace_success() {
    let mut client = MemoryClient::new();
    let w = Workspace::new(fresh_id(), "Test Workspace".to_string(), now_micros());
    let id = w.id;
    client.create_workspace(w).unwrap();
    let got = client.get_workspace(id).unwrap();
    assert_eq!(got.id, id);
    assert_eq!(got.name, "Test Workspace");
}

#[test]
fn test_update_workspace_success() {
    let mut client = MemoryClient::new();
    let w = Workspace::new(fresh_id(), "Original Name".to_string(), now_micros());
    let id = w.id;
    client.create_workspace(w).unwrap();
    let mut updated = Workspace::new(fresh_id(), "Updated Name".to_string(), now_micros());
    updated.id = id;
    client.update_workspace(updated).unwrap();
    assert_eq!(client.get_workspace(id).unwrap().name, "Updated Name");
}

#[test]
fn test_delete_workspace_success() {
    let mut client = MemoryClient::new();
    let w = Workspace::new(fresh_id(), "Test Workspace".to_string(), now_micros());
    let id = w.id;
    client.create_workspace(w).unwrap();
    client.delete_workspace(id).unwrap();
    assert!(client.get_workspace(id).is_err());
}

#[test]
fn test_delete_workspace_not_found() {
    let mut client = MemoryClient::new();
    let id = new_id();
    match client.delete_workspace(id) {
        Err(MemoryError::WorkspaceError(m)) => assert_eq!(m, format!("Workspace not found: {}", uuid_text(id))),
        _ => panic!("Expected WorkspaceError"),
    }
}

#[test]
fn test_list_workspaces_empty() {
    let client = MemoryClient::new();
    assert!(client.list_workspaces().unwrap().is_empty());
}

#[test]
fn test_workspace_stats_empty() {
    let mut client = MemoryClient::new();
    let w = Workspace::new(fresh_id(), "Test Workspace".to_string(), now_micros());
    let id = w.id;
    client.create_workspace(w).unwrap();
    let t = client.workspace_tally(id).unwrap();
    assert_eq!(t.total_memories, 0);
    assert!(t.importances.is_empty());
}

#[test]
fn test_large_batch_add() {
    let mut client = MemoryClient::new();
    let ws = client.create_workspace(Workspace::new(fresh_id(), "Large Batch Test".to_string(), now_micros())).unwrap();
    let memories: Vec<MemoryEntry> =
        (0..1000).map(|i| with_content(ws, &format!("Stress test memory {}", i), 0.8)).collect();
    let r = client.batch_add(memories).unwrap();
    assert_eq!(r.success_count, 1000);
    assert_eq!(r.failure_count, 0);
    assert_eq!(client.workspace_tally(ws).unwrap().total_memories, 1000);
}

#[test]
fn test_large_batch_mixed() {
    let mut client = MemoryClient::new();
    let ws = client.create_workspace(Workspace::new(fresh_id(), "Mixed Operations Test".to_string(), now_micros())).unwrap();
    let memories: Vec<MemoryEntry> = (0..500).map(|i| with_content(ws, &format!("Initial memory {}", i), 0.8)).collect();
    let ids: Vec<u128> = memories.iter().map(|m| m.id).collect();
    assert_eq!(client.batch_add(memories).unwrap().success_count, 500);
    for id in ids.iter().take(300) {
        let mut m = client.get(*id).unwrap();
        m.content = MemoryContent::Text(format!("{} - UPDATED", text_of(&m)));
        assert!(client.update(m).is_ok());
    }
    let delete_ids: Vec<u128> = ids.iter().skip(300).take(200).copied().collect();
    assert_eq!(client.batch_delete(delete_ids).unwrap().success_count, 200);
    assert_eq!(client.workspace_tally(ws).unwrap().total_memories, 300);
    for id in ids.iter().take(300) {
        assert!(text_of(&client.get(*id).unwrap()).contains("UPDATED"));
    }
}

#[test]
fn test_large_search_results() {
    let mut client = MemoryClient::new();
    let ws = client.create_workspace(Workspace::new(fresh_id(), "Search Pagination Test".to_string(), now_micros())).unwrap();
    let memories: Vec<MemoryEntry> = (0..500)
        .map(|i| {
            let text = if i % 2 == 0 { format!("Important memory {}", i) } else { format!("Regular entry {}", i) };
            with_content(ws, &text, 0.8)
        })
        .collect();
    assert_eq!(client.batch_add(memories).unwrap().success_count, 500);
    let page1 = client.search(&text_query("Important", ws, 50, 0)).unwrap();
    assert!(page1.len() <= 50);
    let page2 = client.search(&text_query("Important", ws, 50, 50)).unwrap();
    assert!(page2.len() <= 50);
    assert!(page1.iter().all(|a| page2.iter().all(|b| a.memory.id != b.memory.id)));
    assert!(client.search(&text_query("Important", ws, 1000, 0)).unwrap().len() >= 200);
}

#[test]
fn test_memory_persistence_stress() {
    let mut client = MemoryClient::new();
    let ws = client.create_workspace(Workspace::new(fresh_id(), "Persistence Stress Test".to_string(), now_micros())).unwrap();
    let memories: Vec<MemoryEntry> =
        (0..200).map(|i| with_content(ws, &format!("Persistence test memory {}", i), 0.8)).collect();
    let ids: Vec<u128> = memories.iter().map(|m| m.id).collect();
    client.batch_add(memories).unwrap();
    for id in &ids {
        assert!(client.get(*id).is_ok());
    }
    assert_eq!(client.list(ws, &text_query("Persistence test memory", ws, 300, 0)).unwrap().len(), 200);
    assert_eq!(client.workspace_tally(ws).unwrap().total_memories, 200);
}

#[test]
fn test_workspace_with_large_dataset() {
    let mut client = MemoryClient::new();
    let ws = client.create_workspace(Workspace::new(fresh_id(), "Large Dataset Test".to_string(), now_micros())).unwrap();
    let mut memories = Vec::new();
    for (count, label, importance, status) in [
        (200, "Active", 0.8f32, MemoryStatus::Active),
        (150, "Cooling", 0.6f32, MemoryStatus::Cooling),
        (150, "Cold", 0.4f32, MemoryStatus::Cold),
    ] {
        for i in 0..count {
            let mut m = with_content(ws, &format!("{} memory {}", label, i), importance);
            m.status = status;
            memories.push(m);
        }
    }
    assert_eq!(client.batch_add(memories).unwrap().success_count, 500);
    let t = client.workspace_tally(ws).unwrap();
    assert_eq!(t.total_memories, 500);
    assert_eq!(t.active_count, 200);
    assert_eq!(t.cooling_count, 150);
    assert_eq!(t.cold_count, 150);
    let workspaces = client.list_workspaces().unwrap();
    assert_eq!(workspaces.len(), 1);
    assert_eq!(workspaces[0].id, ws);
    assert_eq!(client.get_workspace(ws).unwrap().name, "Large Dataset Test");
}

#[test]
fn test_empty_content() {
    let mut client = MemoryClient::new();
    let ws = client.create_workspace(Workspace::new(fresh_id(), "Empty Content Test".to_string(), now_micros())).unwrap();
    let id = client.add(with_content(ws, "", 0.5)).unwrap();
    assert_eq!(text_of(&client.get(id).unwrap()), "");
}

#[test]
fn test_unicode_content() {
    let mut client = MemoryClient::new();
    let ws = client.create_workspace(Workspace::new(fresh_id(), "Unicode Test".to_string(), now_micros())).unwrap();
    for content in ["你好世界🌍", "Hello World 🌍", "日本語テスト 🎌", "Emoji test 😀😃😄😁😆", "Mixed: 你好 Hello 👋", "Special: ⭐️💯🔥✨"] {
        let id = client.add(with_content(ws, content, 0.8)).unwrap();
        assert_eq!(text_of(&client.get(id).unwrap()), content);
    }
}

#[test]
fn test_special_characters() {
    let mut client = MemoryClient::new();
    let ws = client.create_workspace(Workspace::new(fresh_id(), "Special Chars Test".to_string(), now_micros())).unwrap();
    let cases = [
        "'; DROP TABLE memories; --",
        "1' OR '1'='1",
        "UNION SELECT * FROM users--",
        r#"{"key": "value", "number": 42}"#,
        r#"[1, 2, 3, "four"]"#,
        "<script>alert('XSS')</script>",
        "<div class=\"test\">Hello</div>",
        "ls -la /",
        "rm -rf /",
        "!@#$%^&*()",
        "Path: C:\\Users\\test\\file.txt",
        "Newline\ntest\r\ncontent",
        "Tab\ttest\tcontent",
        "Backslash\\test",
        "Quote\"test\"quotes",
        "Mixed: 'single' \"double\" `backtick`",
    ];
    for content in cases {
        let id = client.add(with_content(ws, content, 0.5)).unwrap();
        assert_eq!(text_of(&client.get(id).unwrap()), content);
    }
}

#[test]
fn test_very_long_content() {
    let mut client = MemoryClient::new();
    let ws = client.create_workspace(Workspace::new(fresh_id(), "Long Content Test".to_string(), now_micros())).unwrap();
    for size in [1024usize, 10240, 102400, 1048576] {
        let content = "A".repeat(size);
        let id = client.add(with_content(ws, &content, 0.5)).unwrap();
        assert_eq!(text_of(&client.get(id).unwrap()).len(), size);
    }
    let repetitive = "The quick brown fox jumps over the lazy dog. ".repeat(1000);
    let id = client.add(with_content(ws, &repetitive, 0.5)).unwrap();
    assert_eq!(text_of(&client.get(id).unwrap()).len(), repetitive.len());
}

#[test]
fn test_workspace_name_boundaries() {
    let mut client = MemoryClient::new();
    let empty = client.create_workspace(Workspace::new(fresh_id(), String::new(), now_micros())).unwrap();
    assert!(client.get_workspace(empty).is_ok());
    let long_name = "A".repeat(1024);
    let id = client.create_workspace(Workspace::new(fresh_id(), long_name.clone(), now_micros())).unwrap();
    assert_eq!(client.get_workspace(id).unwrap().name, long_name);
    let unicode_name = "工作区测试 🌍";
    let id = client.create_workspace(Workspace::new(fresh_id(), unicode_name.to_string(), now_micros())).unwrap();
    assert_eq!(client.get_workspace(id).unwrap().name, unicode_name);
    let special_name = "workspace-1.0 (test)";
    let id = client.create_workspace(Workspace::new(fresh_id(), special_name.to_string(), now_micros())).unwrap();
    assert_eq!(client.get_workspace(id).unwrap().name, special_name);
}

#[test]
fn test_zero_limit_search() {
    let mut client = MemoryClient::new();
    let ws = client.create_workspace(Workspace::new(fresh_id(), "Zero Limit Test".to_string(), now_micros())).unwrap();
    for i in 0..5 {
        client.add(with_content(ws, &format!("Test memory {}", i), 0.8)).unwrap();
    }
    let results = client.list(ws, &text_query("Test memory", ws, 0, 0)).unwrap();
    assert!(results.len() <= 5);
    assert!(results.is_empty());
}

#[test]
fn test_large_offset_pagination() {
    let mut client = MemoryClient::new();
    let ws = client.create_workspace(Workspace::new(fresh_id(), "Large Offset Test".to_string(), now_micros())).unwrap();
    for i in 0..100 {
        client.add(with_content(ws, &format!("Pagination memory {}", i), 0.8)).unwrap();
    }
    for offset in [0usize, 1, 10, 50, 99, 100, 1000] {
        let results = client.list(ws, &text_query("Pagination memory", ws, 10, offset)).unwrap();
        if offset < 100 {
            assert!(results.len() <= 10);
        } else {
            assert!(results.is_empty());
        }
    }
    let results = client.list(ws, &text_query("Pagination memory", ws, 1000, 50)).unwrap();
    assert!(results.len() <= 50);
    assert_eq!(results.len(), 50);
}
