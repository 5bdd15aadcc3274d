use memos::client::{ClientConfig, MemoryClient};
use memos::error::MemoryError;
use memos::types::{MemoryContent, MemoryEntry, MemoryMetadata, MemorySource, SearchQuery, Workspace};

fn now_micros() -> i64 {
    std::time::SystemTime::now()
        .duration_since(std::time::UNIX_EPOCH)
        .unwrap()
        .as_micros() as i64
}

fn fresh_id() -> u128 {
    uuid::Uuid::new_v4().as_u128()
}

fn workspace(name: &str) -> Workspace {
    Workspace::new(fresh_id(), name.to_string(), now_micros())
}

fn memory(ws: u128, content: &str) -> MemoryEntry {
    MemoryEntry::new(fresh_id(), ws, MemoryContent::Text(content.to_string()), MemoryMetadata::new(MemorySource::UserQuery { query: "test".to_string() }).with_importance(0.5f32.to_bits()), now_micros())
}

fn text_of(c: &MemoryContent) -> String {
    match c {
        MemoryContent::Text(s) => s.clone(),
        _ => String::new(),
    }
}

fn in_workspace(ws: u128, limit: usize) -> SearchQuery {
    SearchQuery { workspace_id: Some(ws), limit, ..SearchQuery::default() }
}

fn text_in(text: &str, ws: u128, limit: usize) -> SearchQuery {
    SearchQuery { text: Some(text.to_string()), workspace_id: Some(ws), limit, ..SearchQuery::default() }
}

#[test]
fn test_full_memos_lifecycle() {
    let mut client = MemoryClient::new();
    let ws = client.create_workspace(workspace("Test Lifecycle Workspace")).unwrap();
    assert_ne!(ws, 0);
    let mut ids = Vec::new();
    for content in [
        "Rust programming language",
        "Async programming in Tokio",
        "Memory management systems",
        "Vector search with HNSW",
        "Full-text search with Tantivy",
    ] {
        ids.push(client.add(memory(ws, content)).unwrap());
    }
    assert_eq!(client.list(ws, &in_workspace(ws, 100)).unwrap().len(), 5);
    assert!(!client.search(&text_in("Rust", ws, 10)).unwrap().is_empty());
    let mut updated = client.get(ids[0]).unwrap();
    updated.content = MemoryContent::Text("Updated Rust content".to_string());
    client.update(updated).unwrap();
    assert_eq!(text_of(&client.get(ids[0]).unwrap().content), "Updated Rust content");
    client.delete_workspace(ws).unwrap();
    assert!(client.get(ids[0]).is_err());
}

#[test]
fn test_workspace_isolation() {
    let mut client = MemoryClient::new();
    let ws1 = client.create_workspace(workspace("Workspace 1")).unwrap();
    let ws2 = client.create_workspace(workspace("Workspace 2")).unwrap();
    client.add(memory(ws1, "Workspace 1 private data")).unwrap();
    client.add(memory(ws2, "Workspace 2 private data")).unwrap();
    let r1 = client.search(&text_in("private data", ws1, 10)).unwrap();
    assert_eq!(r1.len(), 1);
    assert!(text_of(&r1[0].memory.content).contains("Workspace 1"));
    let r2 = client.search(&text_in("private data", ws2, 10)).unwrap();
    assert_eq!(r2.len(), 1);
    assert!(text_of(&r2[0].memory.content).contains("Workspace 2"));
    client.delete_workspace(ws1).unwrap();
    assert_eq!(client.search(&in_workspace(ws2, 10)).unwrap().len(), 1);
}

#[test]
fn test_cross_module_data_flow() {
    let mut client = MemoryClient::new();
    let ws = client.create_workspace(workspace("Cross Module Test")).unwrap();
    let id = client.add(memory(ws, "Cross module test content")).unwrap();
    let retrieved = client.get(id).unwrap();
    assert_eq!(retrieved.id, id);
    assert!(client.list(ws, &in_workspace(ws, 10)).unwrap().iter().any(|r| r.memory.id == id));
    let mut updated = retrieved;
    updated.content = MemoryContent::Text("Updated cross module content".to_string());
    client.update(updated).unwrap();
    assert!(!client.search(&text_in("Updated", ws, 10)).unwrap().is_empty());
    client.delete(id).unwrap();
    assert!(client.get(id).is_err());
}

#[test]
fn test_batch_operations_realistic() {
    let mut client = MemoryClient::new();
    let ws = client.create_workspace(workspace("Batch Test")).unwrap();
    let mut ids = Vec::new();
    for i in 0..100 {
        ids.push(client.add(memory(ws, &format!("Batch memory number {}", i))).unwrap());
    }
    assert_eq!(client.list(ws, &in_workspace(ws, 200)).unwrap().len(), 100);
    assert_eq!(client.batch_delete(ids).unwrap().success_count, 100);
    assert!(client.list(ws, &in_workspace(ws, 200)).unwrap().is_empty());
}

#[test]
fn test_workspace_stats() {
    let mut client = MemoryClient::new();
    let ws = client.create_workspace(workspace("Stats Test")).unwrap();
    for i in 0..5 {
        let mut m = memory(ws, &format!("Memory with tag {}", i));
        m.metadata.tags = vec!["test".to_string(), "stats".to_string()];
        client.add(m).unwrap();
    }
    let tally = client.workspace_tally(ws).unwrap();
    assert_eq!(tally.total_memories, 5);
    assert_eq!(tally.active_count, 5);
}

#[test]
fn test_concurrent_memory_creation() {
    let mut client = MemoryClient::new();
    let ws = client.create_workspace(workspace("Concurrent Test")).unwrap();
    let mut all = Vec::new();
    for task in 0..10 {
        for i in 0..20 {
            all.push(client.add(memory(ws, &format!("Task {} Memory {}", task, i))).unwrap());
        }
    }
    assert_eq!(all.len(), 200);
    assert_eq!(client.list(ws, &in_workspace(ws, 300)).unwrap().len(), 200);
}

#[test]
fn test_concurrent_search_operations() {
    let mut client = MemoryClient::new();
    let ws = client.create_workspace(workspace("Search Concurrent Test")).unwrap();
    for category in ["Rust programming", "Python scripting", "JavaScript web", "Go concurrency", "Java enterprise"] {
        for i in 0..10 {
            client.add(memory(ws, &format!("{} tutorial {}", category, i))).unwrap();
        }
    }
    for term in ["Rust", "Python", "JavaScript", "Go", "Java"] {
        let results = client.search(&text_in(term, ws, 20)).unwrap();
        assert!(results.len() <= 20);
    }
}

#[test]
fn test_concurrent_workspace_operations() {
    let mut client = MemoryClient::new();
    let mut ids = Vec::new();
    for i in 0..20 {
        ids.push(client.create_workspace(workspace(&format!("Concurrent Workspace {}", i))).unwrap());
    }
    assert_eq!(ids.len(), 20);
    assert!(client.list_workspaces().unwrap().len() >= 20);
}

#[test]
fn test_empty_workspace_operations() {
    let mut client = MemoryClient::new();
    let ws = client.create_workspace(workspace("Empty Workspace")).unwrap();
    assert!(client.list(ws, &in_workspace(ws, 100)).unwrap().is_empty());
    assert!(client.search(&text_in("anything", ws, 10)).unwrap().is_empty());
}

#[test]
fn test_large_limit_values() {
    let mut client = MemoryClient::new();
    let ws = client.create_workspace(workspace("Large Limit Test")).unwrap();
    for i in 0..5 {
        client.add(memory(ws, &format!("Memory {}", i))).unwrap();
    }
    assert_eq!(client.list(ws, &in_workspace(ws, 10000)).unwrap().len(), 5);
}

#[test]
fn test_search_no_matches() {
    let mut client = MemoryClient::new();
    let ws = client.create_workspace(workspace("No Match Test")).unwrap();
    client.add(memory(ws, "Rust programming")).unwrap();
    assert!(client.search(&text_in("Python", ws, 10)).unwrap().is_empty());
}

#[test]
fn test_zero_limit() {
    let mut client = MemoryClient::new();
    let ws = client.create_workspace(workspace("Zero Limit Test")).unwrap();
    for i in 0..3 {
        client.add(memory(ws, &format!("Memory {}", i))).unwrap();
    }
    assert!(client.list(ws, &in_workspace(ws, 0)).unwrap().is_empty());
}

#[test]
fn integration_test_test_get_nonexistent_memory() {
    let client = MemoryClient::new();
    assert!(client.get(uuid::Uuid::new_v4().as_u128()).is_err());
}

#[test]
fn integration_test_test_delete_nonexistent_memory() {
    let mut client = MemoryClient::new();
    assert!(matches!(client.delete(uuid::Uuid::new_v4().as_u128()), Err(MemoryError::NotFound(_))));
}

#[test]
fn test_operations_after_invalid_workspace() {
    let mut client = MemoryClient::new();
    let ws = client.create_workspace(workspace("Valid Workspace")).unwrap();
    let id = client.add(memory(ws, "Valid memory")).unwrap();
    assert_ne!(id, 0);
    let _ = client.add(memory(0, "Invalid memory"));
    let id2 = client.add(memory(ws, "Another valid memory")).unwrap();
    assert_ne!(id2, 0);
}

#[test]
fn test_search_with_special_characters() {
    let mut client = MemoryClient::new();
    let ws = client.create_workspace(workspace("Special Char Test")).unwrap();
    client.add(memory(ws, "Test <script>alert('xss')</script> and \"quotes\" and 'apostrophes'")).unwrap();
    assert_eq!(client.search(&text_in("<script>", ws, 10)).unwrap().len(), 1);
}

#[test]
fn test_batch_operation_partial_failure() {
    let mut client = MemoryClient::new();
    let ws = client.create_workspace(workspace("Partial Failure Test")).unwrap();
    let mut ids = Vec::new();
    for i in 0..3 {
        ids.push(client.add(memory(ws, &format!("Valid memory {}", i))).unwrap());
    }
    ids.push(uuid::Uuid::new_v4().as_u128());
    let result = client.batch_delete(ids).unwrap();
    assert_eq!(result.success_count, 3);
    assert_eq!(result.failure_count, 1);
}

fn index_disabled_client() -> (MemoryClient, u128) {
    let mut client = MemoryClient::with_config(ClientConfig { storage_enabled: true, index_enabled: false });
    let ws = client.create_workspace(workspace("Index Disabled Test")).unwrap();
    client.add(memory(ws, "Test content")).unwrap();
    (client, ws)
}

#[test]
fn test_search_when_index_disabled() {
    let (client, ws) = index_disabled_client();
    assert!(client.search(&text_in("Test", ws, 10)).is_err());
}

#[test]
fn test_vector_search_when_index_disabled() {
    let (client, ws) = index_disabled_client();
    match client.vector_candidates(ws) {
        Err(MemoryError::IndexError(m)) => assert_eq!(m, "Index is disabled"),
        _ => panic!("Expected IndexError"),
    }
}
