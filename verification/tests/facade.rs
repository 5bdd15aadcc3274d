use memos::error::MemoryError;
use memos::facade::MemosClient;
use memos::types::{MemoryContent, MemorySource, MemoryStatus};

fn now_micros() -> i64 {
    std::time::SystemTime::now()
        .duration_since(std::time::UNIX_EPOCH)
        .unwrap()
        .as_micros() as i64
}

fn fresh_id() -> u128 {
    uuid::Uuid::new_v4().as_u128()
}

fn tags(v: &[&str]) -> Vec<String> {
    v.iter().map(|s| s.to_string()).collect()
}

#[test]
fn quick_start_add_and_search() {
    let mut client = MemosClient::new_in_memory();
    let ws = client.create_workspace("default".to_string(), fresh_id(), now_micros()).unwrap();
    let id = client.add_memory(ws, "Hello World", &tags(&["test"]), fresh_id(), now_micros()).unwrap();
    let results = client.search("hello", ws).unwrap();
    assert_eq!(results.len(), 1);
    let m = &results[0].memory;
    assert_eq!(m.id, id);
    assert_eq!(m.workspace_id, ws);
    assert!(matches!(&m.content, MemoryContent::Text(t) if t == "Hello World"));
    assert!(matches!(&m.metadata.source, MemorySource::UserQuery { query } if query == "Hello World"));
    assert_eq!(m.metadata.tags, tags(&["test"]));
    assert_eq!(m.status, MemoryStatus::Active);
}

#[test]
fn search_example_counts() {
    let mut client = MemosClient::new_in_memory();
    let ws = client.create_workspace("search-demo".to_string(), fresh_id(), now_micros()).unwrap();
    for (content, t) in [
        ("Rust is a systems programming language", &["rust", "programming"][..]),
        ("Python is great for data science", &["python", "data"][..]),
        ("JavaScript runs in the browser", &["javascript", "web"][..]),
        ("Rust has great memory safety", &["rust", "memory"][..]),
    ] {
        client.add_memory(ws, content, &tags(t), fresh_id(), now_micros()).unwrap();
    }
    assert_eq!(client.search("Rust", ws).unwrap().len(), 2);
    assert_eq!(client.list_memories(ws).unwrap().len(), 4);
}

#[test]
fn lifecycle_example_stats() {
    let mut client = MemosClient::new_in_memory();
    let ws = client.create_workspace("lifecycle-demo".to_string(), fresh_id(), now_micros()).unwrap();
    for (content, t) in [("Active memory 1", "tag1"), ("Active memory 2", "tag2"), ("Old memory to archive", "archive")] {
        client.add_memory(ws, content, &tags(&[t]), fresh_id(), now_micros()).unwrap();
    }
    assert_eq!(client.list_memories(ws).unwrap().len(), 3);
    let stats = client.get_workspace_stats(ws).unwrap();
    assert_eq!(stats.total_memories, 3);
    assert_eq!(stats.active_count, 3);
    assert_eq!(stats.importances, vec![0.5f32.to_bits(); 3]);
}

#[test]
fn quick_search_keeps_first_ten() {
    let mut client = MemosClient::new_in_memory();
    let ws = client.create_workspace("w".to_string(), fresh_id(), now_micros()).unwrap();
    for i in 0..150 {
        client.add_memory(ws, &format!("note {}", i), &vec![], fresh_id(), now_micros()).unwrap();
    }
    assert_eq!(client.search("note", ws).unwrap().len(), 10);
    assert_eq!(client.list_memories(ws).unwrap().len(), 100);
}

#[test]
fn quick_delete_and_unknown_workspace() {
    let mut client = MemosClient::new_in_memory();
    let ws = client.create_workspace("w".to_string(), fresh_id(), now_micros()).unwrap();
    let id = client.add_memory(ws, "x", &vec![], fresh_id(), now_micros()).unwrap();
    client.delete_memory(id).unwrap();
    assert!(matches!(client.delete_memory(id), Err(MemoryError::NotFound(_))));
    assert!(client.list_memories(ws).unwrap().is_empty());
    assert!(matches!(client.get_workspace_stats(ws + 1), Err(MemoryError::WorkspaceError(_))));
}
