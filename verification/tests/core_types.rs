use memos::floats::{F32_HALF, F32_ONE, F32_ZERO};
use memos::train::{ModelType, TrainParams};
use memos::types::{
    BatchResult, FileContent, FileType, MemoryContent, MemoryEntry, MemoryMetadata, MemorySource,
    MemoryStats, MemoryStatus, SearchQuery, Workspace, WorkspaceConfig,
};
use memos::VERSION;

fn fresh_id() -> u128 {
    uuid::Uuid::new_v4().as_u128()
}

fn now_micros() -> i64 {
    std::time::SystemTime::now()
        .duration_since(std::time::UNIX_EPOCH)
        .unwrap()
        .as_micros() as i64
}

#[test]
fn test_version() {
    assert_eq!(VERSION, "0.1.0");
}

#[test]
fn test_memory_entry_new() {
    let workspace_id: u128 = 0x1234_5678_9abc_4def_8000_0000_0000_0001;
    let content = MemoryContent::text("test content");
    let metadata = MemoryMetadata::new(MemorySource::UserQuery {
        query: "test query".to_string(),
    });

    let entry = MemoryEntry::new(fresh_id(), workspace_id, content, metadata, now_micros());

    assert_ne!(entry.id, 0);
    assert_eq!(entry.workspace_id, workspace_id);
    assert!(entry.embedding.is_none());
    assert_eq!(entry.status, MemoryStatus::Active);
    assert_eq!(entry.access_count, 0);
    assert!(entry.last_accessed.is_none());
    assert!(entry.created_at <= now_micros());
    assert!(entry.updated_at <= now_micros());
}

#[test]
fn test_memory_entry_increment_access() {
    let content = MemoryContent::text("test content");
    let metadata = MemoryMetadata::new(MemorySource::File {
        path: "/test/file.rs".to_string(),
    });
    let mut entry = MemoryEntry::new(fresh_id(), 7, content, metadata, now_micros());

    assert_eq!(entry.access_count, 0);
    assert!(entry.last_accessed.is_none());

    entry.increment_access(now_micros());
    assert_eq!(entry.access_count, 1);
    assert!(entry.last_accessed.is_some());
    let first_access = entry.last_accessed;

    entry.increment_access(now_micros());
    assert_eq!(entry.access_count, 2);
    assert!(entry.last_accessed.is_some());
    assert!(entry.last_accessed >= first_access);
}

#[test]
fn increment_access_uses_given_instant() {
    let mut entry = MemoryEntry::new(
        1,
        2,
        MemoryContent::text("x"),
        MemoryMetadata::new(MemorySource::System { source_type: "t".to_string() }),
        100,
    );
    entry.increment_access(250);
    assert_eq!(entry.access_count, 1);
    assert_eq!(entry.last_accessed, Some(250));
    assert_eq!(entry.created_at, 100);
    assert_eq!(entry.updated_at, 100);
}

#[test]
fn test_memory_content_text() {
    let content = MemoryContent::text("hello world");
    match content {
        MemoryContent::Text(s) => assert_eq!(s, "hello world"),
        _ => panic!("Expected Text variant"),
    }
}

#[test]
fn test_memory_content_code() {
    let content = MemoryContent::code("rust", "fn main() {}");
    match content {
        MemoryContent::Code(code) => {
            assert_eq!(code.language, "rust");
            assert_eq!(code.code, "fn main() {}");
            assert!(code.ast_hash.is_none());
        }
        _ => panic!("Expected Code variant"),
    }
}

#[test]
fn test_memory_content_as_text() {
    let text_content = MemoryContent::text("hello");
    assert_eq!(text_content.as_text(), Some("hello"));

    let code_content = MemoryContent::code("rust", "fn main() {}");
    assert_eq!(code_content.as_text(), None);

    let file_content = MemoryContent::File(FileContent {
        path: "test.rs".to_string(),
        content: "".to_string(),
        file_type: FileType::SourceCode,
    });
    assert_eq!(file_content.as_text(), None);
}

#[test]
fn test_memory_content_composite() {
    let contents = vec![MemoryContent::text("part 1"), MemoryContent::code("js", "console.log(1)")];
    let composite = MemoryContent::Composite(contents);
    match composite {
        MemoryContent::Composite(items) => assert_eq!(items.len(), 2),
        _ => panic!("Expected Composite variant"),
    }
}

#[test]
fn composite_deep_clone_keeps_parts() {
    let composite = MemoryContent::Composite(vec![
        MemoryContent::text("a"),
        MemoryContent::Composite(vec![MemoryContent::code("go", "x")]),
    ]);
    match composite.clone() {
        MemoryContent::Composite(items) => {
            assert_eq!(items.len(), 2);
            assert_eq!(items[0].as_text(), Some("a"));
            match &items[1] {
                MemoryContent::Composite(inner) => match &inner[0] {
                    MemoryContent::Code(c) => assert_eq!(c.code, "x"),
                    _ => panic!("Expected Code"),
                },
                _ => panic!("Expected Composite"),
            }
        }
        _ => panic!("Expected Composite variant"),
    }
}

#[test]
fn test_file_type_from_extension_source_code() {
    let extensions = vec![
        "rs", "js", "ts", "jsx", "tsx", "py", "go", "java", "c", "cpp", "h", "hpp", "cs", "rb",
        "php", "swift", "kt", "scala", "vue", "svelte",
    ];
    for ext in extensions {
        assert_eq!(FileType::from_extension(ext), FileType::SourceCode, "Failed for extension: {}", ext);
    }
    assert_eq!(FileType::from_extension("RS"), FileType::SourceCode);
    assert_eq!(FileType::from_extension("JS"), FileType::SourceCode);
    assert_eq!(FileType::from_extension("Py"), FileType::SourceCode);
}

#[test]
fn test_file_type_from_extension_documentation() {
    for ext in vec!["md", "txt", "rst", "adoc", "tex"] {
        assert_eq!(FileType::from_extension(ext), FileType::Documentation, "Failed for extension: {}", ext);
    }
}

#[test]
fn test_file_type_from_extension_configuration() {
    for ext in vec!["json", "yaml", "yml", "toml", "xml", "ini", "env", "conf", "config"] {
        assert_eq!(FileType::from_extension(ext), FileType::Configuration, "Failed for extension: {}", ext);
    }
}

#[test]
fn test_file_type_from_extension_data() {
    for ext in vec!["csv", "tsv", "sql", "parquet", "arrow"] {
        assert_eq!(FileType::from_extension(ext), FileType::Data, "Failed for extension: {}", ext);
    }
}

#[test]
fn test_file_type_from_extension_other() {
    assert_eq!(FileType::from_extension("unknown"), FileType::Other);
    assert_eq!(FileType::from_extension(""), FileType::Other);
    assert_eq!(FileType::from_extension("xyz"), FileType::Other);
}

#[test]
fn test_memory_metadata_new() {
    let source = MemorySource::File { path: "/test.rs".to_string() };
    let metadata = MemoryMetadata::new(source.clone());
    assert_eq!(metadata.source, source);
    assert!(metadata.tags.is_empty());
    assert!(metadata.custom_fields.is_empty());
    assert_eq!(f32::from_bits(metadata.importance), 0.5);
    assert_eq!(metadata.importance, F32_HALF);
}

#[test]
fn test_memory_metadata_with_importance() {
    let source = MemorySource::System { source_type: "test".to_string() };
    let metadata = MemoryMetadata::new(source).with_importance(0.9f32.to_bits());
    assert_eq!(f32::from_bits(metadata.importance), 0.9);
}

#[test]
fn importance_is_clamped_to_unit_range() {
    let source = MemorySource::System { source_type: "test".to_string() };
    let high = MemoryMetadata::new(source.clone()).with_importance(3.5f32.to_bits());
    assert_eq!(high.importance, F32_ONE);
    let low = MemoryMetadata::new(source).with_importance((-2.0f32).to_bits());
    assert_eq!(low.importance, F32_ZERO);
}

#[test]
fn test_memory_metadata_with_tags() {
    let source = MemorySource::UserQuery { query: "test".to_string() };
    let metadata = MemoryMetadata::new(source).with_tags(vec!["tag1".to_string(), "tag2".to_string()]);
    assert_eq!(metadata.tags, vec!["tag1", "tag2"]);
}

#[test]
fn test_memory_metadata_with_custom_field() {
    let source = MemorySource::File { path: "/test.rs".to_string() };
    let mut metadata = MemoryMetadata::new(source);
    metadata.set_custom_field("key1", "value1");
    let found = metadata.custom_fields.iter().find(|(k, _)| k == "key1").map(|(_, v)| v.clone());
    assert_eq!(found, Some("value1".to_string()));
}

#[test]
fn set_custom_field_replaces_existing_key() {
    let mut metadata = MemoryMetadata::new(MemorySource::System { source_type: "s".to_string() });
    metadata.set_custom_field("k", "one");
    metadata.set_custom_field("other", "x");
    metadata.set_custom_field("k", "two");
    assert_eq!(metadata.custom_fields.len(), 2);
    assert_eq!(metadata.custom_fields[0], ("k".to_string(), "two".to_string()));
}

#[test]
fn test_workspace_new() {
    let workspace = Workspace::new(fresh_id(), "test workspace".to_string(), now_micros());
    assert_ne!(workspace.id, 0);
    assert_eq!(workspace.name, "test workspace");
    assert!(workspace.description.is_none());
    assert_eq!(workspace.config.max_memory_size, 10_000_000);
    assert_eq!(workspace.config.retention_days, 90);
    assert!(workspace.config.auto_archive);
    assert!(workspace.config.embedding_model.is_none());
}

#[test]
fn test_workspace_with_description() {
    let workspace = Workspace::new(fresh_id(), "test".to_string(), now_micros()).with_description("A test workspace".to_string());
    assert_eq!(workspace.description, Some("A test workspace".to_string()));
}

#[test]
fn test_workspace_default_config() {
    let config = WorkspaceConfig::default();
    assert_eq!(config.max_memory_size, 10_000_000);
    assert_eq!(config.retention_days, 90);
    assert!(config.auto_archive);
    assert!(config.embedding_model.is_none());
}

#[test]
fn test_search_query_default() {
    let query = SearchQuery::default();
    assert!(query.text.is_none());
    assert!(query.tags.is_none());
    assert!(query.workspace_id.is_none());
    assert!(query.status.is_none());
    assert!(query.date_range.is_none());
    assert_eq!(query.limit, 10);
    assert_eq!(query.offset, 0);
}

#[test]
fn test_batch_result_new() {
    let result = BatchResult::new();
    assert_eq!(result.success_count, 0);
    assert_eq!(result.failure_count, 0);
    assert!(result.errors.is_empty());
}

#[test]
fn test_batch_result_default() {
    let result = BatchResult::default();
    assert_eq!(result.success_count, 0);
    assert_eq!(result.failure_count, 0);
}

#[test]
fn test_batch_result_add_success() {
    let mut result = BatchResult::new();
    result.add_success();
    assert_eq!(result.success_count, 1);
    result.add_success();
    assert_eq!(result.success_count, 2);
}

#[test]
fn test_batch_result_add_failure() {
    let mut result = BatchResult::new();
    result.add_failure("error 1".to_string());
    assert_eq!(result.failure_count, 1);
    assert_eq!(result.errors.len(), 1);
    assert_eq!(result.errors[0], "error 1");
    result.add_failure("error 2".to_string());
    assert_eq!(result.failure_count, 2);
    assert_eq!(result.errors.len(), 2);
}

#[test]
fn test_memory_stats_default() {
    let stats = MemoryStats::default();
    assert_eq!(stats.total_memories, 0);
    assert_eq!(stats.active_count, 0);
    assert_eq!(stats.cooling_count, 0);
    assert_eq!(stats.cold_count, 0);
    assert_eq!(stats.zombie_count, 0);
    assert_eq!(stats.total_size_bytes, 0);
    assert_eq!(f32::from_bits(stats.average_importance), 0.0);
}

#[test]
fn test_memory_stats_with_values() {
    let stats = MemoryStats {
        total_memories: 100,
        active_count: 50,
        cooling_count: 20,
        cold_count: 20,
        zombie_count: 10,
        total_size_bytes: 1_000_000,
        average_importance: 0.75f32.to_bits(),
    };
    assert_eq!(stats.total_memories, 100);
    assert_eq!(stats.active_count, 50);
    assert_eq!(stats.cooling_count, 20);
    assert_eq!(stats.cold_count, 20);
    assert_eq!(stats.zombie_count, 10);
    assert_eq!(stats.total_size_bytes, 1_000_000);
    assert_eq!(f32::from_bits(stats.average_importance), 0.75);
}

#[test]
fn test_memory_status_default() {
    let status = MemoryStatus::default();
    assert_eq!(status, MemoryStatus::Active);
}

#[test]
fn test_memory_status_display() {
    assert_eq!(MemoryStatus::Active.to_display_string(), "Active");
    assert_eq!(MemoryStatus::Cooling.to_display_string(), "Cooling");
    assert_eq!(MemoryStatus::Cold.to_display_string(), "Cold");
    assert_eq!(MemoryStatus::Zombie.to_display_string(), "Zombie");
}

#[test]
fn test_memory_source_variants() {
    let file_source = MemorySource::File { path: "/test.rs".to_string() };
    match file_source {
        MemorySource::File { path } => assert_eq!(path, "/test.rs"),
        _ => panic!("Expected File variant"),
    }
    let query_source = MemorySource::UserQuery { query: "test query".to_string() };
    match query_source {
        MemorySource::UserQuery { query } => assert_eq!(query, "test query"),
        _ => panic!("Expected UserQuery variant"),
    }
    let system_source = MemorySource::System { source_type: "auto".to_string() };
    match system_source {
        MemorySource::System { source_type } => assert_eq!(source_type, "auto"),
        _ => panic!("Expected System variant"),
    }
    let training_source = MemorySource::Training { model_id: 0 };
    match training_source {
        MemorySource::Training { model_id } => assert_eq!(model_id, 0),
        _ => panic!("Expected Training variant"),
    }
}

#[test]
fn test_train_params_default() {
    let params = TrainParams::default();
    assert_eq!(params.model_type, ModelType::Embedding);
    assert_eq!(params.epochs, 10);
    assert_eq!(params.batch_size, 32);
    assert_eq!(f32::from_bits(params.learning_rate), 0.001);
    assert_eq!(params.output_dir, "models");
}

#[test]
fn test_train_params_custom() {
    let params = TrainParams {
        model_type: ModelType::Classifier,
        epochs: 50,
        batch_size: 64,
        learning_rate: 0.0001f32.to_bits(),
        output_dir: "custom_models".to_string(),
    };
    assert_eq!(params.model_type, ModelType::Classifier);
    assert_eq!(params.epochs, 50);
    assert_eq!(params.batch_size, 64);
    assert_eq!(f32::from_bits(params.learning_rate), 0.0001);
    assert_eq!(params.output_dir, "custom_models");
}

#[test]
fn test_model_type_variants() {
    assert_eq!(format!("{:?}", ModelType::Embedding), "Embedding");
    assert_eq!(format!("{:?}", ModelType::Classifier), "Classifier");
    assert_eq!(format!("{:?}", ModelType::Reranker), "Reranker");
}

#[test]
fn test_model_type_equality() {
    let m1 = ModelType::Embedding;
    let m2 = ModelType::Embedding;
    let m3 = ModelType::Classifier;
    assert_eq!(m1, m2);
    assert_ne!(m1, m3);
}

#[test]
fn test_model_type_clone() {
    let first = ModelType::Reranker;
    let cloned = first.clone();
    assert_eq!(first, cloned);
}

#[test]
fn test_model_type_copy() {
    let first = ModelType::Embedding;
    let copied = first;
    assert_eq!(first, copied);
}

#[test]
fn model_type_labels_and_minimum_samples() {
    assert_eq!(ModelType::Embedding.label(), "embedding");
    assert_eq!(ModelType::Classifier.label(), "classifier");
    assert_eq!(ModelType::Reranker.label(), "reranker");
    assert_eq!(ModelType::Embedding.min_samples(), 10);
    assert_eq!(ModelType::Classifier.min_samples(), 20);
    assert_eq!(ModelType::Reranker.min_samples(), 30);
}
