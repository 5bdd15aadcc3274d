use memos::error::TrainError;
use memos::model::{load_model_metadata, ModelManager, TrainModel};
use memos::train::{
    generate_simple_embeddings, simple_embedding, simple_hash, DataPreparer, ModelType, TrainData, TrainParams,
    Trainer, TrainingDevice, EMBEDDING_DIM,
};
use memos::types::{CodeContent, FileContent, FileType, MemoryContent, MemoryEntry, MemoryMetadata, MemorySource, MemoryStatus};

fn now_micros() -> i64 {
    std::time::SystemTime::now()
        .duration_since(std::time::UNIX_EPOCH)
        .unwrap()
        .as_micros() as i64
}

fn fresh_id() -> u128 {
    uuid::Uuid::new_v4().as_u128()
}

fn create_test_memory(text: &str, tags: Vec<&str>) -> MemoryEntry {
    MemoryEntry::new(fresh_id(), 0x42, MemoryContent::Text(text.to_string()), MemoryMetadata::new(MemorySource::System { source_type: "test".to_string() })
            .with_tags(tags.into_iter().map(|s| s.to_string()).collect()), now_micros())
}

fn create_test_data() -> TrainData {
    TrainData {
        texts: (1..=10).map(|i| format!("Sample text {} for training", i)).collect(),
        labels: Some(vec!["label1".to_string(); 10]),
        embeddings: None,
    }
}

#[test]
fn test_prepare_basic_text() {
    let preparer = DataPreparer::new();
    let memories = vec![
        create_test_memory("This is a sample memory for training", vec!["tag1"]),
        create_test_memory("Another memory with different content", vec!["tag2"]),
    ];
    let result = preparer.prepare(memories);
    assert!(result.is_ok());
    let data = result.unwrap();
    assert_eq!(data.texts.len(), 2);
    assert!(data.labels.is_some());
}

#[test]
fn test_prepare_empty_memories() {
    let preparer = DataPreparer::new();
    let result = preparer.prepare(vec![]);
    assert!(result.is_err());
    match result {
        Err(TrainError::InsufficientData(m)) => assert_eq!(m, "No valid text content found in memories"),
        _ => panic!("Expected InsufficientData"),
    }
}

#[test]
fn test_prepare_short_text_filtered() {
    let preparer = DataPreparer::new().with_min_text_length(50);
    let memories = vec![
        create_test_memory("Short", vec![]),
        create_test_memory("This is a much longer text that should pass the filter", vec![]),
    ];
    let data = preparer.prepare(memories).unwrap();
    assert_eq!(data.texts.len(), 1);
}

#[test]
fn test_extract_text_code() {
    let preparer = DataPreparer::new().with_include_code(true);
    let memory = MemoryEntry::new(fresh_id(), 0x1, MemoryContent::Code(CodeContent {
            language: "rust".to_string(),
            code: "fn main() {}".to_string(),
            ast_hash: None,
        }), MemoryMetadata::new(MemorySource::System { source_type: "test".to_string() }), now_micros());
    let result = preparer.prepare(vec![memory]);
    assert!(result.is_ok());
    assert_eq!(result.unwrap().texts, vec!["rust: fn main() {}".to_string()]);
}

#[test]
fn test_extract_labels_disabled() {
    let preparer = DataPreparer::new().with_extract_labels(false);
    let memories = vec![create_test_memory("Sample text for training", vec!["tag1", "tag2"])];
    let data = preparer.prepare(memories).unwrap();
    assert!(data.labels.is_none());
}

#[test]
fn labels_join_tags_or_default() {
    let preparer = DataPreparer::new();
    let memories = vec![
        create_test_memory("Sample text for training", vec!["tag1", "tag2"]),
        create_test_memory("Another sample text here", vec![]),
    ];
    let data = preparer.prepare(memories).unwrap();
    assert_eq!(data.labels.unwrap(), vec!["tag1,tag2".to_string(), "default".to_string()]);
}

#[test]
fn preparer_extract_text_rules() {
    let p = DataPreparer::new();
    let file = MemoryContent::File(FileContent { path: "p".to_string(), content: "file body".to_string(), file_type: FileType::Data });
    assert_eq!(p.extract_text(&file), Some("file body".to_string()));
    assert_eq!(DataPreparer::new().with_include_files(false).extract_text(&file), None);
    let code = MemoryContent::code("py", "x=1");
    assert_eq!(DataPreparer::new().with_include_code(false).extract_text(&code), None);
    let comp = MemoryContent::Composite(vec![MemoryContent::text("a"), code, MemoryContent::text("b")]);
    assert_eq!(p.extract_text(&comp), Some("a\npy: x=1\nb\n".to_string()));
    let empty_comp = MemoryContent::Composite(vec![]);
    assert_eq!(p.extract_text(&empty_comp), None);
}

#[test]
fn byte_length_counts_utf8_bytes() {
    let p = DataPreparer::new().with_min_text_length(6);
    let data = p.prepare(vec![create_test_memory("ééé", vec![])]).unwrap();
    assert_eq!(data.texts, vec!["ééé".to_string()]);
    assert!(DataPreparer::new().with_min_text_length(7).prepare(vec![create_test_memory("ééé", vec![])]).is_err());
}

#[test]
fn test_create_search_query() {
    let preparer = DataPreparer::new();
    let query = preparer.create_search_query(0x99);
    assert_eq!(query.workspace_id, Some(0x99));
    assert_eq!(query.status, Some(MemoryStatus::Active));
    assert_eq!(query.limit, 10000);
    assert_eq!(query.offset, 0);
}

#[test]
fn test_trainer_default() {
    let trainer = Trainer::default();
    assert!(matches!(trainer.device(), TrainingDevice::Cpu));
}

#[test]
fn trainer_with_device() {
    assert_eq!(Trainer::with_device(TrainingDevice::default()).device(), TrainingDevice::Cpu);
}

#[test]
fn test_train_empty_data() {
    let trainer = Trainer::new();
    let data = TrainData { texts: vec![], labels: None, embeddings: None };
    match trainer.check_request(&data, &TrainParams::default()) {
        Err(TrainError::InsufficientData(m)) => assert_eq!(m, "Training data contains no texts"),
        _ => panic!("Expected InsufficientData"),
    }
}

#[test]
fn test_train_invalid_epochs() {
    let mut params = TrainParams::default();
    params.epochs = 0;
    match Trainer::new().check_request(&create_test_data(), &params) {
        Err(TrainError::InvalidParameters(m)) => assert_eq!(m, "Epochs must be greater than 0"),
        _ => panic!("Expected InvalidParameters"),
    }
}

#[test]
fn test_train_invalid_batch_size() {
    let mut params = TrainParams::default();
    params.batch_size = 0;
    match Trainer::new().check_request(&create_test_data(), &params) {
        Err(TrainError::InvalidParameters(m)) => assert_eq!(m, "Batch size must be greater than 0"),
        _ => panic!("Expected InvalidParameters"),
    }
}

#[test]
fn test_train_negative_learning_rate() {
    let mut params = TrainParams::default();
    params.learning_rate = (-0.001f32).to_bits();
    match Trainer::new().check_request(&create_test_data(), &params) {
        Err(TrainError::InvalidParameters(m)) => assert_eq!(m, "Learning rate must be positive"),
        _ => panic!("Expected InvalidParameters"),
    }
    params.learning_rate = 0.0f32.to_bits();
    assert!(Trainer::new().validate_params(&params).is_err());
    params.learning_rate = f32::NAN.to_bits();
    assert!(Trainer::new().validate_params(&params).is_ok());
}

#[test]
fn test_train_insufficient_samples_classifier() {
    let data = TrainData {
        texts: vec!["only one sample".to_string()],
        labels: Some(vec!["label1".to_string()]),
        embeddings: None,
    };
    let mut params = TrainParams::default();
    params.model_type = ModelType::Classifier;
    match Trainer::new().check_request(&data, &params) {
        Err(TrainError::InsufficientData(m)) => {
            assert_eq!(m, "Insufficient training samples: have 1, need at least 20")
        }
        _ => panic!("Expected InsufficientData"),
    }
}

#[test]
fn test_train_basic() {
    let params = TrainParams {
        model_type: ModelType::Embedding,
        epochs: 5,
        batch_size: 32,
        learning_rate: 0.001f32.to_bits(),
        output_dir: "/tmp/test_models".to_string(),
    };
    assert!(Trainer::new().check_request(&create_test_data(), &params).is_ok());
}

#[test]
fn model_file_name_format() {
    let id = 0x0123_4567_89ab_4def_8123_4567_89ab_cdefu128;
    let name = Trainer::model_file_name(ModelType::Reranker, id);
    assert_eq!(name, format!("reranker_{}.model", uuid::Uuid::from_u128(id)));
}

#[test]
fn lib_test_simple_hash() {
    let hash1 = simple_hash("hello");
    let hash2 = simple_hash("hello");
    let hash3 = simple_hash("world");
    assert_eq!(hash1, hash2);
    assert_ne!(hash1, hash3);
}

fn reference_hash(text: &str) -> u64 {
    let mut hash: u64 = 0;
    for (i, byte) in text.bytes().enumerate() {
        hash = hash.wrapping_add((byte as u64).wrapping_mul(i as u64 + 1));
        hash = hash.rotate_left(5);
    }
    if hash == 0 {
        hash = 1;
    }
    hash
}

#[test]
fn simple_hash_values() {
    assert_eq!(simple_hash(""), 1);
    assert_eq!(simple_hash("a"), 97u64.rotate_left(5));
    for t in ["hello", "world", "ünïcödé", "a much longer piece of text"] {
        assert_eq!(simple_hash(t), reference_hash(t));
    }
}

#[test]
fn lib_test_generate_simple_embeddings() {
    let texts = vec!["hello world".to_string(), "foo bar".to_string()];
    let embeddings = generate_simple_embeddings(&texts);
    assert_eq!(embeddings.len(), 2);
    assert_eq!(embeddings[0].len(), 128);
    assert_eq!(embeddings[1].len(), 128);
    assert_eq!(EMBEDDING_DIM, 128);
}

#[test]
fn embedding_components_follow_hash_bits() {
    let e = simple_embedding("hello");
    let h = reference_hash("hello");
    for i in 0..128usize {
        let expected = if (h >> (i % 64)) & 1 == 1 { 1.0f32 } else { -1.0f32 };
        assert_eq!(f32::from_bits(e[i]), expected);
    }
}

#[test]
fn model_metadata_from_json() {
    let id = uuid::Uuid::from_u128(0x0123_4567_89ab_4def_8123_4567_89ab_cdef);
    let content = format!(
        "{{\"model_id\":\"{}\",\"model_type\":\"Classifier\",\"name\":\"m1\",\"created_at\":\"2024-01-02T03:04:05Z\"}}",
        id
    );
    let m = load_model_metadata(&content, "/models/x.model", Some("x"), 77, 5);
    assert_eq!(m.id, id.as_u128());
    assert_eq!(m.name, "m1");
    assert_eq!(m.model_type, ModelType::Classifier);
    assert_eq!(m.created_at, 1_704_164_645_000_000);
    assert_eq!(m.file_path, "/models/x.model");
}

#[test]
fn model_metadata_defaults() {
    let m = load_model_metadata("{\"model_type\":\"other\"}", "p", None, 77, 5);
    assert_eq!((m.id, m.name.as_str(), m.model_type, m.created_at), (77, "Unknown", ModelType::Embedding, 5));
    let raw = load_model_metadata("not json at all", "dir/y.model", Some("y"), 78, 6);
    assert_eq!((raw.id, raw.name.as_str(), raw.model_type, raw.created_at), (78, "y", ModelType::Embedding, 6));
    let nostem = load_model_metadata("not json", "q", None, 79, 7);
    assert_eq!(nostem.name, "model");
}

#[test]
fn model_manager_cache() {
    let mut mgr = ModelManager::new("/models".to_string());
    assert_eq!(mgr.models_dir(), "/models");
    assert!(mgr.list_models().is_empty());
    let model = TrainModel { id: 5, name: "a".to_string(), model_type: ModelType::Embedding, created_at: 1, file_path: "f".to_string() };
    mgr.record_saved(model);
    assert_eq!(mgr.get_model(5).unwrap().name, "a");
    match mgr.get_model(6) {
        Err(TrainError::ModelNotFound(m)) => assert_eq!(m, uuid::Uuid::from_u128(6).to_string()),
        _ => panic!("Expected ModelNotFound"),
    }
    let removed = mgr.remove_model(5).unwrap();
    assert_eq!(removed.file_path, "f");
    assert!(mgr.remove_model(5).is_err());
    assert!(mgr.list_models().is_empty());
}

fn saved(id: u128, model_type: ModelType, name: &str) -> TrainModel {
    let file = format!("/models/{}", Trainer::model_file_name(model_type, id));
    TrainModel { id, name: name.to_string(), model_type, created_at: 1, file_path: file }
}

#[test]
fn test_model_manager_initialize() {
    let mgr = ModelManager::new("/tmp/models".to_string());
    assert!(mgr.list_models().is_empty());
}

#[test]
fn mod_test_list_models_empty() {
    let mut mgr = ModelManager::new("/tmp/models".to_string());
    mgr.replace_models(vec![]);
    assert!(mgr.list_models().is_empty());
}

#[test]
fn mod_test_load_nonexistent_model() {
    let mgr = ModelManager::new("/tmp/models".to_string());
    let id = uuid::Uuid::new_v4().as_u128();
    match mgr.get_model(id) {
        Err(TrainError::ModelNotFound(m)) => assert_eq!(m, uuid::Uuid::from_u128(id).to_string()),
        _ => panic!("Expected ModelNotFound"),
    }
}

#[test]
fn test_get_model_not_found() {
    let mgr = ModelManager::new("/tmp/models".to_string());
    assert!(mgr.get_model(uuid::Uuid::new_v4().as_u128()).is_err());
}

#[test]
fn test_models_dir() {
    let mgr = ModelManager::new("/tmp/some_models".to_string());
    assert_eq!(mgr.models_dir(), "/tmp/some_models");
}

#[test]
fn test_refresh_cache() {
    let mut mgr = ModelManager::new("/tmp/models".to_string());
    assert!(mgr.list_models().is_empty());
    let content = r#"{"model_id": "00000000-0000-0000-0000-000000000001", "model_type": "embedding", "name": "test_model"}"#;
    let path = "/tmp/models/embedding_00000000-0000-0000-0000-000000000001.model";
    let model = load_model_metadata(content, path, Some("embedding_00000000-0000-0000-0000-000000000001"), 99, 5);
    mgr.replace_models(vec![model]);
    let models = mgr.list_models();
    assert_eq!(models.len(), 1);
    assert_eq!(models[0].id, 1);
    assert_eq!(models[0].name, "test_model");
}

#[test]
fn test_load_model_metadata() {
    let content = r#"{"model_id":"00000000-0000-0000-0000-000000000002","model_type":"classifier","name":"my_classifier","created_at":"2024-01-01T00:00:00Z"}"#;
    let model = load_model_metadata(content, "/m/classifier_x.model", Some("classifier_x"), 9, 0);
    assert_eq!(model.name, "my_classifier");
    assert!(matches!(model.model_type, ModelType::Classifier));
    assert_eq!(model.id, 2);
    assert_eq!(model.created_at, 1_704_067_200_000_000);
}

#[test]
fn test_save_model() {
    let mut mgr = ModelManager::new("/models".to_string());
    let id = uuid::Uuid::new_v4().as_u128();
    mgr.record_saved(saved(id, ModelType::Embedding, "test_embedding"));
    let got = mgr.get_model(id).unwrap();
    assert_eq!(got.id, id);
    assert_eq!(got.name, "test_embedding");
    assert!(matches!(got.model_type, ModelType::Embedding));
    assert_eq!(mgr.list_models().len(), 1);
}

#[test]
fn test_save_model_different_types() {
    let mut mgr = ModelManager::new("/models".to_string());
    for (t, name) in [
        (ModelType::Embedding, "my_embedding"),
        (ModelType::Classifier, "my_classifier"),
        (ModelType::Reranker, "my_reranker"),
    ] {
        let id = uuid::Uuid::new_v4().as_u128();
        mgr.record_saved(saved(id, t, name));
        assert_eq!(mgr.get_model(id).unwrap().model_type, t);
    }
    assert_eq!(mgr.list_models().len(), 3);
}

#[test]
fn test_delete_model() {
    let mut mgr = ModelManager::new("/models".to_string());
    let id = uuid::Uuid::new_v4().as_u128();
    mgr.record_saved(saved(id, ModelType::Embedding, "to_delete"));
    let removed = mgr.remove_model(id).unwrap();
    assert_eq!(removed.name, "to_delete");
    assert!(mgr.list_models().is_empty());
}

#[test]
fn test_delete_nonexistent_model() {
    let mut mgr = ModelManager::new("/models".to_string());
    assert!(matches!(mgr.remove_model(uuid::Uuid::new_v4().as_u128()), Err(TrainError::ModelNotFound(_))));
}

#[test]
fn test_load_saved_model() {
    let mut mgr = ModelManager::new("/models".to_string());
    let id = uuid::Uuid::new_v4().as_u128();
    mgr.record_saved(saved(id, ModelType::Embedding, "loadable_model"));
    assert_eq!(mgr.get_model(id).unwrap().id, id);
}

#[test]
fn saved_model_file_with_payload_reads_as_plain_model() {
    let content = "{\"model_id\":\"00000000-0000-0000-0000-000000000003\",\"name\":\"n\"}\nmock model data";
    let model = load_model_metadata(content, "/m/embedding_3.model", Some("embedding_3"), 42, 8);
    assert_eq!(model.id, 42);
    assert_eq!(model.name, "embedding_3");
    assert_eq!(model.created_at, 8);
}

fn system_memory(text: &str) -> MemoryEntry {
    MemoryEntry::new(fresh_id(), uuid::Uuid::new_v4().as_u128(), MemoryContent::Text(text.to_string()), MemoryMetadata::new(MemorySource::System { source_type: "test".to_string() }), now_micros())
}

#[test]
fn test_prepare_data_empty_workspace() {
    match DataPreparer::new().prepare(vec![]) {
        Err(TrainError::InsufficientData(m)) => assert_eq!(m, "No valid text content found in memories"),
        _ => panic!("Expected InsufficientData"),
    }
}

#[test]
fn test_prepare_data_with_memories() {
    let memories = vec![
        system_memory("This is a sample memory for training purposes"),
        system_memory("Another memory with different content for training"),
    ];
    let data = DataPreparer::new().prepare(memories).unwrap();
    assert_eq!(data.texts.len(), 2);
    assert_eq!(data.texts[0], "This is a sample memory for training purposes");
}

#[test]
fn test_generate_embeddings_flow() {
    let texts = vec!["Hello world".to_string(), "Rust programming".to_string(), "Machine learning".to_string()];
    let embeddings = generate_simple_embeddings(&texts);
    assert_eq!(embeddings.len(), 3);
    for e in &embeddings {
        assert_eq!(e.len(), 128);
        assert!(e.iter().all(|b| *b == 1.0f32.to_bits() || *b == (-1.0f32).to_bits()));
    }
}

#[test]
fn test_train_different_model_types() {
    let trainer = Trainer::new();
    let texts: Vec<String> = (0..20).map(|i| format!("Training text sample {}", i)).collect();
    let data = TrainData { texts: texts.clone(), labels: None, embeddings: None };
    let params = TrainParams {
        model_type: ModelType::Embedding,
        epochs: 1,
        batch_size: 4,
        learning_rate: 0.001f32.to_bits(),
        output_dir: "/tmp/models".to_string(),
    };
    assert!(trainer.check_request(&data, &params).is_ok());
    let labels: Vec<String> = (0..20).map(|i| format!("class_{}", i % 3)).collect();
    let labelled = TrainData { texts, labels: Some(labels), embeddings: None };
    let params = TrainParams { model_type: ModelType::Classifier, ..params };
    assert!(trainer.check_request(&labelled, &params).is_ok());
}

#[test]
fn test_train_data_edge_cases() {
    let trainer = Trainer::new();
    let empty = TrainData { texts: vec!["".to_string()], labels: None, embeddings: None };
    match trainer.check_request(&empty, &TrainParams::default()) {
        Err(TrainError::InsufficientData(m)) => {
            assert_eq!(m, "Insufficient training samples: have 1, need at least 10")
        }
        _ => panic!("Expected InsufficientData"),
    }
    let long = TrainData { texts: vec!["word ".repeat(1000); 15], labels: None, embeddings: None };
    assert!(trainer.check_request(&long, &TrainParams::default()).is_ok());
}
