use rag_api_server::config::{is_valid_url, model_bindings, ConfigError};
use rag_api_server::pipeline::PipelineConfig;

fn strings(items: &[&str]) -> Vec<String> {
    items.iter().map(|s| s.to_string()).collect()
}

#[test]
fn bindings_pair_chat_then_embedding() {
    let b = model_bindings(
        strings(&["Llama-2-7b", "all-minilm"]),
        strings(&["default", "embedding"]),
        vec![4096, 384],
    )
    .unwrap();
    assert_eq!(b.chat.name, "Llama-2-7b");
    assert_eq!(b.chat.alias, "default");
    assert_eq!(b.chat.context_size, 4096);
    assert_eq!(b.embedding.name, "all-minilm");
    assert_eq!(b.embedding.alias, "embedding");
    assert_eq!(b.embedding.context_size, 384);

    let c = PipelineConfig::new("sys".to_string(), &b, "docs".to_string(), 3, 400_000);
    assert_eq!(c.chat_alias, "default");
    assert_eq!(c.embedding_alias, "embedding");
    assert_eq!(c.context_size, 4096);
    assert_eq!(c.collection, "docs");
    assert_eq!(c.limit, 3);
    assert_eq!(c.score_threshold, 400_000);
}

#[test]
fn bindings_need_exactly_two_of_each() {
    let two = || strings(&["a", "b"]);
    assert_eq!(model_bindings(strings(&["a"]), two(), vec![1, 2]).unwrap_err(), ConfigError::ModelNames);
    assert_eq!(
        model_bindings(strings(&["a", "b", "c"]), two(), vec![1, 2]).unwrap_err(),
        ConfigError::ModelNames
    );
    assert_eq!(model_bindings(two(), strings(&["x"]), vec![1, 2]).unwrap_err(), ConfigError::ModelAliases);
    assert_eq!(model_bindings(two(), two(), vec![1]).unwrap_err(), ConfigError::ContextSizes);
}

#[test]
fn service_url_check() {
    assert!(is_valid_url("http://localhost:6333"));
    assert!(is_valid_url("https://qdrant.example"));
    assert!(!is_valid_url("http://"));
    assert!(!is_valid_url("ftp://host"));
    assert!(!is_valid_url("localhost:6333"));
    assert!(!is_valid_url(""));
}
