use kvx::app_config::SinkConfig;
use kvx::backends::common_config::CommonSinkConfig;
use kvx::backends::elasticsearch::ElasticsearchSinkConfig;
use kvx::backends::file::FileSinkConfig;
use kvx::collectors::{CollectorBackend, JsonArrayCollector, NdjsonCollector, PayloadCollector};

fn es_sink_config() -> SinkConfig {
    SinkConfig::Elasticsearch(ElasticsearchSinkConfig {
        url: "http://localhost:9200".into(),
        username: None,
        password: None,
        api_key: None,
        index: None,
        common_config: Default::default(),
    })
}

fn file_sink_config() -> SinkConfig {
    SinkConfig::File(FileSinkConfig {
        file_name: "output.json".into(),
        common_config: Default::default(),
    })
}

fn check_ndjson_multiple_docs_get_newlines() {
    let collector = NdjsonCollector;
    let items = vec![
        String::from(r#"{"action":"index"}\n{"doc":1}"#),
        String::from(r#"{"action":"index"}\n{"doc":2}"#),
    ];
    let result = collector.collect(&items);
    assert!(result.ends_with('\n'), "NDJSON must end with trailing newline");
    assert_eq!(result.matches('\n').count(), 2, "One trailing \\n per item");
}

fn check_ndjson_empty_vec_produces_nothing() {
    let collector = NdjsonCollector;
    let result = collector.collect(&[]);
    assert!(result.is_empty(), "Empty input → empty output. Zen.");
}

fn check_ndjson_single_doc_still_gets_newline() {
    let collector = NdjsonCollector;
    let items = vec![String::from(r#"{"solo":true}"#)];
    let result = collector.collect(&items);
    assert_eq!(result, "{\"solo\":true}\n");
}

fn check_json_array_docs_become_an_array() {
    let collector = JsonArrayCollector;
    let items = vec![
        String::from(r#"{"doc":1}"#),
        String::from(r#"{"doc":2}"#),
        String::from(r#"{"doc":3}"#),
    ];
    let result = collector.collect(&items);
    assert_eq!(result, r#"[{"doc":1},{"doc":2},{"doc":3}]"#);
}

fn check_json_array_empty_vec_is_empty_array() {
    let collector = JsonArrayCollector;
    let result = collector.collect(&[]);
    assert_eq!(result, "[]");
}

fn check_json_array_single_doc_has_no_commas() {
    let collector = JsonArrayCollector;
    let items = vec![String::from(r#"{"lonely":true}"#)];
    let result = collector.collect(&items);
    assert_eq!(result, r#"[{"lonely":true}]"#);
}

fn check_backend_es_config_resolves_to_ndjson() {
    let config = es_sink_config();
    let collector = CollectorBackend::from_sink_config(&config);
    assert!(matches!(collector, CollectorBackend::Ndjson(_)));
}

fn check_backend_inmemory_resolves_to_json_array() {
    let config = SinkConfig::InMemory(());
    let collector = CollectorBackend::from_sink_config(&config);
    assert!(matches!(collector, CollectorBackend::JsonArray(_)));
}

fn check_backend_file_resolves_to_ndjson() {
    let config = file_sink_config();
    let collector = CollectorBackend::from_sink_config(&config);
    assert!(matches!(collector, CollectorBackend::Ndjson(_)));
}

#[test]
fn collectors_ndjson_the_one_where_multiple_docs_get_newlines() {
    check_ndjson_multiple_docs_get_newlines();
}

#[test]
fn collectors_ndjson_the_one_where_empty_vec_produces_nothing() {
    check_ndjson_empty_vec_produces_nothing();
}

#[test]
fn collectors_ndjson_the_one_where_single_doc_still_gets_newline() {
    check_ndjson_single_doc_still_gets_newline();
}

#[test]
fn collectors_json_array_the_one_where_docs_become_an_array() {
    check_json_array_docs_become_an_array();
}

#[test]
fn collectors_json_array_the_one_where_empty_vec_is_empty_array() {
    check_json_array_empty_vec_is_empty_array();
}

#[test]
fn collectors_json_array_the_one_where_single_doc_has_no_commas() {
    check_json_array_single_doc_has_no_commas();
}

#[test]
fn collectors_backend_the_one_where_es_config_resolves_to_ndjson() {
    check_backend_es_config_resolves_to_ndjson();
}

#[test]
fn collectors_backend_the_one_where_inmemory_resolves_to_json_array() {
    check_backend_inmemory_resolves_to_json_array();
}

#[test]
fn collectors_backend_the_one_where_file_resolves_to_ndjson() {
    check_backend_file_resolves_to_ndjson();
}

#[test]
fn json_array_json_array_the_one_where_docs_become_an_array() {
    check_json_array_docs_become_an_array();
}

#[test]
fn json_array_json_array_the_one_where_empty_vec_is_empty_array() {
    check_json_array_empty_vec_is_empty_array();
}

#[test]
fn json_array_json_array_the_one_where_single_doc_has_no_commas() {
    check_json_array_single_doc_has_no_commas();
}

#[test]
fn mod_backend_the_one_where_es_config_resolves_to_ndjson() {
    check_backend_es_config_resolves_to_ndjson();
}

#[test]
fn mod_backend_the_one_where_inmemory_resolves_to_json_array() {
    check_backend_inmemory_resolves_to_json_array();
}

#[test]
fn mod_backend_the_one_where_file_resolves_to_ndjson() {
    check_backend_file_resolves_to_ndjson();
}

#[test]
fn ndjson_ndjson_the_one_where_multiple_docs_get_newlines() {
    check_ndjson_multiple_docs_get_newlines();
}

#[test]
fn ndjson_ndjson_the_one_where_empty_vec_produces_nothing() {
    check_ndjson_empty_vec_produces_nothing();
}

#[test]
fn ndjson_ndjson_the_one_where_single_doc_still_gets_newline() {
    check_ndjson_single_doc_still_gets_newline();
}

#[test]
fn default_sink_config_asks_for_sixty_four_mebibytes() {
    assert_eq!(CommonSinkConfig::default().max_request_size_bytes, 64 * 1024 * 1024);
    assert_eq!(SinkConfig::InMemory(()).max_request_size_bytes(), 64 * 1024 * 1024);
    assert_eq!(es_sink_config().max_request_size_bytes(), 64 * 1024 * 1024);
    let small = SinkConfig::File(FileSinkConfig {
        file_name: "output.json".into(),
        common_config: CommonSinkConfig { max_request_size_bytes: 123456 },
    });
    assert_eq!(small.max_request_size_bytes(), 123456);
}

#[test]
fn json_array_does_not_look_into_its_items() {
    let collector = JsonArrayCollector;
    let items = vec![String::from("not json"), String::from(""), String::from("a,b")];
    assert_eq!(collector.collect(&items), "[not json,,a,b]");
}
