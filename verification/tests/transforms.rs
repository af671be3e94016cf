use kvx::app_config::{SinkConfig, SourceConfig};
use kvx::backends::common_config::{CommonSinkConfig, CommonSourceConfig};
use kvx::backends::elasticsearch::{ElasticsearchSinkConfig, ElasticsearchSourceConfig};
use kvx::backends::file::{FileSinkConfig, FileSourceConfig};
use kvx::backends::s3_rally::{RallyTrack, S3RallySourceConfig};
use kvx::transforms::{
    DocumentTransformer, ResolveError, SinkKind, SourceKind, Transform, TransformError,
    TransformErrorKind,
};
use serde_json::Value;
use std::borrow::Cow;

fn json_object(members: Vec<(&str, Value)>) -> String {
    let mut map = serde_json::Map::new();
    for (key, value) in members {
        map.insert(key.to_string(), value);
    }
    Value::Object(map).to_string()
}

fn file_source(name: &str) -> SourceConfig {
    SourceConfig::File(FileSourceConfig {
        file_name: name.to_string(),
        common_config: CommonSourceConfig::default(),
    })
}

fn es_sink(index: &str) -> SinkConfig {
    SinkConfig::Elasticsearch(ElasticsearchSinkConfig {
        url: "http://localhost:9200".to_string(),
        username: None,
        password: None,
        api_key: None,
        index: Some(index.to_string()),
        common_config: CommonSinkConfig::default(),
    })
}

fn file_sink(name: &str) -> SinkConfig {
    SinkConfig::File(FileSinkConfig {
        file_name: name.to_string(),
        common_config: CommonSinkConfig::default(),
    })
}

fn es_source() -> SourceConfig {
    SourceConfig::Elasticsearch(ElasticsearchSourceConfig {
        url: "http://localhost:9200".to_string(),
        username: None,
        password: None,
        api_key: None,
        common_config: CommonSourceConfig::default(),
    })
}

fn s3_source() -> SourceConfig {
    SourceConfig::S3Rally(S3RallySourceConfig {
        track: RallyTrack::Geonames,
        bucket: "rally".to_string(),
        region: "us-east-1".to_string(),
        key: None,
        common_config: CommonSourceConfig::default(),
    })
}

#[test]
fn the_one_where_config_enums_resolve_to_the_right_transform() -> Result<(), TransformError> {
    let source = file_source("rally_export.json");
    let sink = es_sink("rally");

    let the_transformer = DocumentTransformer::from_configs(&source, &sink);
    assert!(
        matches!(the_transformer, DocumentTransformer::RallyS3ToEs(_)),
        "File → ES should resolve to RallyS3ToEs"
    );

    let rally_page = json_object(vec![
        ("ObjectID", Value::from(42069)),
        ("Name", Value::from("Test story")),
        ("_rallyAPIMajor", Value::from("2")),
    ]);

    let the_items = the_transformer.transform(&rally_page)?;
    assert_eq!(the_items.len(), 1, "Single-doc page → one item");
    let the_output = the_items[0].as_ref();
    let the_lines: Vec<&str> = the_output.split('\n').collect();
    assert_eq!(the_lines.len(), 2, "ES bulk = two lines");

    let the_action: Value = serde_json::from_str(the_lines[0]).unwrap();
    assert_eq!(the_action["index"]["_id"], "42069");
    Ok(())
}

#[test]
fn the_one_where_file_to_file_resolves_to_passthrough() -> Result<(), TransformError> {
    let source = file_source("input.json");
    let sink = file_sink("output.json");

    let the_transformer = DocumentTransformer::from_configs(&source, &sink);
    assert!(matches!(the_transformer, DocumentTransformer::Passthrough(_)));

    let the_input = r#"{"whatever":"goes"}"#;
    let the_items = the_transformer.transform(the_input)?;
    assert_eq!(the_items.len(), 1);
    assert_eq!(the_items[0].as_ref(), the_input);
    assert!(matches!(the_items[0], Cow::Borrowed(_)), "Passthrough must borrow, not clone!");
    Ok(())
}

#[test]
fn the_one_where_in_memory_resolves_to_passthrough_for_testing() {
    let source = SourceConfig::InMemory(());
    let sink = SinkConfig::InMemory(());
    let the_transformer = DocumentTransformer::from_configs(&source, &sink);
    assert!(matches!(the_transformer, DocumentTransformer::Passthrough(_)));
}

#[test]
fn the_one_where_rally_json_flies_direct_to_es_bulk_via_config_resolution(
) -> Result<(), TransformError> {
    let source = file_source("data.json");
    let sink = es_sink("rally-artifacts");

    let the_transformer = DocumentTransformer::from_configs(&source, &sink);

    let rally_page = format!(
        "{}\n{}",
        json_object(vec![
            ("ObjectID", Value::from(99999)),
            ("FormattedID", Value::from("US001")),
            ("Name", Value::from("The one that made it through the whole pipeline")),
            ("_rallyAPIMajor", Value::from("2")),
            ("_ref", Value::from("https://rally1.rallydev.com/slm/webservice/v2.0/hr/99999")),
            ("_CreatedAt", Value::from("2024-01-01T00:00:00.000Z")),
        ]),
        json_object(vec![
            ("ObjectID", Value::from(88888)),
            ("Name", Value::from("The sequel nobody asked for")),
        ])
    );

    let the_items = the_transformer.transform(&rally_page)?;
    assert_eq!(the_items.len(), 2, "Two-doc page → two items");

    let the_lines: Vec<&str> = the_items[0].as_ref().split('\n').collect();
    assert_eq!(the_lines.len(), 2);

    let the_action: Value = serde_json::from_str(the_lines[0]).unwrap();
    assert_eq!(the_action["index"]["_id"], "99999");

    let the_source: Value = serde_json::from_str(the_lines[1]).unwrap();
    assert!(the_source.get("_rallyAPIMajor").is_none());
    assert!(the_source.get("_ref").is_none());
    assert!(the_source.get("_CreatedAt").is_none());
    assert_eq!(the_source["Name"], "The one that made it through the whole pipeline");

    let the_lines2: Vec<&str> = the_items[1].as_ref().split('\n').collect();
    let the_action2: Value = serde_json::from_str(the_lines2[0]).unwrap();
    assert_eq!(the_action2["index"]["_id"], "88888");
    Ok(())
}

#[test]
fn resolve_knows_every_pair_of_source_and_sink() {
    let rally = |t: Result<DocumentTransformer, ResolveError>| {
        matches!(t, Ok(DocumentTransformer::RallyS3ToEs(_)))
    };
    let pass = |t: Result<DocumentTransformer, ResolveError>| {
        matches!(t, Ok(DocumentTransformer::Passthrough(_)))
    };
    assert!(rally(DocumentTransformer::resolve(&file_source("a"), &es_sink("i"))));
    assert!(rally(DocumentTransformer::resolve(&s3_source(), &es_sink("i"))));
    assert!(pass(DocumentTransformer::resolve(&file_source("a"), &file_sink("b"))));
    assert!(pass(DocumentTransformer::resolve(&SourceConfig::InMemory(()), &SinkConfig::InMemory(()))));
    assert!(pass(DocumentTransformer::resolve(&es_source(), &file_sink("b"))));

    assert_eq!(
        DocumentTransformer::resolve(&file_source("a"), &SinkConfig::InMemory(())),
        Err(ResolveError { source: SourceKind::File, sink: SinkKind::InMemory })
    );
    assert_eq!(
        DocumentTransformer::resolve(&SourceConfig::InMemory(()), &file_sink("b")),
        Err(ResolveError { source: SourceKind::InMemory, sink: SinkKind::File })
    );
    assert_eq!(
        DocumentTransformer::resolve(&SourceConfig::InMemory(()), &es_sink("i")),
        Err(ResolveError { source: SourceKind::InMemory, sink: SinkKind::Elasticsearch })
    );
    assert_eq!(
        DocumentTransformer::resolve(&es_source(), &es_sink("i")),
        Err(ResolveError { source: SourceKind::Elasticsearch, sink: SinkKind::Elasticsearch })
    );
    assert_eq!(
        DocumentTransformer::resolve(&es_source(), &SinkConfig::InMemory(())),
        Err(ResolveError { source: SourceKind::Elasticsearch, sink: SinkKind::InMemory })
    );
    assert_eq!(
        DocumentTransformer::resolve(&s3_source(), &file_sink("b")),
        Err(ResolveError { source: SourceKind::S3Rally, sink: SinkKind::File })
    );
    assert_eq!(
        DocumentTransformer::resolve(&s3_source(), &SinkConfig::InMemory(())),
        Err(ResolveError { source: SourceKind::S3Rally, sink: SinkKind::InMemory })
    );
}

#[test]
fn rally_transform_keeps_document_order_and_skips_empty_lines() {
    let t = DocumentTransformer::from_configs(&file_source("a"), &es_sink("i"));
    let items = t.transform("\n{\"ObjectID\":1}\n\n\n{\"ObjectID\":2}\n{\"b\":3}\n").unwrap();
    let texts: Vec<&str> = items.iter().map(|i| i.as_ref()).collect();
    assert_eq!(
        texts,
        vec![
            "{\"index\":{\"_id\":\"1\"}}\n{\"ObjectID\":1}",
            "{\"index\":{\"_id\":\"2\"}}\n{\"ObjectID\":2}",
            "{\"index\":{}}\n{\"b\":3}",
        ]
    );
    assert!(items.iter().all(|i| matches!(i, Cow::Owned(_))));
    assert!(t.transform("").unwrap().is_empty());
    assert!(t.transform("\n\n").unwrap().is_empty());
}

#[test]
fn rally_transform_names_the_first_line_that_fails() {
    let t = DocumentTransformer::from_configs(&file_source("a"), &es_sink("i"));
    assert_eq!(
        t.transform("{\"ObjectID\":1}\n\nnot json\n{\"ObjectID\":2}\nnor this"),
        Err(TransformError { kind: TransformErrorKind::InvalidJson, line: 1 })
    );
    assert_eq!(
        t.transform("{\"unterminated\":"),
        Err(TransformError { kind: TransformErrorKind::InvalidJson, line: 0 })
    );
}

#[test]
fn rally_output_is_not_rally_input_but_still_json() {
    // A second application would wrap action lines in action lines: the
    // resolver hands out one transform per run, and it runs once per page.
    let t = DocumentTransformer::from_configs(&file_source("a"), &es_sink("i"));
    let once = t.transform("{\"ObjectID\":7}").unwrap();
    assert_eq!(once.len(), 1);
    let twice = t.transform(once[0].as_ref()).unwrap();
    assert_eq!(twice.len(), 2);
    assert_eq!(twice[0].as_ref(), "{\"index\":{}}\n{\"index\":{\"_id\":\"7\"}}");
}

#[test]
fn errors_tell_what_went_wrong_and_where() {
    assert_eq!(
        TransformError { kind: TransformErrorKind::InvalidJson, line: 12 }.message(),
        "document 12 of the page is not valid JSON"
    );
    assert_eq!(
        TransformError { kind: TransformErrorKind::Unserializable, line: 0 }.message(),
        "document 0 of the page could not be written back as JSON"
    );
    assert_eq!(
        ResolveError { source: SourceKind::S3Rally, sink: SinkKind::InMemory }.message(),
        "no transform from source S3Rally to sink InMemory"
    );
    assert_eq!(SourceKind::Elasticsearch.name(), "Elasticsearch");
    assert_eq!(SourceKind::File.name(), "File");
    assert_eq!(SourceKind::InMemory.name(), "InMemory");
    assert_eq!(SinkKind::Elasticsearch.name(), "Elasticsearch");
    assert_eq!(SinkKind::File.name(), "File");
    assert_eq!(file_source("a").kind(), SourceKind::File);
    assert_eq!(es_sink("i").kind(), SinkKind::Elasticsearch);
}
