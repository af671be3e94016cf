use kvx::app_config::{AppConfig, ConfigError, RuntimeConfig, SinkConfig, SourceConfig};
use kvx::backends::common_config::{
    default_max_batch_size_bytes, default_max_batch_size_docs, default_max_request_size_bytes,
    CommonSinkConfig, CommonSourceConfig,
};
use kvx::backends::file::{
    default_file_common_sink_config, default_file_common_source_config, FileSinkConfig,
    FileSourceConfig,
};
use kvx::backends::in_mem::{InMemorySink, InMemorySource};
use kvx::backends::paging::{next_page_from, pages_of_lines, trim_line_end, PageBuilder};
use kvx::composers::{ComposerBackend, JsonArrayComposer, NdjsonComposer};
use kvx::supervisors::run::run_worker;
use kvx::supervisors::workers::sink_worker::{Closing, SinkWorker, BUFFER_EPSILON_BYTES};
use kvx::supervisors::workers::source_worker::{SourceAction, SourceWorker};
use kvx::supervisors::Supervisor;
use kvx::transforms::passthrough::Passthrough;
use kvx::transforms::rally_s3_to_es::RallyS3ToEs;
use kvx::transforms::{DocumentTransformer, Transform, TransformError, TransformErrorKind};

fn passthrough() -> DocumentTransformer {
    DocumentTransformer::Passthrough(Passthrough)
}

fn rally() -> DocumentTransformer {
    DocumentTransformer::RallyS3ToEs(RallyS3ToEs)
}

fn ndjson() -> ComposerBackend {
    ComposerBackend::Ndjson(NdjsonComposer)
}

fn json_array() -> ComposerBackend {
    ComposerBackend::JsonArray(JsonArrayComposer)
}

fn read_lines(content: &str) -> Vec<String> {
    content.split_inclusive('\n').map(|line| line.to_string()).collect()
}

fn limits(docs: usize, bytes: usize) -> CommonSourceConfig {
    CommonSourceConfig { max_batch_size_docs: docs, max_batch_size_bytes: bytes }
}

fn copy_file(content: &str, page: CommonSourceConfig, request: usize, headroom: usize) -> String {
    let pages = pages_of_lines(&read_lines(content), page);
    let worker = SinkWorker::with_headroom(passthrough(), ndjson(), request, headroom);
    run_worker(worker, pages).unwrap().concat()
}

/// The whole in-memory pipeline, one worker: the fixture page goes through
/// the identity transform into one JSON array.
#[test]
fn the_one_where_four_docs_made_it_home_safely() -> Result<(), TransformError> {
    let app_config = AppConfig {
        runtime: RuntimeConfig { queue_capacity: 10, sink_parallelism: 1 },
        source_config: SourceConfig::InMemory(()),
        sink_config: SinkConfig::InMemory(()),
    };

    let mut source = InMemorySource::new();
    let mut sink_inner = InMemorySink::new();

    let transformer =
        DocumentTransformer::from_configs(&app_config.source_config, &app_config.sink_config);
    let composer = ComposerBackend::from_sink_config(&app_config.sink_config);
    let max_request_size_bytes = app_config.sink_config.max_request_size_bytes();

    let supervisor = Supervisor::new(app_config);
    assert_eq!(supervisor.queue_capacity(), 10);
    assert_eq!(supervisor.sink_parallelism(), 1);

    let mut source_worker = SourceWorker::new();
    let mut sink_worker = SinkWorker::new(transformer, composer, max_request_size_bytes);
    loop {
        match source_worker.step(source.next_page()) {
            SourceAction::Send(page) => {
                if let Some(payload) = sink_worker.receive(page)? {
                    sink_inner.send(payload);
                }
            }
            SourceAction::Close => break,
        }
    }
    if let Closing::SendThenClose(payload) = sink_worker.finish()? {
        sink_inner.send(payload);
    }
    sink_inner.close();

    assert_eq!(sink_inner.len(), 1, "Should have received exactly 1 payload");

    let the_payload = sink_inner.payload(0);
    let expected = format!(
        "[{}]",
        [r#"{"doc":1}"#, r#"{"doc":2}"#, r#"{"doc":3}"#, r#"{"doc":4}"#].join("\n")
    );
    assert_eq!(
        the_payload, &expected,
        "InMemory sink should receive a JSON array wrapping the passthrough page"
    );
    Ok(())
}

#[test]
fn in_memory_source_yields_its_page_once() {
    let mut source = InMemorySource::new();
    assert_eq!(
        source.next_page(),
        Some("{\"doc\":1}\n{\"doc\":2}\n{\"doc\":3}\n{\"doc\":4}".to_string())
    );
    assert_eq!(source.next_page(), None);
    assert_eq!(source.next_page(), None);
}

#[test]
fn in_memory_sink_keeps_payloads_in_order() {
    let mut sink = InMemorySink::new();
    assert_eq!(sink.len(), 0);
    sink.send("first".to_string());
    sink.send("second".to_string());
    sink.close();
    assert_eq!(sink.len(), 2);
    assert_eq!(sink.payload(0), "first");
    assert_eq!(sink.payload(1), "second");
}

#[test]
fn file_to_file_passthrough_copies_the_lines() {
    let page = limits(10000, 10485760);
    assert_eq!(copy_file("A\nB\nC\n", page, 10485760, BUFFER_EPSILON_BYTES), "A\nB\nC\n");
    assert_eq!(copy_file("A\nB\nC", page, 10485760, BUFFER_EPSILON_BYTES), "A\nB\nC\n");
    assert_eq!(copy_file("A\r\nB\r\n", page, 10485760, BUFFER_EPSILON_BYTES), "A\nB\n");
    assert_eq!(copy_file("", page, 10485760, BUFFER_EPSILON_BYTES), "");
}

#[test]
fn file_copy_is_the_same_under_any_limits_and_stable_when_repeated() {
    let content = "one\ntwo\r\nthree\nfour\nfive\nsix\nseven";
    let expected = "one\ntwo\nthree\nfour\nfive\nsix\nseven\n";
    for docs in [0usize, 1, 2, 3, 100] {
        for bytes in [0usize, 1, 8, 9, 1000] {
            for request in [0usize, 1, 10, 200, 100000] {
                for headroom in [0usize, 5, 128] {
                    let once = copy_file(content, limits(docs, bytes), request, headroom);
                    assert_eq!(once, expected);
                    let twice = copy_file(&once, limits(docs, bytes), request, headroom);
                    assert_eq!(twice, once);
                }
            }
        }
    }
}

#[test]
fn empty_lines_are_not_copied() {
    let page = limits(10000, 10485760);
    assert_eq!(copy_file("A\n\nB\n\r\nC\n", page, 10485760, 0), "A\nB\nC\n");
}

#[test]
fn a_page_that_comes_out_empty_ends_the_stream() {
    let lines = read_lines("\n\n\nA\n");
    assert_eq!(pages_of_lines(&lines, limits(1, 1000)), Vec::<String>::new());
    assert_eq!(pages_of_lines(&lines, limits(3, 1000)), vec!["A".to_string()]);
}

#[test]
fn pages_stop_at_the_document_limit() {
    let lines = read_lines("a\nb\nc\nd\ne\n");
    assert_eq!(pages_of_lines(&lines, limits(2, 1000)), vec!["a\nb", "c\nd", "e"]);
    assert_eq!(next_page_from(&lines, 0, limits(2, 1000)), (Some("a\nb".to_string()), 2));
    assert_eq!(next_page_from(&lines, 4, limits(2, 1000)), (Some("e".to_string()), 5));
    assert_eq!(next_page_from(&lines, 5, limits(2, 1000)), (None, 5));
    assert_eq!(pages_of_lines(&lines, limits(0, 1000)), vec!["a", "b", "c", "d", "e"]);
    assert_eq!(pages_of_lines(&lines, limits(5, 1000)), vec!["a\nb\nc\nd\ne"]);
}

#[test]
fn pages_stop_once_the_bytes_read_exceed_the_byte_limit() {
    // Each line is 4 bytes as read. The line that crosses the limit stays
    // in the page: the limit is approximate.
    let lines = read_lines("aaa\nbbb\nccc\nddd\neee\n");
    assert_eq!(pages_of_lines(&lines, limits(100, 8)), vec!["aaa\nbbb\nccc", "ddd\neee"]);
    assert_eq!(pages_of_lines(&lines, limits(100, 7)), vec!["aaa\nbbb", "ccc\nddd", "eee"]);
    assert_eq!(pages_of_lines(&lines, limits(100, 0)), vec!["aaa", "bbb", "ccc", "ddd", "eee"]);
    assert_eq!(pages_of_lines(&lines, limits(100, 20)), vec!["aaa\nbbb\nccc\nddd\neee"]);
}

#[test]
fn page_builder_counts_what_it_reads() {
    let mut builder = PageBuilder::new(limits(3, 100));
    assert!(builder.wants_line());
    builder.push_line("é\r\n");
    assert!(builder.wants_line());
    builder.push_line("\n");
    assert!(builder.wants_line());
    builder.push_line("b");
    assert_eq!(builder.bytes_read(), 6);
    assert_eq!(builder.line_count(), 2);
    assert!(builder.wants_line());
    builder.push_line("c\n");
    assert!(!builder.wants_line());
    assert_eq!(builder.into_page(), Some("é\nb\nc".to_string()));
    assert_eq!(PageBuilder::new(limits(3, 100)).into_page(), None);
}

#[test]
fn line_ends_are_stripped_newlines_first() {
    assert_eq!(trim_line_end("abc\n"), "abc");
    assert_eq!(trim_line_end("abc\r\n"), "abc");
    assert_eq!(trim_line_end("abc\r\r\n\n"), "abc");
    assert_eq!(trim_line_end("abc\n\r"), "abc\n");
    assert_eq!(trim_line_end("a\rb\r"), "a\rb");
    assert_eq!(trim_line_end("\r\n"), "");
    assert_eq!(trim_line_end(""), "");
    assert_eq!(trim_line_end("abc"), "abc");
}

#[test]
fn byte_threshold_flushes_every_page() {
    // With the standard headroom every page of 1024 bytes is already
    // within the headroom of a limit of 2048 bytes: one page per payload.
    let pages: Vec<String> = (0..5).map(|i| i.to_string().repeat(1024)).collect();
    let worker = SinkWorker::new(passthrough(), ndjson(), 2048);
    let sent = run_worker(worker, pages.clone()).unwrap();
    assert_eq!(sent.len(), 5);
    for (payload, page) in sent.iter().zip(pages.iter()) {
        assert_eq!(payload, &format!("{}\n", page));
    }
}

#[test]
fn byte_threshold_is_tested_after_the_page_has_joined_the_buffer() {
    // With a headroom of 128 bytes one page stays below the limit of 2048
    // and the second reaches it: two pages per payload, the fifth alone.
    let pages: Vec<String> = (0..5).map(|i| i.to_string().repeat(1024)).collect();
    let worker = SinkWorker::with_headroom(passthrough(), ndjson(), 2048, 128);
    let sent = run_worker(worker, pages.clone()).unwrap();
    assert_eq!(sent.len(), 3);
    assert_eq!(sent[0], format!("{}\n{}\n", pages[0], pages[1]));
    assert_eq!(sent[1], format!("{}\n{}\n", pages[2], pages[3]));
    assert_eq!(sent[2], format!("{}\n", pages[4]));
    // A limit that one page alone comes within: one page per payload.
    let narrow = SinkWorker::with_headroom(passthrough(), ndjson(), 1152, 128);
    assert_eq!(run_worker(narrow, pages).unwrap().len(), 5);
}

#[test]
fn a_stream_below_the_limit_is_sent_once() {
    let pages = vec!["aaaa".to_string(), "bbbb".to_string(), "cc".to_string()];
    // 10 bytes in all: the limit less the headroom is well above.
    let roomy = SinkWorker::with_headroom(passthrough(), ndjson(), 100, 10);
    assert_eq!(run_worker(roomy, pages.clone()).unwrap(), vec!["aaaa\nbbbb\ncc\n"]);
    // Exactly at the limit less the headroom: flushed with the last page.
    let exact = SinkWorker::with_headroom(passthrough(), json_array(), 20, 10);
    assert_eq!(run_worker(exact, pages.clone()).unwrap(), vec!["[aaaa,bbbb,cc]"]);
    // One byte less room: the first two pages leave early.
    let tight = SinkWorker::with_headroom(passthrough(), json_array(), 18, 10);
    assert_eq!(run_worker(tight, pages).unwrap(), vec!["[aaaa,bbbb]", "[cc]"]);
}

#[test]
fn worker_flushes_when_the_buffer_comes_within_the_headroom() {
    let mut worker = SinkWorker::with_headroom(passthrough(), ndjson(), 10, 3);
    assert_eq!(worker.receive("aaa".to_string()), Ok(None));
    assert_eq!(worker.receive("bbb".to_string()), Ok(None));
    assert_eq!(worker.buffered_pages(), 2);
    assert_eq!(worker.receive("c".to_string()), Ok(Some("aaa\nbbb\nc\n".to_string())));
    assert_eq!(worker.buffered_pages(), 0);
    assert_eq!(worker.receive("dddddddddddd".to_string()), Ok(Some("dddddddddddd\n".to_string())));
    assert_eq!(worker.receive("e".to_string()), Ok(None));
    assert_eq!(worker.finish(), Ok(Closing::SendThenClose("e\n".to_string())));
    let idle = SinkWorker::new(passthrough(), ndjson(), 10485760);
    assert_eq!(idle.finish(), Ok(Closing::Close));
    let mut blank = SinkWorker::new(rally(), ndjson(), 10485760);
    assert_eq!(blank.receive("\n\n".to_string()), Ok(None));
    assert_eq!(blank.finish(), Ok(Closing::Close));
}

#[test]
fn worker_counts_bytes_not_characters() {
    let mut worker = SinkWorker::with_headroom(passthrough(), ndjson(), 4, 0);
    assert_eq!(worker.receive("é".to_string()), Ok(None));
    assert_eq!(worker.receive("é".to_string()), Ok(Some("é\né\n".to_string())));
}

#[test]
fn nothing_is_sent_for_a_payload_that_holds_nothing() {
    let mut arrays = SinkWorker::with_headroom(rally(), json_array(), 1, 0);
    assert_eq!(arrays.receive("\n\n".to_string()), Ok(None));
    assert_eq!(arrays.buffered_pages(), 0);
    let mut lines = SinkWorker::with_headroom(rally(), ndjson(), 1, 0);
    assert_eq!(lines.receive("\n".to_string()), Ok(None));
    assert_eq!(lines.buffered_pages(), 0);
    let blank = SinkWorker::new(rally(), ndjson(), 10485760);
    assert_eq!(run_worker(blank, vec!["\n".to_string()]), Ok(vec![]));
}

#[test]
fn a_page_that_cannot_be_transformed_stops_the_worker_with_its_buffer_intact() {
    let mut worker = SinkWorker::with_headroom(rally(), ndjson(), 30, 0);
    assert_eq!(worker.receive("{\"ObjectID\":1}".to_string()), Ok(None));
    let failure = TransformError { kind: TransformErrorKind::InvalidJson, line: 1 };
    assert_eq!(worker.receive("{\"ObjectID\":2}\nbroken".to_string()), Err(failure));
    assert_eq!(worker.buffered_pages(), 2);
    assert_eq!(worker.finish(), Err(TransformError { kind: TransformErrorKind::InvalidJson, line: 1 }));

    let fresh = SinkWorker::with_headroom(rally(), ndjson(), 1, 0);
    let pages = vec!["{\"a\":1}".to_string(), "nope".to_string(), "{\"b\":2}".to_string()];
    assert_eq!(
        run_worker(fresh, pages),
        Err(TransformError { kind: TransformErrorKind::InvalidJson, line: 0 })
    );
}

#[test]
fn single_worker_keeps_source_order_across_flushes() {
    let pages: Vec<String> = (0..20).map(|i| format!("{{\"ObjectID\":{}}}", i)).collect();
    let mut expected = String::new();
    for i in 0..20 {
        expected.push_str(&format!("{{\"index\":{{\"_id\":\"{}\"}}}}\n{{\"ObjectID\":{}}}\n", i, i));
    }
    for limit in [0usize, 20, 45, 100, 100000] {
        let worker = SinkWorker::with_headroom(rally(), ndjson(), limit, 7);
        assert_eq!(run_worker(worker, pages.clone()).unwrap().concat(), expected);
    }
}

#[test]
fn source_worker_forwards_pages_and_closes_at_the_end() {
    let mut worker = SourceWorker::new();
    assert!(matches!(worker.step(Some("p".to_string())), SourceAction::Send(page) if page == "p"));
    assert!(matches!(worker.step(Some(String::new())), SourceAction::Send(page) if page.is_empty()));
    assert!(matches!(worker.step(None), SourceAction::Close));
}

#[test]
fn supervisor_reports_the_first_failure() {
    assert_eq!(Supervisor::first_error::<u8>(vec![]), Ok(()));
    assert_eq!(Supervisor::first_error::<u8>(vec![Ok(()), Ok(())]), Ok(()));
    assert_eq!(Supervisor::first_error(vec![Ok(()), Err(7u8), Err(9u8), Ok(())]), Err(7));
    assert_eq!(Supervisor::first_error(vec![Err("a"), Ok(()), Err("b")]), Err("a"));
    assert_eq!(Supervisor::first_error(vec![Ok(()), Ok(()), Err("last")]), Err("last"));
}

#[test]
fn runtime_layout_needs_room_and_a_worker() {
    assert_eq!(RuntimeConfig::default(), RuntimeConfig { queue_capacity: 10, sink_parallelism: 1 });
    assert_eq!(RuntimeConfig::default().validate(), Ok(()));
    assert_eq!(
        RuntimeConfig { queue_capacity: 0, sink_parallelism: 0 }.validate(),
        Err(ConfigError::ZeroQueueCapacity)
    );
    assert_eq!(
        RuntimeConfig { queue_capacity: 0, sink_parallelism: 2 }.validate(),
        Err(ConfigError::ZeroQueueCapacity)
    );
    assert_eq!(
        RuntimeConfig { queue_capacity: 3, sink_parallelism: 0 }.validate(),
        Err(ConfigError::ZeroSinkParallelism)
    );
    assert_eq!(
        ConfigError::ZeroQueueCapacity.message(),
        "runtime.queue_capacity must be at least 1"
    );
    assert_eq!(
        ConfigError::ZeroSinkParallelism.message(),
        "runtime.sink_parallelism must be at least 1"
    );
}

#[test]
fn configuration_defaults_are_the_documented_ones() {
    assert_eq!(default_max_batch_size_docs(), 10000);
    assert_eq!(default_max_batch_size_bytes(), 10485760);
    assert_eq!(default_max_request_size_bytes(), 10485760);
    assert_eq!(CommonSourceConfig::default(), limits(1000, 1024 * 1024));
    assert_eq!(default_file_common_source_config(), limits(1000, 1024 * 1024));
    assert_eq!(
        default_file_common_sink_config(),
        CommonSinkConfig { max_request_size_bytes: 64 * 1024 * 1024 }
    );
    assert_eq!(BUFFER_EPSILON_BYTES, 64 * 1024);
    let source = FileSourceConfig {
        file_name: "in".to_string(),
        common_config: default_file_common_source_config(),
    };
    let sink = FileSinkConfig {
        file_name: "out".to_string(),
        common_config: default_file_common_sink_config(),
    };
    let config = AppConfig {
        source_config: SourceConfig::File(source),
        sink_config: SinkConfig::File(sink),
        runtime: RuntimeConfig::default(),
    };
    let copy = config.clone();
    assert_eq!(copy.sink_config.max_request_size_bytes(), 64 * 1024 * 1024);
    assert!(matches!(copy.source_config, SourceConfig::File(f) if f.file_name == "in"));
    let transformer =
        DocumentTransformer::from_configs(&config.source_config, &config.sink_config);
    assert_eq!(transformer.transform("x").unwrap().len(), 1);
}
