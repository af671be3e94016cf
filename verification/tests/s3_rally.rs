use kvx::backends::common_config::CommonSourceConfig;
use kvx::backends::s3_rally::{
    default_s3_rally_common_source_config, default_s3_region, known_content_length, RallyTrack,
    S3RallySourceConfig,
};

fn all_tracks() -> Vec<(&'static str, RallyTrack)> {
    vec![
        ("\"big5\"", RallyTrack::Big5),
        ("\"clickbench\"", RallyTrack::Clickbench),
        ("\"eventdata\"", RallyTrack::Eventdata),
        ("\"geonames\"", RallyTrack::Geonames),
        ("\"geopoint\"", RallyTrack::Geopoint),
        ("\"geopointshape\"", RallyTrack::Geopointshape),
        ("\"geoshape\"", RallyTrack::Geoshape),
        ("\"http_logs\"", RallyTrack::HttpLogs),
        ("\"nested\"", RallyTrack::Nested),
        ("\"neural_search\"", RallyTrack::NeuralSearch),
        ("\"noaa\"", RallyTrack::Noaa),
        ("\"noaa_semantic_search\"", RallyTrack::NoaaSemanticSearch),
        ("\"nyc_taxis\"", RallyTrack::NycTaxis),
        ("\"percolator\"", RallyTrack::Percolator),
        ("\"pmc\"", RallyTrack::Pmc),
        ("\"so\"", RallyTrack::So),
        ("\"treccovid_semantic_search\"", RallyTrack::TreccovidSemanticSearch),
        ("\"vectorsearch\"", RallyTrack::Vectorsearch),
    ]
}

fn track_from_json(json: &str) -> Option<RallyTrack> {
    let name: String = serde_json::from_str(json).ok()?;
    RallyTrack::from_name(&name)
}

#[test]
fn the_one_where_every_rally_track_deserializes_from_snake_case() {
    for (the_json_str, the_expected_variant) in all_tracks() {
        let the_deserialized = track_from_json(the_json_str);
        assert_eq!(
            the_deserialized,
            Some(the_expected_variant),
            "Track '{}' should deserialize to {:?}",
            the_json_str,
            the_expected_variant
        );
    }
}

#[test]
fn the_one_where_as_str_matches_serde_names() {
    let the_tracks_under_oath = vec![
        RallyTrack::Big5,
        RallyTrack::Clickbench,
        RallyTrack::Geonames,
        RallyTrack::HttpLogs,
        RallyTrack::NeuralSearch,
        RallyTrack::NycTaxis,
        RallyTrack::Pmc,
        RallyTrack::So,
    ];

    for track in the_tracks_under_oath {
        let the_str = track.as_str();
        let the_json = format!("\"{}\"", the_str);
        let the_roundtripped = track_from_json(&the_json);
        assert_eq!(
            the_roundtripped,
            Some(track),
            "Round-trip failed for {:?} — as_str() returned '{}'",
            track,
            the_str
        );
    }
}

#[test]
fn the_one_where_default_keys_follow_the_convention() {
    assert_eq!(RallyTrack::Geonames.default_key(), "geonames/documents.json");
    assert_eq!(RallyTrack::HttpLogs.default_key(), "http_logs/documents.json");
    assert_eq!(RallyTrack::Pmc.default_key(), "pmc/documents.json");
    assert_eq!(RallyTrack::NycTaxis.default_key(), "nyc_taxis/documents.json");
}

#[test]
fn the_one_where_config_key_override_wins_over_convention() {
    let the_config_with_override = S3RallySourceConfig {
        track: RallyTrack::Geonames,
        bucket: "my-bucket".to_string(),
        region: "us-west-2".to_string(),
        key: Some("custom/path/to/data.json".to_string()),
        common_config: CommonSourceConfig::default(),
    };

    assert_eq!(the_config_with_override.resolved_key(), "custom/path/to/data.json");
}

#[test]
fn the_one_where_resolved_key_defaults_to_track_convention() {
    let the_config_without_override = S3RallySourceConfig {
        track: RallyTrack::Pmc,
        bucket: "rally-data".to_string(),
        region: "eu-west-1".to_string(),
        key: None,
        common_config: CommonSourceConfig::default(),
    };

    assert_eq!(the_config_without_override.resolved_key(), "pmc/documents.json");
}

#[test]
fn the_one_where_fake_track_names_get_rejected_at_the_door() {
    let the_result = RallyTrack::from_name("definitely_not_a_real_track");
    assert!(
        the_result.is_none(),
        "Fake track names should fail deserialization. The bouncer is sleeping."
    );
}

#[test]
fn the_one_where_display_and_as_str_agree_on_reality() {
    let the_track = RallyTrack::NycTaxis;
    assert_eq!(the_track.to_string(), the_track.as_str());
    assert_eq!(the_track.to_string(), "nyc_taxis");
}

#[test]
fn every_track_has_its_name_and_its_key() {
    for (json, track) in all_tracks() {
        let name = json.trim_matches('"');
        assert_eq!(track.as_str(), name);
        assert_eq!(track.default_key(), format!("{}/documents.json", name));
        assert_eq!(RallyTrack::from_name(name), Some(track));
    }
    assert_eq!(RallyTrack::from_name(""), None);
    assert_eq!(RallyTrack::from_name("Big5"), None);
    assert_eq!(RallyTrack::from_name("big5 "), None);
    assert_eq!(RallyTrack::from_name("http-logs"), None);
}

#[test]
fn s3_source_knows_its_label_and_defaults() {
    let config = S3RallySourceConfig {
        track: RallyTrack::So,
        bucket: "bkt".to_string(),
        region: default_s3_region(),
        key: None,
        common_config: default_s3_rally_common_source_config(),
    };
    assert_eq!(config.region, "us-east-1");
    assert_eq!(config.common_config.max_batch_size_docs, 1000);
    assert_eq!(config.common_config.max_batch_size_bytes, 1024 * 1024);
    assert_eq!(config.source_label(), "s3://bkt/so/documents.json");
    let with_key = S3RallySourceConfig { key: Some("k/d.json".to_string()), ..config };
    assert_eq!(with_key.source_label(), "s3://bkt/k/d.json");
}

#[test]
fn content_length_is_unknown_when_missing_or_not_positive() {
    assert_eq!(known_content_length(None), 0);
    assert_eq!(known_content_length(Some(0)), 0);
    assert_eq!(known_content_length(Some(-5)), 0);
    assert_eq!(known_content_length(Some(1)), 1);
    assert_eq!(known_content_length(Some(i64::MAX)), i64::MAX as u64);
}
