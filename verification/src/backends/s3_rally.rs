//! Rally benchmark tracks held in an object store.

use crate::backends::common_config::CommonSourceConfig;
use crate::text::same_text;
use vstd::prelude::*;
use vstd::string::StringExecFns;

verus! {

/// The benchmark tracks that can be read. The set is closed.
#[derive(Debug, Clone, Copy, PartialEq, Eq, Structural)]
pub enum RallyTrack {
    Big5,
    Clickbench,
    Eventdata,
    Geonames,
    Geopoint,
    Geopointshape,
    Geoshape,
    HttpLogs,
    Nested,
    NeuralSearch,
    Noaa,
    NoaaSemanticSearch,
    NycTaxis,
    Percolator,
    Pmc,
    So,
    TreccovidSemanticSearch,
    Vectorsearch,
}

/// The snake_case name of a track.
pub open spec fn track_name(track: RallyTrack) -> Seq<char> {
    match track {
        RallyTrack::Big5 => "big5"@,
        RallyTrack::Clickbench => "clickbench"@,
        RallyTrack::Eventdata => "eventdata"@,
        RallyTrack::Geonames => "geonames"@,
        RallyTrack::Geopoint => "geopoint"@,
        RallyTrack::Geopointshape => "geopointshape"@,
        RallyTrack::Geoshape => "geoshape"@,
        RallyTrack::HttpLogs => "http_logs"@,
        RallyTrack::Nested => "nested"@,
        RallyTrack::NeuralSearch => "neural_search"@,
        RallyTrack::Noaa => "noaa"@,
        RallyTrack::NoaaSemanticSearch => "noaa_semantic_search"@,
        RallyTrack::NycTaxis => "nyc_taxis"@,
        RallyTrack::Percolator => "percolator"@,
        RallyTrack::Pmc => "pmc"@,
        RallyTrack::So => "so"@,
        RallyTrack::TreccovidSemanticSearch => "treccovid_semantic_search"@,
        RallyTrack::Vectorsearch => "vectorsearch"@,
    }
}

/// The track with the given name, where there is one.
pub open spec fn track_named(name: Seq<char>) -> Option<RallyTrack> {
    if name == "big5"@ {
        Some(RallyTrack::Big5)
    } else if name == "clickbench"@ {
        Some(RallyTrack::Clickbench)
    } else if name == "eventdata"@ {
        Some(RallyTrack::Eventdata)
    } else if name == "geonames"@ {
        Some(RallyTrack::Geonames)
    } else if name == "geopoint"@ {
        Some(RallyTrack::Geopoint)
    } else if name == "geopointshape"@ {
        Some(RallyTrack::Geopointshape)
    } else if name == "geoshape"@ {
        Some(RallyTrack::Geoshape)
    } else if name == "http_logs"@ {
        Some(RallyTrack::HttpLogs)
    } else if name == "nested"@ {
        Some(RallyTrack::Nested)
    } else if name == "neural_search"@ {
        Some(RallyTrack::NeuralSearch)
    } else if name == "noaa"@ {
        Some(RallyTrack::Noaa)
    } else if name == "noaa_semantic_search"@ {
        Some(RallyTrack::NoaaSemanticSearch)
    } else if name == "nyc_taxis"@ {
        Some(RallyTrack::NycTaxis)
    } else if name == "percolator"@ {
        Some(RallyTrack::Percolator)
    } else if name == "pmc"@ {
        Some(RallyTrack::Pmc)
    } else if name == "so"@ {
        Some(RallyTrack::So)
    } else if name == "treccovid_semantic_search"@ {
        Some(RallyTrack::TreccovidSemanticSearch)
    } else if name == "vectorsearch"@ {
        Some(RallyTrack::Vectorsearch)
    } else {
        None
    }
}

/// Every track is found again by its own name.
pub proof fn lemma_track_names_are_distinct(track: RallyTrack)
    ensures
        track_named(track_name(track)) == Some(track),
{
    reveal_strlit("big5");
    reveal_strlit("clickbench");
    reveal_strlit("eventdata");
    reveal_strlit("geonames");
    reveal_strlit("geopoint");
    reveal_strlit("geopointshape");
    reveal_strlit("geoshape");
    reveal_strlit("http_logs");
    reveal_strlit("nested");
    reveal_strlit("neural_search");
    reveal_strlit("noaa");
    reveal_strlit("noaa_semantic_search");
    reveal_strlit("nyc_taxis");
    reveal_strlit("percolator");
    reveal_strlit("pmc");
    reveal_strlit("so");
    reveal_strlit("treccovid_semantic_search");
    reveal_strlit("vectorsearch");
    assert("big5"@.len() == 4);
    assert("clickbench"@.len() == 10);
    assert("eventdata"@.len() == 9);
    assert("geonames"@.len() == 8);
    assert("geopoint"@.len() == 8);
    assert("geopointshape"@.len() == 13);
    assert("geoshape"@.len() == 8);
    assert("http_logs"@.len() == 9);
    assert("nested"@.len() == 6);
    assert("neural_search"@.len() == 13);
    assert("noaa"@.len() == 4);
    assert("noaa_semantic_search"@.len() == 20);
    assert("nyc_taxis"@.len() == 9);
    assert("percolator"@.len() == 10);
    assert("pmc"@.len() == 3);
    assert("so"@.len() == 2);
    assert("treccovid_semantic_search"@.len() == 25);
    assert("vectorsearch"@.len() == 12);
    match track {
        RallyTrack::Big5 => {
        },
        RallyTrack::Clickbench => {
        },
        RallyTrack::Eventdata => {
        },
        RallyTrack::Geonames => {
        },
        RallyTrack::Geopoint => {
            assert("geopoint"@[3] != "geonames"@[3]);
        },
        RallyTrack::Geopointshape => {
        },
        RallyTrack::Geoshape => {
            assert("geoshape"@[3] != "geonames"@[3]);
            assert("geoshape"@[3] != "geopoint"@[3]);
        },
        RallyTrack::HttpLogs => {
            assert("http_logs"@[0] != "eventdata"@[0]);
        },
        RallyTrack::Nested => {
        },
        RallyTrack::NeuralSearch => {
            assert("neural_search"@[0] != "geopointshape"@[0]);
        },
        RallyTrack::Noaa => {
            assert("noaa"@[0] != "big5"@[0]);
        },
        RallyTrack::NoaaSemanticSearch => {
        },
        RallyTrack::NycTaxis => {
            assert("nyc_taxis"@[0] != "eventdata"@[0]);
            assert("nyc_taxis"@[0] != "http_logs"@[0]);
        },
        RallyTrack::Percolator => {
            assert("percolator"@[0] != "clickbench"@[0]);
        },
        RallyTrack::Pmc => {
        },
        RallyTrack::So => {
        },
        RallyTrack::TreccovidSemanticSearch => {
        },
        RallyTrack::Vectorsearch => {
        },
    }
}

/// The object key under which a track's documents lie by convention.
pub open spec fn track_default_key(track: RallyTrack) -> Seq<char> {
    track_name(track) + "/documents.json"@
}

impl RallyTrack {
    /// The snake_case name of the track, as configurations spell it.
    pub fn as_str(&self) -> (name: &'static str)
        ensures
            name@ == track_name(*self),
    {
        match self {
            Self::Big5 => "big5",
            Self::Clickbench => "clickbench",
            Self::Eventdata => "eventdata",
            Self::Geonames => "geonames",
            Self::Geopoint => "geopoint",
            Self::Geopointshape => "geopointshape",
            Self::Geoshape => "geoshape",
            Self::HttpLogs => "http_logs",
            Self::Nested => "nested",
            Self::NeuralSearch => "neural_search",
            Self::Noaa => "noaa",
            Self::NoaaSemanticSearch => "noaa_semantic_search",
            Self::NycTaxis => "nyc_taxis",
            Self::Percolator => "percolator",
            Self::Pmc => "pmc",
            Self::So => "so",
            Self::TreccovidSemanticSearch => "treccovid_semantic_search",
            Self::Vectorsearch => "vectorsearch",
        }
    }

    /// The track that a configuration names; none for a name outside the
    /// closed set.
    pub fn from_name(name: &str) -> (track: Option<RallyTrack>)
        ensures
            track == track_named(name@),
    {
        if same_text(name, "big5") {
            Some(RallyTrack::Big5)
        } else if same_text(name, "clickbench") {
            Some(RallyTrack::Clickbench)
        } else if same_text(name, "eventdata") {
            Some(RallyTrack::Eventdata)
        } else if same_text(name, "geonames") {
            Some(RallyTrack::Geonames)
        } else if same_text(name, "geopoint") {
            Some(RallyTrack::Geopoint)
        } else if same_text(name, "geopointshape") {
            Some(RallyTrack::Geopointshape)
        } else if same_text(name, "geoshape") {
            Some(RallyTrack::Geoshape)
        } else if same_text(name, "http_logs") {
            Some(RallyTrack::HttpLogs)
        } else if same_text(name, "nested") {
            Some(RallyTrack::Nested)
        } else if same_text(name, "neural_search") {
            Some(RallyTrack::NeuralSearch)
        } else if same_text(name, "noaa") {
            Some(RallyTrack::Noaa)
        } else if same_text(name, "noaa_semantic_search") {
            Some(RallyTrack::NoaaSemanticSearch)
        } else if same_text(name, "nyc_taxis") {
            Some(RallyTrack::NycTaxis)
        } else if same_text(name, "percolator") {
            Some(RallyTrack::Percolator)
        } else if same_text(name, "pmc") {
            Some(RallyTrack::Pmc)
        } else if same_text(name, "so") {
            Some(RallyTrack::So)
        } else if same_text(name, "treccovid_semantic_search") {
            Some(RallyTrack::TreccovidSemanticSearch)
        } else if same_text(name, "vectorsearch") {
            Some(RallyTrack::Vectorsearch)
        } else {
            None
        }
    }

    /// The key `<track>/documents.json`.
    pub fn default_key(&self) -> (key: String)
        ensures
            key@ == track_default_key(*self),
    {
        let mut key = String::from_str(self.as_str());
        key.append("/documents.json");
        key
    }

    /// The track's name as an owned string; the same text as [`Self::as_str`].
    pub fn to_string(&self) -> (name: String)
        ensures
            name@ == track_name(*self),
    {
        String::from_str(self.as_str())
    }
}

/// Where a Rally track is read from.
#[derive(Debug, Clone)]
pub struct S3RallySourceConfig {
    /// Which track to read.
    pub track: RallyTrack,
    /// The bucket that holds the track.
    pub bucket: String,
    /// The region of the bucket.
    pub region: String,
    /// An object key that replaces the track's conventional one.
    pub key: Option<String>,
    /// Page limits.
    pub common_config: CommonSourceConfig,
}

/// The region used when a configuration names none.
pub fn default_s3_region() -> (region: String)
    ensures
        region@ == "us-east-1"@,
{
    String::from_str("us-east-1")
}

/// Page limits used when a configuration names none.
pub fn default_s3_rally_common_source_config() -> (c: CommonSourceConfig)
    ensures
        c.max_batch_size_docs == 1000,
        c.max_batch_size_bytes == 1048576,
{
    CommonSourceConfig::default()
}

impl S3RallySourceConfig {
    /// The key that will be read.
    pub open spec fn spec_resolved_key(&self) -> Seq<char> {
        match self.key {
            Some(key) => key@,
            None => track_default_key(self.track),
        }
    }

    /// The configured key where there is one, else the track's conventional key.
    pub fn resolved_key(&self) -> (key: String)
        ensures
            key@ == self.spec_resolved_key(),
    {
        match &self.key {
            Some(key) => key.clone(),
            None => self.track.default_key(),
        }
    }
}

/// The name under which a source shows in the progress display:
/// `s3://<bucket>/<key>`.
pub open spec fn source_label_of(bucket: Seq<char>, key: Seq<char>) -> Seq<char> {
    "s3://"@ + bucket + seq!['/'] + key
}

impl S3RallySourceConfig {
    /// The name of this source in the progress display.
    pub fn source_label(&self) -> (label: String)
        ensures
            label@ == source_label_of(self.bucket@, self.spec_resolved_key()),
    {
        let mut label = String::from_str("s3://");
        label.append(self.bucket.as_str());
        label.append("/");
        let key = self.resolved_key();
        label.append(key.as_str());
        proof {
            reveal_strlit("/");
        }
        assert(label@ =~= source_label_of(self.bucket@, self.spec_resolved_key()));
        label
    }
}

/// The size of an object for the progress display, from the content length
/// that the store reports: a missing or negative length counts as unknown,
/// which is zero.
pub fn known_content_length(reported: Option<i64>) -> (total: u64)
    ensures
        total == match reported {
            Some(length) if length > 0 => length as u64,
            _ => 0u64,
        },
{
    match reported {
        Some(length) => if length > 0 {
            length as u64
        } else {
            0
        },
        None => 0,
    }
}

} // verus!
