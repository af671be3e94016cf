//! Transforms: one raw page in, an ordered sequence of items out.
//!
//! Which transform runs is settled once, from the kinds of the configured
//! source and sink.

pub mod elasticsearch;
pub mod passthrough;
pub mod rally_s3;
pub mod rally_s3_to_es;

use crate::app_config::{SinkConfig, SourceConfig};
use crate::common::Hit;
use crate::transforms::passthrough::Passthrough;
use crate::transforms::rally_s3_to_es::RallyS3ToEs;
use crate::text::{decimal, decimal_string};
use std::borrow::Cow;
use vstd::prelude::*;
use vstd::string::StringExecFns;

verus! {

/// What went wrong with one document of a page.
#[derive(Debug, Clone, Copy, PartialEq, Eq, Structural)]
pub enum TransformErrorKind {
    /// The document is not valid JSON.
    InvalidJson,
    /// The cleaned document could not be written back as JSON.
    Unserializable,
}

/// A page could not be transformed because of one of its documents.
#[derive(Debug, Clone, Copy, PartialEq, Eq, Structural)]
pub struct TransformError {
    /// What went wrong.
    pub kind: TransformErrorKind,
    /// Position of the failing document among the page's non-empty lines,
    /// counted from zero.
    pub line: usize,
}

/// The text of a transform error: it names the failing document by its
/// position and says what went wrong with it.
pub open spec fn transform_error_message(e: TransformError) -> Seq<char> {
    "document "@ + decimal(e.line as nat) + match e.kind {
        TransformErrorKind::InvalidJson => " of the page is not valid JSON"@,
        TransformErrorKind::Unserializable => " of the page could not be written back as JSON"@,
    }
}

impl TransformError {
    /// The text of the error, for people.
    pub fn message(&self) -> (text: String)
        ensures
            text@ == transform_error_message(*self),
    {
        let mut text = String::from_str("document ");
        let position = decimal_string(self.line as u64);
        text.append(position.as_str());
        match self.kind {
            TransformErrorKind::InvalidJson => {
                text.append(" of the page is not valid JSON");
            },
            TransformErrorKind::Unserializable => {
                text.append(" of the page could not be written back as JSON");
            },
        }
        text
    }
}

/// The texts of a sequence of items, borrowed or owned alike.
pub open spec fn item_texts(items: Seq<Cow<'_, str>>) -> Seq<Seq<char>> {
    Seq::new(items.len(), |i: int| items[i]@)
}

/// What a transform makes of a page: its items in order, or the first failure.
pub type Items = Result<Seq<Seq<char>>, TransformError>;

/// A mapping from one raw page to items in the sink's per-document format.
pub trait Transform {
    /// The items that the page becomes, in the order of its documents.
    spec fn items_of(&self, page: Seq<char>) -> Items;

    /// Transforms one page. Nothing outside the page is read or written.
    fn transform<'a>(&self, raw_source_page: &'a str) -> (r: Result<
        Vec<Cow<'a, str>>,
        TransformError,
    >)
        ensures
            match r {
                Ok(items) => self.items_of(raw_source_page@) == Ok::<
                    Seq<Seq<char>>,
                    TransformError,
                >(item_texts(items@)),
                Err(e) => self.items_of(raw_source_page@) == Err::<Seq<Seq<char>>, TransformError>(
                    e,
                ),
            },
    ;
}

/// A mapping from a raw document of some source to a hit.
pub trait IngestTransform {
    /// Whether `outcome` is what the raw document becomes.
    spec fn ingests(raw: Seq<char>, outcome: Result<Hit, TransformErrorKind>) -> bool;

    /// Turns one raw document into a hit.
    fn transform_hit(raw: String) -> (r: Result<Hit, TransformErrorKind>)
        ensures
            Self::ingests(raw@, r),
    ;
}

/// A mapping from a hit to what some sink takes for one document.
pub trait EgressTransform {
    /// The text that the hit becomes, or why it cannot be written.
    spec fn egress_of(hit: Hit) -> Result<Seq<char>, TransformErrorKind>;

    /// Writes one hit in the sink's per-document format.
    fn transform_hit(hit: &Hit) -> (r: Result<String, TransformErrorKind>)
        ensures
            match r {
                Ok(text) => Self::egress_of(*hit) == Ok::<Seq<char>, TransformErrorKind>(text@),
                Err(kind) => Self::egress_of(*hit) == Err::<Seq<char>, TransformErrorKind>(kind),
            },
    ;
}

/// The closed set of transforms.
#[derive(Debug, Clone, Copy, PartialEq, Eq, Structural)]
pub enum DocumentTransformer {
    /// Rally JSON documents become bulk-indexing items.
    RallyS3ToEs(RallyS3ToEs),
    /// The page is handed on as it is.
    Passthrough(Passthrough),
}

/// No transform exists for a pair of source and sink.
#[derive(Debug, Clone, Copy, PartialEq, Eq, Structural)]
pub struct ResolveError {
    /// The kind of the configured source.
    pub source: SourceKind,
    /// The kind of the configured sink.
    pub sink: SinkKind,
}

/// The kinds of source.
#[derive(Debug, Clone, Copy, PartialEq, Eq, Structural)]
pub enum SourceKind {
    Elasticsearch,
    File,
    S3Rally,
    InMemory,
}

/// The kinds of sink.
#[derive(Debug, Clone, Copy, PartialEq, Eq, Structural)]
pub enum SinkKind {
    Elasticsearch,
    File,
    InMemory,
}

/// The name of a kind of source.
pub open spec fn source_kind_name(kind: SourceKind) -> Seq<char> {
    match kind {
        SourceKind::Elasticsearch => "Elasticsearch"@,
        SourceKind::File => "File"@,
        SourceKind::S3Rally => "S3Rally"@,
        SourceKind::InMemory => "InMemory"@,
    }
}

/// The name of a kind of sink.
pub open spec fn sink_kind_name(kind: SinkKind) -> Seq<char> {
    match kind {
        SinkKind::Elasticsearch => "Elasticsearch"@,
        SinkKind::File => "File"@,
        SinkKind::InMemory => "InMemory"@,
    }
}

/// The text of a resolve error: it names the source and the sink.
pub open spec fn resolve_error_message(e: ResolveError) -> Seq<char> {
    "no transform from source "@ + source_kind_name(e.source) + " to sink "@ + sink_kind_name(
        e.sink,
    )
}

impl SourceKind {
    /// The name of the kind, as configurations spell it.
    pub fn name(&self) -> (name: &'static str)
        ensures
            name@ == source_kind_name(*self),
    {
        match self {
            SourceKind::Elasticsearch => "Elasticsearch",
            SourceKind::File => "File",
            SourceKind::S3Rally => "S3Rally",
            SourceKind::InMemory => "InMemory",
        }
    }
}

impl SinkKind {
    /// The name of the kind, as configurations spell it.
    pub fn name(&self) -> (name: &'static str)
        ensures
            name@ == sink_kind_name(*self),
    {
        match self {
            SinkKind::Elasticsearch => "Elasticsearch",
            SinkKind::File => "File",
            SinkKind::InMemory => "InMemory",
        }
    }
}

impl ResolveError {
    /// The text of the error, for people.
    pub fn message(&self) -> (text: String)
        ensures
            text@ == resolve_error_message(*self),
    {
        let mut text = String::from_str("no transform from source ");
        text.append(self.source.name());
        text.append(" to sink ");
        text.append(self.sink.name());
        text
    }
}

/// The kind of a configured source.
pub open spec fn source_kind(source: SourceConfig) -> SourceKind {
    match source {
        SourceConfig::Elasticsearch(_) => SourceKind::Elasticsearch,
        SourceConfig::File(_) => SourceKind::File,
        SourceConfig::S3Rally(_) => SourceKind::S3Rally,
        SourceConfig::InMemory(_) => SourceKind::InMemory,
    }
}

/// The kind of a configured sink.
pub open spec fn sink_kind(sink: SinkConfig) -> SinkKind {
    match sink {
        SinkConfig::Elasticsearch(_) => SinkKind::Elasticsearch,
        SinkConfig::File(_) => SinkKind::File,
        SinkConfig::InMemory(_) => SinkKind::InMemory,
    }
}

/// The transform for each supported pair of source and sink.
pub open spec fn transform_for(source: SourceKind, sink: SinkKind) -> Option<DocumentTransformer> {
    match (source, sink) {
        (SourceKind::File, SinkKind::Elasticsearch) => Some(
            DocumentTransformer::RallyS3ToEs(RallyS3ToEs),
        ),
        (SourceKind::S3Rally, SinkKind::Elasticsearch) => Some(
            DocumentTransformer::RallyS3ToEs(RallyS3ToEs),
        ),
        (SourceKind::File, SinkKind::File) => Some(DocumentTransformer::Passthrough(Passthrough)),
        (SourceKind::InMemory, SinkKind::InMemory) => Some(
            DocumentTransformer::Passthrough(Passthrough),
        ),
        (SourceKind::Elasticsearch, SinkKind::File) => Some(
            DocumentTransformer::Passthrough(Passthrough),
        ),
        _ => None,
    }
}

impl SourceConfig {
    /// The kind of this source.
    pub fn kind(&self) -> (k: SourceKind)
        ensures
            k == source_kind(*self),
    {
        match self {
            SourceConfig::Elasticsearch(_) => SourceKind::Elasticsearch,
            SourceConfig::File(_) => SourceKind::File,
            SourceConfig::S3Rally(_) => SourceKind::S3Rally,
            SourceConfig::InMemory(_) => SourceKind::InMemory,
        }
    }
}

impl SinkConfig {
    /// The kind of this sink.
    pub fn kind(&self) -> (k: SinkKind)
        ensures
            k == sink_kind(*self),
    {
        match self {
            SinkConfig::Elasticsearch(_) => SinkKind::Elasticsearch,
            SinkConfig::File(_) => SinkKind::File,
            SinkConfig::InMemory(_) => SinkKind::InMemory,
        }
    }
}

impl DocumentTransformer {
    /// Picks the transform for a pair of source and sink, or says that there
    /// is none. Nothing is substituted for an unsupported pair.
    pub fn resolve(source: &SourceConfig, sink: &SinkConfig) -> (r: Result<Self, ResolveError>)
        ensures
            match r {
                Ok(t) => transform_for(source_kind(*source), sink_kind(*sink)) == Some(t),
                Err(e) => transform_for(source_kind(*source), sink_kind(*sink)) is None && e
                    == (ResolveError { source: source_kind(*source), sink: sink_kind(*sink) }),
            },
    {
        let source_kind = source.kind();
        let sink_kind = sink.kind();
        match (source_kind, sink_kind) {
            (SourceKind::File, SinkKind::Elasticsearch) => Ok(
                DocumentTransformer::RallyS3ToEs(RallyS3ToEs),
            ),
            (SourceKind::S3Rally, SinkKind::Elasticsearch) => Ok(
                DocumentTransformer::RallyS3ToEs(RallyS3ToEs),
            ),
            (SourceKind::File, SinkKind::File) => Ok(DocumentTransformer::Passthrough(Passthrough)),
            (SourceKind::InMemory, SinkKind::InMemory) => Ok(
                DocumentTransformer::Passthrough(Passthrough),
            ),
            (SourceKind::Elasticsearch, SinkKind::File) => Ok(
                DocumentTransformer::Passthrough(Passthrough),
            ),
            _ => Err(ResolveError { source: source_kind, sink: sink_kind }),
        }
    }

    /// The transform for a supported pair of source and sink.
    pub fn from_configs(source: &SourceConfig, sink: &SinkConfig) -> (t: Self)
        requires
            transform_for(source_kind(*source), sink_kind(*sink)) is Some,
        ensures
            transform_for(source_kind(*source), sink_kind(*sink)) == Some(t),
    {
        match Self::resolve(source, sink) {
            Ok(t) => t,
            Err(_) => {
                proof {
                    assert(false);
                }
                DocumentTransformer::Passthrough(Passthrough)
            },
        }
    }
}

impl Transform for DocumentTransformer {
    open spec fn items_of(&self, page: Seq<char>) -> Items {
        match self {
            DocumentTransformer::RallyS3ToEs(t) => t.items_of(page),
            DocumentTransformer::Passthrough(t) => t.items_of(page),
        }
    }

    fn transform<'a>(&self, raw_source_page: &'a str) -> (r: Result<
        Vec<Cow<'a, str>>,
        TransformError,
    >) {
        match self {
            DocumentTransformer::RallyS3ToEs(t) => t.transform(raw_source_page),
            DocumentTransformer::Passthrough(t) => t.transform(raw_source_page),
        }
    }
}

} // verus!
