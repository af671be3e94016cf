//! The configuration of one run: where to read, where to write, and how the
//! workers are laid out.

use crate::backends::common_config::CommonSinkConfig;
use crate::backends::elasticsearch::{ElasticsearchSinkConfig, ElasticsearchSourceConfig};
use crate::backends::file::{FileSinkConfig, FileSourceConfig};
use crate::backends::s3_rally::S3RallySourceConfig;
use vstd::prelude::*;
use vstd::string::StringExecFns;

verus! {

/// Channel capacity when the configuration names none.
pub fn default_queue_capacity() -> (n: usize)
    ensures
        n == 10,
{
    10
}

/// Number of sink workers when the configuration names none.
pub fn default_sink_parallelism() -> (n: usize)
    ensures
        n == 1,
{
    1
}

/// How the workers are laid out.
#[derive(Debug, Clone, Copy, PartialEq, Eq, Structural)]
pub struct RuntimeConfig {
    /// Capacity of the channel between the source and the sink workers.
    pub queue_capacity: usize,
    /// Number of sink workers.
    pub sink_parallelism: usize,
}

impl Default for RuntimeConfig {
    fn default() -> (c: Self)
        ensures
            c.queue_capacity == 10,
            c.sink_parallelism == 1,
    {
        RuntimeConfig {
            queue_capacity: default_queue_capacity(),
            sink_parallelism: default_sink_parallelism(),
        }
    }
}

/// Why a runtime layout cannot be used.
#[derive(Debug, Clone, Copy, PartialEq, Eq, Structural)]
pub enum ConfigError {
    /// The channel would have no room for a single page.
    ZeroQueueCapacity,
    /// There would be no sink worker to take pages from the channel.
    ZeroSinkParallelism,
}

/// The text of a configuration error.
pub open spec fn config_error_message(e: ConfigError) -> Seq<char> {
    match e {
        ConfigError::ZeroQueueCapacity => "runtime.queue_capacity must be at least 1"@,
        ConfigError::ZeroSinkParallelism => "runtime.sink_parallelism must be at least 1"@,
    }
}

impl ConfigError {
    /// The text of the error, for people.
    pub fn message(&self) -> (text: String)
        ensures
            text@ == config_error_message(*self),
    {
        match self {
            ConfigError::ZeroQueueCapacity => String::from_str(
                "runtime.queue_capacity must be at least 1",
            ),
            ConfigError::ZeroSinkParallelism => String::from_str(
                "runtime.sink_parallelism must be at least 1",
            ),
        }
    }
}

impl RuntimeConfig {
    /// A layout is usable when the channel holds at least one page and at
    /// least one sink worker runs.
    pub open spec fn is_valid(&self) -> bool {
        self.queue_capacity >= 1 && self.sink_parallelism >= 1
    }

    /// Checks the layout; the capacity is looked at first.
    pub fn validate(&self) -> (r: Result<(), ConfigError>)
        ensures
            r is Ok <==> self.is_valid(),
            r == Err::<(), ConfigError>(ConfigError::ZeroQueueCapacity) <==> self.queue_capacity
                == 0,
            r == Err::<(), ConfigError>(ConfigError::ZeroSinkParallelism) <==> self.queue_capacity
                != 0 && self.sink_parallelism == 0,
    {
        if self.queue_capacity == 0 {
            Err(ConfigError::ZeroQueueCapacity)
        } else if self.sink_parallelism == 0 {
            Err(ConfigError::ZeroSinkParallelism)
        } else {
            Ok(())
        }
    }
}

/// Where pages come from.
#[derive(Debug)]
pub enum SourceConfig {
    /// An Elasticsearch-compatible cluster.
    Elasticsearch(ElasticsearchSourceConfig),
    /// A local file of newline-delimited documents.
    File(FileSourceConfig),
    /// A Rally track in an object store.
    S3Rally(S3RallySourceConfig),
    /// The built-in fixture of four documents.
    InMemory(()),
}

/// Where payloads go.
#[derive(Debug)]
pub enum SinkConfig {
    /// The bulk endpoint of an Elasticsearch-compatible cluster.
    Elasticsearch(ElasticsearchSinkConfig),
    /// A local file.
    File(FileSinkConfig),
    /// A list held in memory.
    InMemory(()),
}

impl Clone for SourceConfig {
    fn clone(&self) -> (c: Self) {
        match self {
            SourceConfig::Elasticsearch(es) => SourceConfig::Elasticsearch(es.clone()),
            SourceConfig::File(f) => SourceConfig::File(f.clone()),
            SourceConfig::S3Rally(s3) => SourceConfig::S3Rally(s3.clone()),
            SourceConfig::InMemory(_) => SourceConfig::InMemory(()),
        }
    }
}

impl Clone for SinkConfig {
    fn clone(&self) -> (c: Self) {
        match self {
            SinkConfig::Elasticsearch(es) => SinkConfig::Elasticsearch(es.clone()),
            SinkConfig::File(f) => SinkConfig::File(f.clone()),
            SinkConfig::InMemory(_) => SinkConfig::InMemory(()),
        }
    }
}

impl SinkConfig {
    /// The request limit of the configured sink.
    pub open spec fn spec_max_request_size_bytes(&self) -> usize {
        match self {
            SinkConfig::Elasticsearch(es) => es.common_config.max_request_size_bytes,
            SinkConfig::File(f) => f.common_config.max_request_size_bytes,
            SinkConfig::InMemory(_) => 67108864,
        }
    }

    /// The request limit of the configured sink. An in-memory sink has no
    /// configuration of its own and gets the 64 MiB of
    /// `CommonSinkConfig::default()`.
    pub fn max_request_size_bytes(&self) -> (n: usize)
        ensures
            n == self.spec_max_request_size_bytes(),
    {
        match self {
            SinkConfig::Elasticsearch(es) => es.common_config.max_request_size_bytes,
            SinkConfig::File(f) => f.common_config.max_request_size_bytes,
            SinkConfig::InMemory(_) => CommonSinkConfig::default().max_request_size_bytes,
        }
    }
}

/// Everything one run needs to know.
#[derive(Debug, Clone)]
pub struct AppConfig {
    /// Where pages come from.
    pub source_config: SourceConfig,
    /// Where payloads go.
    pub sink_config: SinkConfig,
    /// How the workers are laid out.
    pub runtime: RuntimeConfig,
}

} // verus!
