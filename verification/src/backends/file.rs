//! Files as source and as sink.

use crate::backends::common_config::{CommonSinkConfig, CommonSourceConfig};
use vstd::prelude::*;

verus! {

/// Which file to read, and how large its pages may be.
#[derive(Debug, Clone)]
pub struct FileSourceConfig {
    /// Path of the file to read.
    pub file_name: String,
    /// Page limits.
    pub common_config: CommonSourceConfig,
}

/// Page limits of a file source whose configuration names none.
pub fn default_file_common_source_config() -> (c: CommonSourceConfig)
    ensures
        c.max_batch_size_docs == 1000,
        c.max_batch_size_bytes == 1048576,
{
    CommonSourceConfig::default()
}

/// Which file to write, and how large one write may be.
#[derive(Debug, Clone)]
pub struct FileSinkConfig {
    /// Path of the file to write; it is truncated when the sink opens.
    pub file_name: String,
    /// Request limit.
    pub common_config: CommonSinkConfig,
}

/// Request limit of a file sink whose configuration names none.
pub fn default_file_common_sink_config() -> (c: CommonSinkConfig)
    ensures
        c.max_request_size_bytes == 67108864,
{
    CommonSinkConfig::default()
}

} // verus!
