//! Knobs shared by every source and by every sink.

use vstd::prelude::*;

verus! {

/// Number of documents per page when the configuration names none.
pub open spec fn spec_default_max_batch_size_docs() -> usize {
    10000
}

/// Bytes per page when the configuration names none: 10 MiB.
pub open spec fn spec_default_max_batch_size_bytes() -> usize {
    10485760
}

/// Bytes per request when the configuration names none: 10 MiB.
pub open spec fn spec_default_max_request_size_bytes() -> usize {
    10485760
}

#[verifier::when_used_as_spec(spec_default_max_batch_size_docs)]
pub fn default_max_batch_size_docs() -> (n: usize)
    ensures
        n == spec_default_max_batch_size_docs(),
{
    10000
}

#[verifier::when_used_as_spec(spec_default_max_batch_size_bytes)]
pub fn default_max_batch_size_bytes() -> (n: usize)
    ensures
        n == spec_default_max_batch_size_bytes(),
{
    10485760
}

#[verifier::when_used_as_spec(spec_default_max_request_size_bytes)]
pub fn default_max_request_size_bytes() -> (n: usize)
    ensures
        n == spec_default_max_request_size_bytes(),
{
    10485760
}

/// How large a page a source may emit.
#[derive(Debug, Clone, Copy, PartialEq, Eq, Structural)]
pub struct CommonSourceConfig {
    /// Upper bound on the documents in one page.
    pub max_batch_size_docs: usize,
    /// Approximate upper bound on the bytes in one page.
    pub max_batch_size_bytes: usize,
}

impl Default for CommonSourceConfig {
    /// The values a source gets when its whole common section is left out:
    /// 1000 documents and 1 MiB.
    fn default() -> (c: Self)
        ensures
            c.max_batch_size_docs == 1000,
            c.max_batch_size_bytes == 1048576,
    {
        CommonSourceConfig { max_batch_size_docs: 1000, max_batch_size_bytes: 1048576 }
    }
}

/// How large a payload a sink may be sent.
#[derive(Debug, Clone, Copy, PartialEq, Eq, Structural)]
pub struct CommonSinkConfig {
    /// The size at which a sink worker flushes its buffer.
    pub max_request_size_bytes: usize,
}

impl Default for CommonSinkConfig {
    /// The value a sink gets when its whole common section is left out: 64 MiB.
    fn default() -> (c: Self)
        ensures
            c.max_request_size_bytes == 67108864,
    {
        CommonSinkConfig { max_request_size_bytes: 67108864 }
    }
}

} // verus!
