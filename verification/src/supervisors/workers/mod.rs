//! The two kinds of worker: one pumps pages into the channel, the others
//! drain it into their sinks.

pub mod sink_worker;
pub mod source_worker;
