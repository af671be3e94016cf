//! Backends: what the pipeline reads from and writes to, with the
//! configuration of each.

pub mod common_config;
pub mod elasticsearch;
pub mod file;
pub mod in_mem;
pub mod paging;
pub mod s3_rally;
