//! Helpers for the buffers that a scrape fills.
pub mod vecbuf;

pub use crate::util::vecbuf::VecBuf;
