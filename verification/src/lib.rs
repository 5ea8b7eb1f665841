//! In-process log buffering for a label-addressed log store.
//!
//! Producers push text lines into bounded queues, one queue per combination
//! of label values. A scrape drains every queue, renders the drained lines
//! as a batch of labelled streams, encodes the batch in the protobuf wire
//! format and compresses it, and hands it to a transport that posts it to
//! the store.
pub mod clock;
pub mod errors;
pub mod fingerprint;
pub mod log;
pub mod loki;
pub mod models;
pub mod scrape;
pub mod util;

pub use crate::clock::EpochTime;
pub use crate::errors::ScrapeError;
pub use crate::log::{Log, LogContainer, LogMetric};
pub use crate::loki::scrape::{LokiScrapeConfig, LokiScrapeProcess};
pub use crate::loki::{LokiEntry, LokiModel, LokiStream};
pub use crate::models::{LogMessage, LogMetricConf, LogMetricConfBuilder};
pub use crate::scrape::{
    Cadence, LoopAction, LoopPhase, Scrape, ScrapeConfig, ScrapeEmptyListener, ScrapeEvents,
    ScrapeLoop, ScrapeProcess,
};
pub use crate::util::VecBuf;
