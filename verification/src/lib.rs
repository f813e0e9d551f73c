//! Write-behind persistence pipeline with cache-aside reads for a
//! person-registration service: payload validation, record serialization,
//! an ingestion queue, a deduplicating batch flusher, and the decision
//! logic of the creation and read paths.
pub mod dto;
pub mod flow;
pub mod flush;
pub mod jsonfmt;
pub mod numfmt;
pub mod queue;
pub mod readpath;
pub mod search;
pub mod sqlgen;
pub mod stackcodec;
pub mod text;
pub mod validate;
