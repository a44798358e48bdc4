//! Ingestion of radiation readings pushed as query parameters: the query is
//! read into a reading, the reading is turned into what a storage sink
//! writes, and the outcome of the write into a log line and a response.

pub mod decimal;
pub mod handler;
pub mod number;
pub mod point;
pub mod query;
pub mod reading;
pub mod record;
pub mod text;
