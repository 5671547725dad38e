//! An in-memory ingestion, normalization and query engine for the DeArrow
//! crowdsourced branding dataset: CSV tables are streamed in, every repeated
//! string is interned into a shared pool, rows are joined by UUID, sponsor
//! segments are reduced to uncut intervals, and the result is served as an
//! immutable snapshot behind a reload controller.

pub mod text;
pub mod numbers;
pub mod hashing;
pub mod csv_io;
pub mod string_pool;
pub mod csv_data;
pub mod records;
pub mod merge;
pub mod sort;
pub mod segments;
pub mod db;
pub mod query;
pub mod sbserver;
pub mod etag;
pub mod state;

pub use string_pool::InternedString;
pub use string_pool::StringSet;
