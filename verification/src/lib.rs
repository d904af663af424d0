//! Verified core of the Ruby adapter that writes Parquet files: memory
//! estimates of values, option parsing, writer configuration and the
//! batching logic of the row and column writers.

pub mod value;
pub mod text;
pub mod compression;
pub mod bloom;
pub mod props;
pub mod conversion;
pub mod rows;
pub mod columns;
pub mod args;
