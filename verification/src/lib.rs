//! A heterogeneous database data-transfer engine: the verified core.
//!
//! Rows and schema objects flow from a source store through a bounded
//! transfer queue to a sinker stage that batches, partitions and applies
//! them to a destination store. This crate holds the logic of that
//! pipeline — the data model, the queue, the snapshot slicing, the
//! partitioning and the batching/fallback rules — with machine-checked
//! contracts. The surrounding I/O (database drivers, sleeping, task
//! spawning) lives outside.

pub mod col_map;
pub mod col_value;
pub mod dt_data;
pub mod dt_queue;
pub mod error;
pub mod pg_sinker;
pub mod rdb_query_builder;
pub mod row_data;
pub mod snapshot_extractor;
pub mod snapshot_parallelizer;
pub mod sql_text;
pub mod struct_extractor;
pub mod target_model;
pub mod tb_meta;

pub use error::DtError;
