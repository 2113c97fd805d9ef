//! Verified core of a columnar data service: parsing of column lists,
//! column type classification, extraction plans for column buffers,
//! row windows (offset / limit) over a sequence of record batches, the
//! stored-data state machine, reading CSV with Arrow, seeding the store
//! and query planning.

pub mod text;
pub mod column_type;
pub mod window;
pub mod buffers;
pub mod store;
pub mod query;
pub mod csv;
pub mod seed;
