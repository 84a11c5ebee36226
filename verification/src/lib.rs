//! A read-only decoder for the SQLite on-disk file format: the database
//! header, b-tree pages, records and the variable-length integers beneath them.

pub mod commands;
pub mod endian;
pub mod error;
pub mod header;
pub mod page;
pub mod record;
pub mod schema;
pub mod text;
pub mod varint;
