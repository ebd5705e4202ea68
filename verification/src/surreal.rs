//! The SurrealDB adapter: its statements, and how its records are read.

pub mod migration_laws;
pub mod migrations;
pub mod store;
pub mod store_laws;
