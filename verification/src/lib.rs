//! MemeDb's core: tag graphs, folder maps, file queries and their SQL text,
//! the query-size cache, and the per-database context that the GUI commands drive.
pub mod api;
pub mod cache;
pub mod context;
pub mod encoding;
pub mod folders;
pub mod laws;
pub mod query;
pub mod tags;
pub mod text;
