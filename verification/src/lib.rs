//! A key-value database on object storage, behind a worker or in a container: how its stores ask
//! buckets for objects and read their answers, how requests find their database, and how its caches
//! are keyed.

pub mod benchmark;
pub mod binding_store;
pub mod bridge;
pub mod container;
pub mod db_cache;
pub mod do_cache;
pub mod error;
pub mod list;
pub mod multipart;
pub mod names;
pub mod object;
pub mod options;
pub mod path;
pub mod payload;
pub mod perf;
pub mod put;
pub mod r2_store;
pub mod range;
pub mod rows;
pub mod session;
pub mod text;
pub mod time;
