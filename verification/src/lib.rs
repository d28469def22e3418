//! Verified core of the Google Messages bridge: the in-memory message store,
//! the outbox retry rules, the sync-loop decisions and the record mappings.

pub mod api;
pub mod clock;
pub mod db;
pub mod ids;
pub mod keyed;
pub mod local_db;
pub mod models;
pub mod outbox;
pub mod protocol;
pub mod random;
pub mod records;
pub mod session;
pub mod session_file;
pub mod sorting;
pub mod sync;
pub mod store_laws;
pub mod text;
