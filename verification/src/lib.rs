//! Importing bookmarks: parsers that turn a file into records, a registry that
//! keeps the parsers by name, and the batches in which records go to the
//! store.
//!
//! The library reads no file, starts no program and holds no database. It
//! says what to read or run, makes records of what came back, and says which
//! batch to store next; its caller does the reading, running and storing.

pub mod commands;
pub mod custom_parsers;
pub mod decode;
pub mod deep_link;
pub mod errors;
pub mod ingest;
pub mod json;
pub mod models;
pub mod queries;
pub mod registry;
pub mod storage;
pub mod structs;
pub mod text;
pub mod tree;
pub mod utils;
