//! Gateway configuration: parsing, typed values, cascade and snapshots.
pub mod address;
pub mod home;
pub mod mark;
pub mod number;
pub mod outside;
pub mod parse;
pub mod path;
pub mod pool;
pub mod publisher;
pub mod table;
pub mod text;
