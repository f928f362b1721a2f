//! The configuration language: syntax, directives, documents and what is derived from them.
pub mod ast;
pub mod block;
pub mod builder;
pub mod building;
pub mod builtin;
pub mod cascade;
pub mod commands;
pub mod completion;
pub mod config;
pub mod construct;
pub mod context;
pub mod contract;
pub mod decode;
pub mod definition;
pub mod diagnostic;
pub mod directives;
pub mod document;
pub mod domain;
pub mod error;
pub mod finalize;
pub mod fragment;
pub mod grammar;
pub mod inclusion;
pub mod layout;
pub mod loader;
pub mod meaning;
pub mod node;
pub mod normalize;
pub mod overlay;
pub mod parser;
pub mod pattern;
pub mod projection;
pub mod query;
pub mod reading;
pub mod registry;
pub mod role;
pub mod schema;
pub mod snapshot;
pub mod source;
pub mod transport;
pub mod tree;
pub mod types;
pub mod value;
pub mod vocabulary;
pub mod wire;
