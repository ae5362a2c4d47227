//! Evaluation support for HCL-like configuration documents: the built-in
//! function library, the resolution of the reserved variable blocks and of the
//! `meta` block, and the projection of evaluated value trees into the data
//! models of JSON, YAML and TOML.
//!
//! Parsing and evaluating the document text, reading files, network access
//! and writing the final text are left to the host, which hands this library
//! plain values.
pub mod cidr;
pub mod codec;
pub mod collections;
pub mod converter;
pub mod date;
pub mod meta;
pub mod numbers;
pub mod output;
pub mod project;
pub mod registry;
pub mod remote;
pub mod render;
pub mod reserved;
pub mod strings;
pub mod text;
pub mod value;
