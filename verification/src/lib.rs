//! The decisions behind the generation of Rust bindings for PostgreSQL: which installation a
//! build is for and what it depends on, how C headers are read, and how the text that comes of
//! it is rewritten into the bindings.
pub mod archive;
pub mod callbacks;
pub mod cargo;
pub mod enums;
pub mod graph;
pub mod items;
pub mod linkage;
pub mod nodes;
pub mod oids;
pub mod options;
pub mod ordered;
pub mod origin;
pub mod rewrite;
pub mod target;
pub mod text;
pub mod version;
