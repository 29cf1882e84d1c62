//! Ame: a small language that describes a multilingual word graph and the
//! Cypher queries that load it into a Neo4j database.
//!
//! The library holds the part of the tool that decides what to do:
//! the interpretation of a parsed `.ame` file (its setup clause, its
//! language clause, its word declarations and the relations between
//! words) and the generation of the Cypher queries. Reading files,
//! running the grammar and talking to the database happen around it.
pub mod word;
pub mod config;
pub mod tree;
pub mod symbols;
pub mod queries;
pub mod port;
pub mod error;
pub mod fold;
pub mod reading;
pub mod program;
pub mod invariants;
pub mod script;
pub mod laws;
