//! Turns loosely typed relationship candidates into graph edges that are
//! created at most once.
//!
//! An analyzer outside this crate reads the nodes of a property graph and
//! proposes relationships between them. Its proposals name nodes by
//! reference or by content.
//! This crate decodes the proposals ([`candidates`]), resolves every end to
//! a node ([`resolver`]), and makes sure of each edge without ever creating
//! it twice ([`writer`]).
//!
//! The crate never talks to a graph store itself. It decides what to ask
//! the store ([`store::Request`]) and what to do with each answer
//! ([`store::Reply`]); a caller performs the requests. The state machines
//! [`writer::Writer`], [`ingest::Ingestion`] and [`pipeline::Pipeline`] hold
//! these decisions. [`graph::MemoryGraph`] is a store held in memory, and the
//! functions that run the machines against it are proved to do exactly what
//! the spec functions [`writer::write_edge`], [`ingest::ingest_all`] and
//! [`pipeline::run_on`] say. What holds of every run is proved in [`laws`].

pub mod text;
pub mod reltype;
pub mod store;
pub mod graph;
pub mod resolver;
pub mod writer;
pub mod ingest;
pub mod json;
pub mod candidates;
pub mod plan;
pub mod export;
pub mod pipeline;
pub mod laws;
