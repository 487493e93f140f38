//! A dataflow graph of pull-based processing nodes, the registry that builds
//! and wires them, and the reversible commands that edit the graph.
//!
//! - `flow`: the values that flow between nodes.
//! - `nodes`: the catalog of node kinds and what each computes.
//! - `registry`: building nodes by name, wiring them, pulling values.
//! - `params`: the graph store of an editing session.
//! - `commands`: reversible edits, groups of them, and the undo history.
//! - `edits`: inserting a node before, after or in place of another.
//! - `document`: the saved form of a graph.
//! - `commandline`: the editor's command line.
//! - `text`, `json_support`, `table`: text and JSON operations, and keyed lists.

pub mod table;
pub mod text;
pub mod json_support;
pub mod flow;
pub mod nodes;
pub mod registry;
pub mod params;
pub mod commands;
pub mod edits;
pub mod document;
pub mod commandline;
