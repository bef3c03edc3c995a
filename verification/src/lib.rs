//! Core engine of a package/graph manager for an extension pipeline:
//! an attribute-tree model of message payload shapes, a dotted/bracketed
//! path navigator over those trees, a rule-based schema synthesis engine,
//! a structural compatibility checker, and the connection validator that
//! gates graph mutation on all of them.
//!
//! - [`attr`]: the tagged attribute tree and its name-keyed child maps.
//! - [`path`]: the property-path syntax and its parser.
//! - [`navigate`]: the read and write navigators over attribute trees.
//! - [`manifest`]: the declared API surface of an addon.
//! - [`schema`]: compiled schemas and structural compatibility.
//! - [`store`]: per-addon schema tables and the package cache.
//! - [`conversion`]: the rule engine and schema synthesis for one edge.
//! - [`graph`]: the graph model and the validated connection insert.
//! - [`package`]: the package file name and pattern classification.

pub mod attr;
pub mod path;
pub mod navigate;
pub mod manifest;
pub mod schema;
pub mod store;
pub mod conversion;
pub mod graph;
pub mod package;
