//! Tools as plain files.
//!
//! A mount exposes tools as directories of files: writing to a file of a tool sends it
//! input, reading the file gives its result. This library holds what such a mount
//! decides and computes; reading, writing and running things is left to its caller.
//!
//! - [`text`], [`split`], [`number`], [`order`], [`text_map`], [`paths`]: texts and
//!   paths as sequences of characters.
//! - [`json`]: JSON documents.
//! - [`manifest`], [`config`], [`secrets`]: what tools, projects and users declare.
//! - [`registry`], [`tools`], [`sandbox`]: tools, how they are invoked and confined.
//! - [`fs`]: the virtual file system.
//! - [`mcp`], [`mcp_proxy`]: the tools as an MCP server, and MCP servers as tools.
//! - [`installer`], [`installation`], [`marketplace`]: where tools come from.
//! - [`laws`]: what the operations are for.
//! - [`cli`], [`daemon`], [`doctor`], [`watcher`]: the program around a mount.
pub mod cli;
pub mod config;
pub mod daemon;
pub mod doctor;
pub mod error;
pub mod fs;
pub mod installation;
pub mod installer;
pub mod json;
pub mod laws;
pub mod manifest;
pub mod marketplace;
pub mod mcp;
pub mod mcp_proxy;
pub mod number;
pub mod order;
pub mod paths;
pub mod registry;
pub mod sandbox;
pub mod secrets;
pub mod split;
pub mod text;
pub mod text_map;
pub mod tools;
pub mod watcher;
