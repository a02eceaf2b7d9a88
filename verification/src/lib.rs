//! Branching, forkable conversation trees.
//!
//! A conversation is a tree of messages. Every message stores its own
//! root-to-self ancestor chain (its lineage), named branches point at a leaf
//! of the tree, and a fork clones a path or a whole tree into a new
//! conversation. The functions of this crate are verified against contracts
//! stated over sequences and maps of plain values.

pub mod api;
pub mod config;
pub mod db;
pub mod domain;
pub mod repositories;
pub mod services;
pub mod utils;
