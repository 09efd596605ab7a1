//! A small library for an interactive todo browser: task records fetched from
//! a remote endpoint are filtered by owner, title substring or completion
//! status, and rendered as an aligned text table.
//!
//! The filtering, rendering, prompt resolution and menu decisions live here,
//! fully specified and verified; the surrounding program supplies the network
//! fetch and the standard input/output plumbing.

pub mod filter;
pub mod menu;
pub mod numbers;
pub mod prompt;
pub mod render;
pub mod text;
pub mod todo;
