//! Document model and position-scoped symbol index for a plain-text
//! accounting ledger language server.
//!
//! The library owns the current parsed document (a flat, pre-order list of
//! syntax nodes together with the exact source bytes that produced it),
//! classifies the node under a cursor, collects the distinct symbol texts of
//! a kind while excluding the node under edit, and plans the text edits of a
//! rename across the whole document.

pub mod bytes;
pub mod document;
pub mod grammar;
pub mod index;
pub mod node;
pub mod position;
pub mod rename;
