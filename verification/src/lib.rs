//! Recipe-resolution engine for a combination-discovery game.
//!
//! A registry of items is loaded from a configuration tree; each item carries
//! a stable numeric identity, a list of class tags, and a list of recipes.
//! The match engine decides, for any pair of items, which items of the
//! registry that pair can produce.

pub mod config;
pub mod error;
pub mod ident;
pub mod item;
pub mod laws;
pub mod recipe;
pub mod registry;
