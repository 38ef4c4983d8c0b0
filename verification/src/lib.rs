//! Migration of infrastructure state inventories: an ordered list of resource
//! addresses is rewritten by an ordered list of move and remove rules, and the
//! commands that carry out the rewrite are collected.

pub mod command;
pub mod document;
pub mod element;
pub mod format_list;
pub mod migration;
pub mod state;
pub mod text;
pub mod transformation;
