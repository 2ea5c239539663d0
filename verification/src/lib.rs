//! A verified local store for a product-management workspace: an overridable
//! builtin catalog (categories, framework definitions, saved prompts), a
//! per-project folder tree with detach-on-delete, a cross-table item index,
//! and an encrypted-settings vault.

pub mod catalog;
pub mod defs;
pub mod error;
pub mod folders;
pub mod items;
pub mod order;
pub mod prompts;
pub mod rows;
pub mod seed;
pub mod settings;
pub mod store;
pub mod text;
pub mod vault;
