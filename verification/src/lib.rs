//! A shopping list: items, per-user lists, the rendering of lists and emails,
//! the parsing of credentials and commands, and the decisions of the stores
//! that keep the lists.

pub mod text;
pub mod price;
pub mod item;
pub mod sort;
pub mod user;
pub mod credentials;
pub mod repo;
pub mod render;
pub mod error;
pub mod auth;
pub mod store;
pub mod repl;
pub mod commands;
pub mod client;
pub mod config;
