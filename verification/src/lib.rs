//! Local development domains: what a configuration means, how it is edited, and what a
//! deployment of it consists of.
pub mod alias;
pub mod alias_laws;
pub mod commands;
pub mod config;
pub mod error;
pub mod json;
pub mod map;
pub mod sort;
pub mod text;
pub mod text_laws;
