//! Building blocks of an interactive conventional-commit authoring tool:
//! layered configuration, the commit-type registry, emoji shortcodes,
//! message assembly and the staging gate.

pub mod answers;
pub mod commit;
pub mod commit_types;
pub mod config;
pub mod emoji;
pub mod form_types;
pub mod get_answers;
pub mod questions;
pub mod status;
pub mod text;
