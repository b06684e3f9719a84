//! Verified core of husako: the rules, parsers and decisions behind the
//! `husako` command-line tool for writing Kubernetes resources in TypeScript.
use vstd::prelude::*;

pub mod text;
pub mod table;
pub mod order;
pub mod quantity;
pub mod url_detect;
pub mod version_check;
pub mod config;
pub mod plugin;
pub mod lock_check;
pub mod bench;
pub mod jsonc;
pub mod schema_source;
pub mod project;
pub mod debug;
pub mod progress;
pub mod select;
pub mod name_version_select;
pub mod search_select;
pub mod text_input;
pub mod tsconfig;
pub mod validate;
pub mod add;
pub mod entry;
pub mod edit;
pub mod config_edit;
pub mod versions;
pub mod workspace;
pub mod render;
pub mod exit_status;

verus! {
} // verus!
