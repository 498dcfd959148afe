//! Configuration logic: template filters, deprecation and unknown-key
//! diagnostics, project matching.

pub mod expansion;
pub mod project_match;
pub mod deprecation;
pub mod unknown_tree;
pub mod user_path;
pub mod git_source;
pub mod hooks;
pub mod validation;
pub mod template_ast;
