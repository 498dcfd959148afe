//! Verified core logic of worktrunk: parsing git output, forge references,
//! remote URLs and configuration helpers.

pub mod config;
pub mod copy_progress;
pub mod diagnostic;
pub mod git;
pub mod styling;
pub mod text;
