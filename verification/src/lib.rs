//! Build-time analysis for a workspace: a dependency graph of packages,
//! per-package compile times reconciled from a timing report, and the chain
//! of packages that bounds the wall-clock time of the build.

pub mod chains;
pub mod cli;
pub mod critical_path;
pub mod metadata;
pub mod model;
pub mod page;
pub mod report;
pub mod text;
pub mod time;
pub mod timing;
