//! Little's Law WIP observation and closure-frontier engine.
//!
//! This module is read-only. It converts admitted repository/source observations
//! into WIP objects and closure intents and never executes a closure action.
pub mod analyze;
pub mod collapse;
pub mod frontier;
pub mod model;
pub mod order;
pub mod pareto;
pub mod render;
pub mod sections;
pub mod source;
pub mod syntax;
pub mod tree_sitter_scan;

pub use analyze::{admit_snapshot_schema, analyze};
pub use model::{
    default_branch_name, default_window_days, BranchSnapshot, ClosureActionKind, ClosureIntent,
    CommitSnapshot, DependencyEdge, GitHubSnapshot, IssueSnapshot, LittleLawMetrics,
    PullRequestSnapshot, ReleaseSnapshot, RepositorySnapshot, SourceFinding, Standing, Timestamp,
    WipKind, WipObject, WipReport, WorkflowRunSnapshot, DEFAULT_STALE_DAYS, WIP_REPORT_SCHEMA,
    WIP_SNAPSHOT_SCHEMA,
};
pub use pareto::{errc_lane, ErrcLane};
pub use tree_sitter_scan::{is_tree_sitter_path, supported_tree_sitter_languages};
