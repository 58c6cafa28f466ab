//! The WIP data model: standings, kinds, closure actions, admitted GitHub
//! snapshots, source findings, WIP objects, closure intents and the report.
//!
//! Instants are held as [`Timestamp`] (whole seconds since the Unix epoch plus
//! sub-second nanoseconds); ages and cycle times as whole seconds.
use vstd::prelude::*;

use crate::text::owned;

verus! {

pub const WIP_SNAPSHOT_SCHEMA: &'static str = "chatman.wip.github-snapshot/v1";

pub const WIP_REPORT_SCHEMA: &'static str = "chatman.wip.report/v1";

/// Age, in days, from which unfinished work counts as stale.
pub const DEFAULT_STALE_DAYS: i64 = 7;

/// Admission standing of a WIP object.
#[derive(Debug, Clone, Copy, PartialEq, Eq, Structural)]
pub enum Standing {
    Unknown,
    PartialAlive,
    Alive,
    Blocked,
    BuildBroken,
    Unsupported,
    Refused,
}

impl Default for Standing {
    fn default() -> (s: Self)
        ensures
            s == Standing::Unknown,
    {
        Standing::Unknown
    }
}

/// What kind of unfinished work an object is.
#[derive(Debug, Clone, Copy, PartialEq, Eq, Structural)]
pub enum WipKind {
    Code,
    Test,
    Integration,
    Dependency,
    Ci,
    Review,
    Merge,
    Release,
    Documentation,
    Evidence,
    Receipt,
    Replay,
    GeneratedProjection,
    OrphanBranch,
    StalePr,
    AbandonedExperiment,
    DuplicateImplementation,
    UnsatisfiedRequirement,
    CrossRepoBlocker,
    SourceMarker,
}

/// A reversible action that would retire WIP.
#[derive(Debug, Clone, Copy, PartialEq, Eq, Structural)]
pub enum ClosureActionKind {
    RepairCi,
    FinishImplementation,
    ResolveBlocker,
    MaterializeDependency,
    AddEvidence,
    AddReceipt,
    ReplaceReplayPointer,
    RequestReview,
    Merge,
    Release,
    OpenPullRequest,
    CompareAndSupersede,
    CloseSatisfiedIssue,
    ReclassifyUnsupported,
}

/// An instant: whole seconds since the Unix epoch and the sub-second nanoseconds.
#[derive(Debug, Clone, Copy, PartialEq, Eq, Structural)]
pub struct Timestamp {
    pub secs: i64,
    pub nanos: u32,
}

/// Seconds of the earliest representable instant (-262143-01-01T00:00:00Z).
pub const MIN_UTC_SECS: i64 = -8334601315200;

/// Seconds of the latest representable instant (+262142-12-31T23:59:59Z).
pub const MAX_UTC_SECS: i64 = 8210266876799;

/// A representable UTC instant, outside a leap second.
pub open spec fn valid_ts(t: Timestamp) -> bool {
    MIN_UTC_SECS <= t.secs <= MAX_UTC_SECS && t.nanos < 1_000_000_000
}

/// `a <= b` in time.
pub open spec fn ts_le(a: Timestamp, b: Timestamp) -> bool {
    a.secs < b.secs || (a.secs == b.secs && a.nanos <= b.nanos)
}

/// Whole seconds elapsed from `b` to `a`, truncated toward zero (negative when `a` is earlier).
pub open spec fn secs_between(a: Timestamp, b: Timestamp) -> int {
    let total = (a.secs - b.secs) * 1_000_000_000 + (a.nanos - b.nanos);
    if total >= 0 {
        total / 1_000_000_000
    } else {
        -((-total) / 1_000_000_000)
    }
}

/// Rank of a standing in the severity order used to pick a group's standing.
pub open spec fn standing_rank(s: Standing) -> u8 {
    match s {
        Standing::Unknown => 0,
        Standing::Alive => 1,
        Standing::PartialAlive => 2,
        Standing::Unsupported | Standing::Refused => 3,
        Standing::Blocked => 4,
        Standing::BuildBroken => 5,
    }
}

/// Declaration index of a kind (the order `derive(Ord)` gives).
pub open spec fn kind_index(k: WipKind) -> int {
    match k {
        WipKind::Code => 0,
        WipKind::Test => 1,
        WipKind::Integration => 2,
        WipKind::Dependency => 3,
        WipKind::Ci => 4,
        WipKind::Review => 5,
        WipKind::Merge => 6,
        WipKind::Release => 7,
        WipKind::Documentation => 8,
        WipKind::Evidence => 9,
        WipKind::Receipt => 10,
        WipKind::Replay => 11,
        WipKind::GeneratedProjection => 12,
        WipKind::OrphanBranch => 13,
        WipKind::StalePr => 14,
        WipKind::AbandonedExperiment => 15,
        WipKind::DuplicateImplementation => 16,
        WipKind::UnsatisfiedRequirement => 17,
        WipKind::CrossRepoBlocker => 18,
        WipKind::SourceMarker => 19,
    }
}

/// The variant name of a kind, as `{:?}` prints it.
pub open spec fn kind_name(k: WipKind) -> Seq<char> {
    match k {
        WipKind::Code => "Code"@,
        WipKind::Test => "Test"@,
        WipKind::Integration => "Integration"@,
        WipKind::Dependency => "Dependency"@,
        WipKind::Ci => "Ci"@,
        WipKind::Review => "Review"@,
        WipKind::Merge => "Merge"@,
        WipKind::Release => "Release"@,
        WipKind::Documentation => "Documentation"@,
        WipKind::Evidence => "Evidence"@,
        WipKind::Receipt => "Receipt"@,
        WipKind::Replay => "Replay"@,
        WipKind::GeneratedProjection => "GeneratedProjection"@,
        WipKind::OrphanBranch => "OrphanBranch"@,
        WipKind::StalePr => "StalePr"@,
        WipKind::AbandonedExperiment => "AbandonedExperiment"@,
        WipKind::DuplicateImplementation => "DuplicateImplementation"@,
        WipKind::UnsatisfiedRequirement => "UnsatisfiedRequirement"@,
        WipKind::CrossRepoBlocker => "CrossRepoBlocker"@,
        WipKind::SourceMarker => "SourceMarker"@,
    }
}

pub fn kind_index_exec(k: WipKind) -> (r: u8)
    ensures
        r as int == kind_index(k),
{
    match k {
        WipKind::Code => 0,
        WipKind::Test => 1,
        WipKind::Integration => 2,
        WipKind::Dependency => 3,
        WipKind::Ci => 4,
        WipKind::Review => 5,
        WipKind::Merge => 6,
        WipKind::Release => 7,
        WipKind::Documentation => 8,
        WipKind::Evidence => 9,
        WipKind::Receipt => 10,
        WipKind::Replay => 11,
        WipKind::GeneratedProjection => 12,
        WipKind::OrphanBranch => 13,
        WipKind::StalePr => 14,
        WipKind::AbandonedExperiment => 15,
        WipKind::DuplicateImplementation => 16,
        WipKind::UnsatisfiedRequirement => 17,
        WipKind::CrossRepoBlocker => 18,
        WipKind::SourceMarker => 19,
    }
}

pub fn kind_name_exec(k: WipKind) -> (r: &'static str)
    ensures
        r@ == kind_name(k),
{
    match k {
        WipKind::Code => "Code",
        WipKind::Test => "Test",
        WipKind::Integration => "Integration",
        WipKind::Dependency => "Dependency",
        WipKind::Ci => "Ci",
        WipKind::Review => "Review",
        WipKind::Merge => "Merge",
        WipKind::Release => "Release",
        WipKind::Documentation => "Documentation",
        WipKind::Evidence => "Evidence",
        WipKind::Receipt => "Receipt",
        WipKind::Replay => "Replay",
        WipKind::GeneratedProjection => "GeneratedProjection",
        WipKind::OrphanBranch => "OrphanBranch",
        WipKind::StalePr => "StalePr",
        WipKind::AbandonedExperiment => "AbandonedExperiment",
        WipKind::DuplicateImplementation => "DuplicateImplementation",
        WipKind::UnsatisfiedRequirement => "UnsatisfiedRequirement",
        WipKind::CrossRepoBlocker => "CrossRepoBlocker",
        WipKind::SourceMarker => "SourceMarker",
    }
}

/// The character sequences of a list of strings.
pub open spec fn strs(v: Seq<String>) -> Seq<Seq<char>> {
    v.map_values(|s: String| s@)
}

/// Observation window used when a snapshot does not state one.
pub fn default_window_days() -> (d: u32)
    ensures
        d == 30,
{
    30
}

/// Default branch name used when a repository does not state one.
pub fn default_branch_name() -> (s: String)
    ensures
        s@ == "main"@,
{
    owned("main")
}

/// An admitted snapshot of GitHub activity.
#[derive(Debug, Clone)]
pub struct GitHubSnapshot {
    pub schema_version: String,
    pub observed_at: Timestamp,
    pub window_days: u32,
    /// Repository whose checked-out source tree is scanned alongside this snapshot.
    pub workspace_repository: Option<String>,
    pub repositories: Vec<RepositorySnapshot>,
}

#[derive(Debug, Clone, Default)]
pub struct RepositorySnapshot {
    pub full_name: String,
    pub default_branch: String,
    pub branches: Vec<BranchSnapshot>,
    pub pull_requests: Vec<PullRequestSnapshot>,
    pub issues: Vec<IssueSnapshot>,
    pub workflow_runs: Vec<WorkflowRunSnapshot>,
    pub releases: Vec<ReleaseSnapshot>,
    pub commits: Vec<CommitSnapshot>,
    pub dependency_edges: Vec<DependencyEdge>,
}

#[derive(Debug, Clone, Default)]
pub struct BranchSnapshot {
    pub name: String,
    pub head_sha: String,
    pub ahead_by: u64,
    pub behind_by: u64,
    pub merged_into_default: bool,
    pub last_activity_at: Option<Timestamp>,
    pub associated_pr: Option<u64>,
}

#[derive(Debug, Clone, Default)]
pub struct PullRequestSnapshot {
    pub number: u64,
    pub title: String,
    pub state: String,
    pub draft: bool,
    pub head_branch: String,
    pub base_branch: String,
    pub created_at: Option<Timestamp>,
    pub updated_at: Option<Timestamp>,
    pub closed_at: Option<Timestamp>,
    pub merged_at: Option<Timestamp>,
    pub ci_status: String,
    pub blockers: Vec<String>,
    pub changed_files: u64,
    pub linked_issues: Vec<u64>,
}

#[derive(Debug, Clone, Default)]
pub struct IssueSnapshot {
    pub number: u64,
    pub title: String,
    pub state: String,
    pub created_at: Option<Timestamp>,
    pub updated_at: Option<Timestamp>,
    pub closed_at: Option<Timestamp>,
    pub labels: Vec<String>,
    pub linked_pr: Option<u64>,
}

#[derive(Debug, Clone, Default)]
pub struct WorkflowRunSnapshot {
    pub id: u64,
    pub name: String,
    pub status: String,
    pub conclusion: String,
    pub head_branch: String,
    pub head_sha: String,
    pub pull_request: Option<u64>,
    pub created_at: Option<Timestamp>,
    pub updated_at: Option<Timestamp>,
}

#[derive(Debug, Clone, Default)]
pub struct ReleaseSnapshot {
    pub tag_name: String,
    pub name: String,
    pub draft: bool,
    pub prerelease: bool,
    pub created_at: Option<Timestamp>,
    pub published_at: Option<Timestamp>,
}

#[derive(Debug, Clone, Default)]
pub struct CommitSnapshot {
    pub sha: String,
    pub message: String,
    pub committed_at: Option<Timestamp>,
    pub branch: String,
}

/// `from` depends on `to`; a blocking edge makes `from` a dependent of `to`.
#[derive(Debug, Clone, Default)]
pub struct DependencyEdge {
    pub from: String,
    pub to: String,
    pub relation: String,
    pub blocking: bool,
}

/// One unfinished-work marker found in the source tree.
#[derive(Debug, Clone)]
pub struct SourceFinding {
    pub id: String,
    pub path: String,
    pub line: usize,
    pub marker: String,
    pub kind: WipKind,
    pub standing: Standing,
    pub message: String,
}

/// One logical unit of work in progress.
#[derive(Debug, Clone)]
pub struct WipObject {
    pub id: String,
    pub repository: String,
    pub kind: WipKind,
    pub standing: Standing,
    pub title: String,
    pub origin: String,
    pub created_at: Option<Timestamp>,
    pub last_activity_at: Option<Timestamp>,
    /// Whole seconds since the last observed activity (never negative).
    pub age_seconds: i64,
    pub blockers: Vec<String>,
    pub dependents: Vec<String>,
    pub evidence: Vec<String>,
    pub closure_conditions: Vec<String>,
}

/// The mathematical content of a [`WipObject`].
pub struct WipView {
    pub id: Seq<char>,
    pub repository: Seq<char>,
    pub kind: WipKind,
    pub standing: Standing,
    pub title: Seq<char>,
    pub origin: Seq<char>,
    pub created_at: Option<Timestamp>,
    pub last_activity_at: Option<Timestamp>,
    pub age_seconds: i64,
    pub blockers: Seq<Seq<char>>,
    pub dependents: Seq<Seq<char>>,
    pub evidence: Seq<Seq<char>>,
    pub closure_conditions: Seq<Seq<char>>,
}

impl View for WipObject {
    type V = WipView;

    open spec fn view(&self) -> WipView {
        WipView {
            id: self.id@,
            repository: self.repository@,
            kind: self.kind,
            standing: self.standing,
            title: self.title@,
            origin: self.origin@,
            created_at: self.created_at,
            last_activity_at: self.last_activity_at,
            age_seconds: self.age_seconds,
            blockers: strs(self.blockers@),
            dependents: strs(self.dependents@),
            evidence: strs(self.evidence@),
            closure_conditions: strs(self.closure_conditions@),
        }
    }
}

pub open spec fn wip_views(v: Seq<WipObject>) -> Seq<WipView> {
    v.map_values(|o: WipObject| o@)
}

/// The mathematical content of a [`SourceFinding`].
pub struct FindingView {
    pub id: Seq<char>,
    pub path: Seq<char>,
    pub line: usize,
    pub marker: Seq<char>,
    pub kind: WipKind,
    pub standing: Standing,
    pub message: Seq<char>,
}

impl View for SourceFinding {
    type V = FindingView;

    open spec fn view(&self) -> FindingView {
        FindingView {
            id: self.id@,
            path: self.path@,
            line: self.line,
            marker: self.marker@,
            kind: self.kind,
            standing: self.standing,
            message: self.message@,
        }
    }
}

pub open spec fn finding_views(v: Seq<SourceFinding>) -> Seq<FindingView> {
    v.map_values(|f: SourceFinding| f@)
}

/// A ranked-later, never-executed proposal to retire one WIP object.
#[derive(Debug, Clone)]
pub struct ClosureIntent {
    pub id: String,
    pub wip_id: String,
    pub repository: String,
    pub action: ClosureActionKind,
    pub reason: String,
    /// Dependents this closure unblocks; the expected WIP reduction is one more.
    pub blocked_dependents: usize,
    pub age_seconds: i64,
    /// Estimated cost in quarter units (4 = 1.0).
    pub estimated_cost_quarters: u32,
    pub authority: String,
    pub receipt_required: bool,
}

/// The integer facts behind Little's Law: L, the window, and the observed completions.
#[derive(Debug, Clone)]
pub struct LittleLawMetrics {
    /// L: admitted WIP objects.
    pub wip_l: usize,
    pub observation_window_days: u32,
    pub completed_objects_in_window: usize,
    /// Cycle time, in whole seconds, of each completion admitted in the window.
    pub completion_cycle_seconds: Vec<i64>,
}

/// The WIP closure report.
#[derive(Debug, Clone)]
pub struct WipReport {
    pub schema_version: String,
    pub observed_at: Timestamp,
    pub status: Standing,
    pub metrics: LittleLawMetrics,
    pub wip: Vec<WipObject>,
    /// Closure intents in construction order (WIP object order, then action order).
    pub closure_frontier: Vec<ClosureIntent>,
    pub source_findings: Vec<SourceFinding>,
    pub notes: Vec<String>,
}

} // verus!
