//! WIP analysis: turns an admitted snapshot and source findings into WIP
//! objects, completions inside the observation window, the closure frontier
//! and the aggregate standing.
use vstd::prelude::*;

use crate::text::{
    ascii_lower, ascii_lower_chars, chars_of, decimal, eq_text, owned, push_decimal_u64, string_of,
};
use crate::wip::model::{
    secs_between, standing_rank, strs, ts_le, valid_ts, wip_views, CommitSnapshot,
    DEFAULT_STALE_DAYS, DependencyEdge, GitHubSnapshot, LittleLawMetrics, PullRequestSnapshot,
    RepositorySnapshot, SourceFinding, Standing, Timestamp, WIP_REPORT_SCHEMA, WIP_SNAPSHOT_SCHEMA,
    WipKind, WipObject, WipReport, WipView,
};
use crate::wip::frontier::{build_closure_frontier, frontier_upto, intent_views};
use crate::wip::order::{
    insert_sorted, lemma_insert_sorted, lemma_lex_irrefl, lemma_lex_total, lemma_lex_trans,
    lemma_sorted_listing, lemma_str_order, lex_lt, sorted_by, sorted_listing, str_lt, str_order,
    strict_total,
};
use crate::wip::sections::{repos_done_upto, repos_wip_upto, repository_sections};
use crate::wip::collapse::{collapse_source_findings, collapsed, source_repository};

verus! {


// ---------------------------------------------------------------------------
// Status vocabulary
// ---------------------------------------------------------------------------
/// `state.eq_ignore_ascii_case("open")`.
pub open spec fn is_open_state(s: Seq<char>) -> bool {
    ascii_lower(s) == "open"@
}

pub open spec fn is_failure_status(s: Seq<char>) -> bool {
    let l = ascii_lower(s);
    l == "failure"@ || l == "failed"@ || l == "error"@ || l == "cancelled"@ || l == "timed_out"@
        || l == "action_required"@
}

pub open spec fn is_success_status(s: Seq<char>) -> bool {
    let l = ascii_lower(s);
    l == "success"@ || l == "successful"@ || l == "passed"@
}

pub(crate) fn lowered(s: &str) -> (r: String)
    ensures
        r@ == ascii_lower(s@),
{
    let c = chars_of(s);
    let l = ascii_lower_chars(c.as_slice());
    string_of(l.as_slice())
}

pub(crate) fn is_open(state: &str) -> (b: bool)
    ensures
        b == is_open_state(state@),
{
    let l = lowered(state);
    eq_text(l.as_str(), "open")
}

pub(crate) fn is_failure(status: &str) -> (b: bool)
    ensures
        b == is_failure_status(status@),
{
    let l = lowered(status);
    let l = l.as_str();
    eq_text(l, "failure") || eq_text(l, "failed") || eq_text(l, "error") || eq_text(l, "cancelled")
        || eq_text(l, "timed_out") || eq_text(l, "action_required")
}

pub(crate) fn is_success(status: &str) -> (b: bool)
    ensures
        b == is_success_status(status@),
{
    let l = lowered(status);
    let l = l.as_str();
    eq_text(l, "success") || eq_text(l, "successful") || eq_text(l, "passed")
}

pub fn standing_rank_exec(s: Standing) -> (r: u8)
    ensures
        r == standing_rank(s),
{
    match s {
        Standing::Unknown => 0,
        Standing::Alive => 1,
        Standing::PartialAlive => 2,
        Standing::Unsupported | Standing::Refused => 3,
        Standing::Blocked => 4,
        Standing::BuildBroken => 5,
    }
}

// ---------------------------------------------------------------------------
// Time
// ---------------------------------------------------------------------------
/// Ages at or beyond this many seconds are stale.
pub open spec fn stale_secs() -> int {
    DEFAULT_STALE_DAYS * 86400
}

/// Age in whole seconds of an activity instant, never negative; 0 without one.
pub open spec fn age_secs(observed: Timestamp, from: Option<Timestamp>) -> int {
    match from {
        Some(t) => if secs_between(observed, t) > 0 {
            secs_between(observed, t)
        } else {
            0
        },
        None => 0,
    }
}

/// `a` when present, else `b`.
pub open spec fn or_else(a: Option<Timestamp>, b: Option<Timestamp>) -> Option<Timestamp> {
    if a is Some {
        a
    } else {
        b
    }
}

/// `(a - b).num_seconds()`.
pub(crate) fn elapsed_secs(a: Timestamp, b: Timestamp) -> (r: i64)
    requires
        valid_ts(a),
        valid_ts(b),
    ensures
        r as int == secs_between(a, b),
{
    let mut ds: i64 = a.secs - b.secs;
    let mut dn: i64 = a.nanos as i64 - b.nanos as i64;
    if dn < 0 {
        ds = ds - 1;
        dn = dn + 1_000_000_000;
    }
    let ghost total: int = (a.secs - b.secs) * 1_000_000_000 + (a.nanos - b.nanos);
    assert(total == ds * 1_000_000_000 + dn);
    if ds < 0 && dn > 0 {
        assert(-total == (-ds - 1) * 1_000_000_000 + (1_000_000_000 - dn));
        assert((-total) / 1_000_000_000 == -ds - 1) by (nonlinear_arith)
            requires
                -total == (-ds - 1) * 1_000_000_000 + (1_000_000_000 - dn),
                0 < 1_000_000_000 - dn < 1_000_000_000,
        ;
        ds + 1
    } else if ds < 0 {
        assert((-total) / 1_000_000_000 == -ds) by (nonlinear_arith)
            requires
                -total == (-ds) * 1_000_000_000,
        ;
        ds
    } else {
        assert(total / 1_000_000_000 == ds) by (nonlinear_arith)
            requires
                total == ds * 1_000_000_000 + dn,
                0 <= dn < 1_000_000_000,
        ;
        ds
    }
}

pub(crate) fn age_seconds(observed: Timestamp, from: Option<Timestamp>) -> (r: i64)
    requires
        valid_ts(observed),
        from matches Some(t) ==> valid_ts(t),
    ensures
        r as int == age_secs(observed, from),
{
    match from {
        Some(t) => {
            let d = elapsed_secs(observed, t);
            if d > 0 {
                d
            } else {
                0
            }
        },
        None => 0,
    }
}

pub(crate) fn ts_le_exec(a: Timestamp, b: Timestamp) -> (r: bool)
    ensures
        r == ts_le(a, b),
{
    a.secs < b.secs || (a.secs == b.secs && a.nanos <= b.nanos)
}

/// Latest commit instant on `branch` among the first `n` commits.
pub open spec fn latest_commit_upto(commits: Seq<CommitSnapshot>, branch: Seq<char>, n: int) -> Option<Timestamp>
    decreases n,
{
    if n <= 0 {
        None
    } else {
        let prev = latest_commit_upto(commits, branch, n - 1);
        let c = commits[n - 1];
        if c.branch@ == branch && c.committed_at is Some {
            let t = c.committed_at->0;
            match prev {
                Some(p) => if ts_le(p, t) {
                    Some(t)
                } else {
                    Some(p)
                },
                None => Some(t),
            }
        } else {
            prev
        }
    }
}

/// The latest commit instant on `branch`.
pub open spec fn latest_commit(repo: RepositorySnapshot, branch: Seq<char>) -> Option<Timestamp> {
    latest_commit_upto(repo.commits@, branch, repo.commits@.len() as int)
}

pub(crate) fn latest_commit_at(repo: &RepositorySnapshot, branch: &str) -> (r: Option<Timestamp>)
    ensures
        r == latest_commit(*repo, branch@),
{
    let mut best: Option<Timestamp> = None;
    let mut i: usize = 0;
    while i < repo.commits.len()
        invariant
            i <= repo.commits@.len(),
            best == latest_commit_upto(repo.commits@, branch@, i as int),
        decreases repo.commits@.len() - i,
    {
        let c = &repo.commits[i];
        if eq_text(c.branch.as_str(), branch) {
            match c.committed_at {
                Some(t) => {
                    best = match best {
                        Some(p) => if ts_le_exec(p, t) {
                            Some(t)
                        } else {
                            Some(p)
                        },
                        None => Some(t),
                    };
                },
                None => {},
            }
        }
        i = i + 1;
    }
    best
}

// ---------------------------------------------------------------------------
// Classification and closure conditions
// ---------------------------------------------------------------------------
/// Kind and standing of an open pull request of the given age.
pub open spec fn open_pr_class(pr: PullRequestSnapshot, age: int) -> (WipKind, Standing) {
    if is_failure_status(pr.ci_status@) {
        (WipKind::Ci, Standing::BuildBroken)
    } else if pr.blockers@.len() > 0 {
        (WipKind::CrossRepoBlocker, Standing::Blocked)
    } else if is_success_status(pr.ci_status@) {
        (WipKind::Merge, Standing::PartialAlive)
    } else if age >= stale_secs() {
        (WipKind::StalePr, Standing::PartialAlive)
    } else {
        (WipKind::Review, Standing::PartialAlive)
    }
}

/// Open pull requests: a failing CI status (failure, failed, error, cancelled,
/// timed_out, action_required, in any ASCII case) makes CI work with a broken
/// build; otherwise any blocker makes a blocked cross-repository blocker;
/// otherwise a passing status (success, successful, passed) makes merge work;
/// otherwise a pull request at least seven days old is stale, and a younger
/// one awaits review. Only failures and blockers are more severe than
/// partially alive.
pub proof fn lemma_open_pr_classification(pr: PullRequestSnapshot, age: int)
    ensures
        ({
            let l = ascii_lower(pr.ci_status@);
            let failing = l == "failure"@ || l == "failed"@ || l == "error"@ || l == "cancelled"@ || l == "timed_out"@
                || l == "action_required"@;
            let passing = l == "success"@ || l == "successful"@ || l == "passed"@;
            let c = open_pr_class(pr, age);
            &&& failing ==> c == (WipKind::Ci, Standing::BuildBroken)
            &&& !failing && pr.blockers@.len() > 0 ==> c == (WipKind::CrossRepoBlocker, Standing::Blocked)
            &&& !failing && pr.blockers@.len() == 0 && passing ==> c == (WipKind::Merge, Standing::PartialAlive)
            &&& !failing && pr.blockers@.len() == 0 && !passing && age >= 7 * 86400 ==> c == (
                WipKind::StalePr,
                Standing::PartialAlive,
            )
            &&& !failing && pr.blockers@.len() == 0 && !passing && age < 7 * 86400 ==> c == (
                WipKind::Review,
                Standing::PartialAlive,
            )
        }),
{
}

pub(crate) fn classify_open_pr(pr: &PullRequestSnapshot, age_seconds: i64) -> (r: (WipKind, Standing))
    ensures
        r == open_pr_class(*pr, age_seconds as int),
{
    if is_failure(pr.ci_status.as_str()) {
        (WipKind::Ci, Standing::BuildBroken)
    } else if pr.blockers.len() > 0 {
        (WipKind::CrossRepoBlocker, Standing::Blocked)
    } else if is_success(pr.ci_status.as_str()) {
        (WipKind::Merge, Standing::PartialAlive)
    } else if age_seconds >= DEFAULT_STALE_DAYS * 86400 {
        (WipKind::StalePr, Standing::PartialAlive)
    } else {
        (WipKind::Review, Standing::PartialAlive)
    }
}

pub open spec fn pr_closure(pr: PullRequestSnapshot) -> Seq<Seq<char>> {
    if is_failure_status(pr.ci_status@) {
        seq![
            "inspect the exact-head failing check"@,
            "repair the failed transition and rerun the verifier"@,
        ]
    } else if pr.blockers@.len() > 0 {
        seq!["resolve admitted blockers"@]
    } else if pr.draft {
        seq!["finish implementation and evidence"@, "mark ready only after exact-head verification"@]
    } else if is_success_status(pr.ci_status@) {
        seq!["verify merge eligibility at the exact head"@]
    } else {
        seq!["obtain exact-head verification evidence"@]
    }
}

pub(crate) fn pr_closure_conditions(pr: &PullRequestSnapshot) -> (r: Vec<String>)
    ensures
        strs(r@) == pr_closure(*pr),
{
    let r = if is_failure(pr.ci_status.as_str()) {
        vec![
            owned("inspect the exact-head failing check"),
            owned("repair the failed transition and rerun the verifier"),
        ]
    } else if pr.blockers.len() > 0 {
        vec![owned("resolve admitted blockers")]
    } else if pr.draft {
        vec![owned("finish implementation and evidence"), owned("mark ready only after exact-head verification")]
    } else if is_success(pr.ci_status.as_str()) {
        vec![owned("verify merge eligibility at the exact head")]
    } else {
        vec![owned("obtain exact-head verification evidence")]
    };
    assert(strs(r@) =~= pr_closure(*pr));
    r
}

pub open spec fn source_closure(kind: WipKind) -> Seq<Seq<char>> {
    match kind {
        WipKind::Dependency => seq![
            "materialize or pin the dependency"@,
            "execute the dependency-closed verifier"@,
        ],
        WipKind::Replay => seq![
            "replace machine-local pointer with repository-relative or content-addressed evidence"@,
        ],
        WipKind::Evidence => seq![
            "produce exact observed transcript/evidence"@,
            "bind the evidence to the admitted subject"@,
        ],
        WipKind::Receipt => seq!["produce and verify the required receipt"@],
        _ => seq![
            "finish or intentionally classify the incomplete work"@,
            "execute the narrowest verifier covering the changed boundary"@,
        ],
    }
}

pub(crate) fn source_closure_conditions(kind: WipKind) -> (r: Vec<String>)
    ensures
        strs(r@) == source_closure(kind),
{
    let r = match kind {
        WipKind::Dependency => vec![
            owned("materialize or pin the dependency"),
            owned("execute the dependency-closed verifier"),
        ],
        WipKind::Replay => vec![
            owned("replace machine-local pointer with repository-relative or content-addressed evidence"),
        ],
        WipKind::Evidence => vec![
            owned("produce exact observed transcript/evidence"),
            owned("bind the evidence to the admitted subject"),
        ],
        WipKind::Receipt => vec![owned("produce and verify the required receipt")],
        _ => vec![
            owned("finish or intentionally classify the incomplete work"),
            owned("execute the narrowest verifier covering the changed boundary"),
        ],
    };
    assert(strs(r@) =~= source_closure(kind));
    r
}

/// The report's overall standing: the most severe standing present, else
/// `PartialAlive` for any WIP and `Unknown` for none.
pub open spec fn aggregate(wip: Seq<WipView>) -> Standing {
    if exists|i: int| 0 <= i < wip.len() && wip[i].standing == Standing::BuildBroken {
        Standing::BuildBroken
    } else if exists|i: int| 0 <= i < wip.len() && wip[i].standing == Standing::Blocked {
        Standing::Blocked
    } else if exists|i: int| 0 <= i < wip.len() && wip[i].standing == Standing::Refused {
        Standing::Refused
    } else if exists|i: int| 0 <= i < wip.len() && wip[i].standing == Standing::Unsupported {
        Standing::Unsupported
    } else if wip.len() == 0 {
        Standing::Unknown
    } else {
        Standing::PartialAlive
    }
}

/// The overall standing is never `Alive`, and an empty WIP set is `Unknown`:
/// absence of findings never promotes a workspace to `Alive`.
pub proof fn lemma_aggregate_never_alive(wip: Seq<WipView>)
    ensures
        aggregate(wip) != Standing::Alive,
        wip.len() == 0 ==> aggregate(wip) == Standing::Unknown,
{
}

/// Some object of the WIP set has standing `s`.
pub open spec fn has_standing(wip: Seq<WipView>, s: Standing) -> bool {
    exists|i: int| 0 <= i < wip.len() && (#[trigger] wip[i]).standing == s
}

/// The overall standing is the most severe one present, in the order
/// BuildBroken, Blocked, Refused, Unsupported; a non-empty WIP set with none
/// of these is PartialAlive, and the standing is Unknown exactly when the WIP
/// set is empty.
pub proof fn lemma_aggregate_severity(wip: Seq<WipView>)
    ensures
        (aggregate(wip) == Standing::Unknown) <==> wip.len() == 0,
        (aggregate(wip) == Standing::BuildBroken) <==> has_standing(wip, Standing::BuildBroken),
        (aggregate(wip) == Standing::Blocked) <==> (has_standing(wip, Standing::Blocked) && !has_standing(
            wip,
            Standing::BuildBroken,
        )),
        (aggregate(wip) == Standing::Refused) <==> (has_standing(wip, Standing::Refused) && !has_standing(
            wip,
            Standing::BuildBroken,
        ) && !has_standing(wip, Standing::Blocked)),
        (aggregate(wip) == Standing::Unsupported) <==> (has_standing(wip, Standing::Unsupported) && !has_standing(
            wip,
            Standing::BuildBroken,
        ) && !has_standing(wip, Standing::Blocked) && !has_standing(wip, Standing::Refused)),
        (aggregate(wip) == Standing::PartialAlive) <==> (wip.len() > 0 && forall|i: int|
            0 <= i < wip.len() ==> (#[trigger] wip[i]).standing != Standing::BuildBroken && wip[i].standing
                != Standing::Blocked && wip[i].standing != Standing::Refused && wip[i].standing != Standing::Unsupported),
        aggregate(wip) != Standing::Alive,
{
    if wip.len() > 0 {
        assert(wip[0] == wip[0]);
    }
}

pub(crate) fn any_standing(wip: &[WipObject], s: Standing) -> (b: bool)
    ensures
        b == exists|i: int| 0 <= i < wip@.len() && (#[trigger] wip@[i]).standing == s,
{
    let mut i: usize = 0;
    while i < wip.len()
        invariant
            i <= wip@.len(),
            forall|j: int| 0 <= j < i ==> (#[trigger] wip@[j]).standing != s,
        decreases wip@.len() - i,
    {
        if wip[i].standing == s {
            return true;
        }
        i = i + 1;
    }
    false
}

pub proof fn lemma_any_view(wip: Seq<WipObject>, st: Standing)
    ensures
        (exists|i: int| 0 <= i < wip.len() && (#[trigger] wip[i]).standing == st) <==> (exists|i: int|
            0 <= i < wip.len() && (#[trigger] wip_views(wip)[i]).standing == st),
{
    let v = wip_views(wip);
    if exists|i: int| 0 <= i < wip.len() && (#[trigger] wip[i]).standing == st {
        let i = choose|i: int| 0 <= i < wip.len() && (#[trigger] wip[i]).standing == st;
        assert(v[i] == wip[i]@);
    }
    if exists|i: int| 0 <= i < wip.len() && (#[trigger] v[i]).standing == st {
        let i = choose|i: int| 0 <= i < wip.len() && (#[trigger] v[i]).standing == st;
        assert(v[i] == wip[i]@);
    }
}

pub(crate) fn aggregate_status(wip: &[WipObject]) -> (s: Standing)
    ensures
        s == aggregate(wip_views(wip@)),
{
    proof {
        lemma_any_view(wip@, Standing::BuildBroken);
        lemma_any_view(wip@, Standing::Blocked);
        lemma_any_view(wip@, Standing::Refused);
        lemma_any_view(wip@, Standing::Unsupported);
    }
    if any_standing(wip, Standing::BuildBroken) {
        Standing::BuildBroken
    } else if any_standing(wip, Standing::Blocked) {
        Standing::Blocked
    } else if any_standing(wip, Standing::Refused) {
        Standing::Refused
    } else if any_standing(wip, Standing::Unsupported) {
        Standing::Unsupported
    } else if wip.len() == 0 {
        Standing::Unknown
    } else {
        Standing::PartialAlive
    }
}

// ---------------------------------------------------------------------------
// Well-formed snapshots
// ---------------------------------------------------------------------------
pub open spec fn opt_valid(t: Option<Timestamp>) -> bool {
    t matches Some(x) ==> valid_ts(x)
}

/// Every instant a repository snapshot records is a representable instant.
pub open spec fn repo_valid(r: RepositorySnapshot) -> bool {
    &&& forall|i: int| 0 <= i < r.branches@.len() ==> opt_valid(#[trigger] r.branches@[i].last_activity_at)
    &&& forall|i: int|
        0 <= i < r.pull_requests@.len() ==> {
            let pr = #[trigger] r.pull_requests@[i];
            opt_valid(pr.created_at) && opt_valid(pr.updated_at) && opt_valid(pr.closed_at)
                && opt_valid(pr.merged_at)
        }
    &&& forall|i: int|
        0 <= i < r.issues@.len() ==> {
            let it = #[trigger] r.issues@[i];
            opt_valid(it.created_at) && opt_valid(it.updated_at) && opt_valid(it.closed_at)
        }
    &&& forall|i: int|
        0 <= i < r.workflow_runs@.len() ==> {
            let w = #[trigger] r.workflow_runs@[i];
            opt_valid(w.created_at) && opt_valid(w.updated_at)
        }
    &&& forall|i: int|
        0 <= i < r.releases@.len() ==> {
            let rel = #[trigger] r.releases@[i];
            opt_valid(rel.created_at) && opt_valid(rel.published_at)
        }
    &&& forall|i: int| 0 <= i < r.commits@.len() ==> opt_valid(#[trigger] r.commits@[i].committed_at)
}

/// The start of the observation window is representable.
pub open spec fn window_valid(snap: GitHubSnapshot) -> bool {
    snap.observed_at.secs - snap.window_days * 86400 >= crate::wip::model::MIN_UTC_SECS
}

/// A snapshot whose instants and window start are all representable.
pub open spec fn snapshot_valid(snap: GitHubSnapshot) -> bool {
    &&& valid_ts(snap.observed_at)
    &&& window_valid(snap)
    &&& forall|i: int| 0 <= i < snap.repositories@.len() ==> repo_valid(#[trigger] snap.repositories@[i])
}

/// `observed_at - window_days`.
pub open spec fn window_start(snap: GitHubSnapshot) -> Timestamp {
    Timestamp { secs: (snap.observed_at.secs - snap.window_days * 86400) as i64, nanos: snap.observed_at.nanos }
}

pub proof fn lemma_latest_valid(commits: Seq<CommitSnapshot>, b: Seq<char>, n: int)
    requires
        0 <= n <= commits.len(),
        forall|i: int| 0 <= i < commits.len() ==> opt_valid(#[trigger] commits[i].committed_at),
    ensures
        opt_valid(latest_commit_upto(commits, b, n)),
    decreases n,
{
    if n > 0 {
        lemma_latest_valid(commits, b, n - 1);
        assert(opt_valid(commits[n - 1].committed_at));
    }
}

// ---------------------------------------------------------------------------
// Dependency edges and dependents
// ---------------------------------------------------------------------------
pub open spec fn edge_views(e: Seq<(String, String)>) -> Seq<(Seq<char>, Seq<char>)> {
    e.map_values(|p: (String, String)| (p.0@, p.1@))
}

/// `(from, to)` of the blocking edges among the first `m` edges.
pub open spec fn blocking_in(es: Seq<DependencyEdge>, m: int) -> Seq<(Seq<char>, Seq<char>)>
    decreases m,
{
    if m <= 0 {
        Seq::empty()
    } else {
        let prev = blocking_in(es, m - 1);
        if es[m - 1].blocking {
            prev.push((es[m - 1].from@, es[m - 1].to@))
        } else {
            prev
        }
    }
}

/// Blocking edges of the first `n` repositories, in order.
pub open spec fn blocking_upto(repos: Seq<RepositorySnapshot>, n: int) -> Seq<(Seq<char>, Seq<char>)>
    decreases n,
{
    if n <= 0 {
        Seq::empty()
    } else {
        blocking_upto(repos, n - 1) + blocking_in(
            repos[n - 1].dependency_edges@,
            repos[n - 1].dependency_edges@.len() as int,
        )
    }
}

pub open spec fn blocking_edges(snap: GitHubSnapshot) -> Seq<(Seq<char>, Seq<char>)> {
    blocking_upto(snap.repositories@, snap.repositories@.len() as int)
}

/// The blocking dependency edges of every repository, as `(from, to)`.
pub(crate) fn dependency_dependents(snapshot: &GitHubSnapshot) -> (r: Vec<(String, String)>)
    ensures
        edge_views(r@) == blocking_edges(*snapshot),
{
    let mut r: Vec<(String, String)> = Vec::new();
    let mut i: usize = 0;
    while i < snapshot.repositories.len()
        invariant
            i <= snapshot.repositories@.len(),
            edge_views(r@) == blocking_upto(snapshot.repositories@, i as int),
        decreases snapshot.repositories@.len() - i,
    {
        let es = &snapshot.repositories[i].dependency_edges;
        let ghost base = edge_views(r@);
        let mut j: usize = 0;
        assert(base + blocking_in(es@, 0) =~= base);
        while j < es.len()
            invariant
                j <= es@.len(),
                es == snapshot.repositories@[i as int].dependency_edges,
                edge_views(r@) == base + blocking_in(es@, j as int),
            decreases es@.len() - j,
        {
            if es[j].blocking {
                let ghost before = r@;
                r.push((es[j].from.clone(), es[j].to.clone()));
                assert(edge_views(r@) =~= edge_views(before).push((es@[j as int].from@, es@[j as int].to@)));
            }
            j = j + 1;
        }
        i = i + 1;
    }
    r
}

/// `f` is the `from` of an edge whose `to` is the object or its repository.
pub open spec fn is_dependent(edges: Seq<(Seq<char>, Seq<char>)>, id: Seq<char>, repo: Seq<char>, f: Seq<char>) -> bool {
    exists|k: int| 0 <= k < edges.len() && (#[trigger] edges[k]).0 == f && (edges[k].1 == id || edges[k].1 == repo)
}

/// The dependents of an object, each once, in increasing order.
pub open spec fn dependents_of(edges: Seq<(Seq<char>, Seq<char>)>, id: Seq<char>, repo: Seq<char>) -> Seq<Seq<char>> {
    sorted_listing(|f: Seq<char>| is_dependent(edges, id, repo, f), str_order())
}

pub(crate) fn dependents_for(edges: &Vec<(String, String)>, object_id: &str, repository: &str) -> (r: Vec<String>)
    ensures
        sorted_by(strs(r@), str_order()),
        strs(r@) == dependents_of(edge_views(edges@), object_id@, repository@),
{
    let ghost ev = edge_views(edges@);
    let mut out: Vec<String> = Vec::new();
    let mut k: usize = 0;
    assert(strs(out@) =~= Seq::<Seq<char>>::empty());
    while k < edges.len()
        invariant
            k <= edges@.len(),
            ev == edge_views(edges@),
            sorted_by(strs(out@), str_order()),
            forall|f: Seq<char>| #[trigger] strs(out@).contains(f) <==> is_dependent(ev.take(k as int), object_id@, repository@, f),
        decreases edges@.len() - k,
    {
        let ghost before = strs(out@);
        let e = &edges[k];
        assert(ev[k as int] == (e.0@, e.1@));
        if eq_text(e.1.as_str(), object_id) || eq_text(e.1.as_str(), repository) {
            insert_sorted(&mut out, e.0.as_str());
        }
        proof {
            assert forall|f: Seq<char>| #[trigger] strs(out@).contains(f) <==> is_dependent(ev.take(k + 1), object_id@, repository@, f) by {
                let t0 = ev.take(k as int);
                let t1 = ev.take(k + 1);
                if is_dependent(t1, object_id@, repository@, f) {
                    let j = choose|j: int| 0 <= j < t1.len() && (#[trigger] t1[j]).0 == f && (t1[j].1 == object_id@ || t1[j].1 == repository@);
                    if j < k {
                        assert(t0[j] == t1[j]);
                    }
                }
                if is_dependent(t0, object_id@, repository@, f) {
                    let j = choose|j: int| 0 <= j < t0.len() && (#[trigger] t0[j]).0 == f && (t0[j].1 == object_id@ || t0[j].1 == repository@);
                    assert(t1[j] == t0[j]);
                }
                if strs(out@).contains(f) && !before.contains(f) {
                    assert(t1[k as int] == ev[k as int]);
                }
            }
        }
        k = k + 1;
    }
    proof {
        assert(ev.take(k as int) =~= ev);
        lemma_str_order();
        lemma_sorted_listing(strs(out@), |f: Seq<char>| is_dependent(ev, object_id@, repository@, f), str_order());
    }
    out
}

// ---------------------------------------------------------------------------
// String assembly
// ---------------------------------------------------------------------------
pub(crate) fn with_number(prefix: &str, n: u64) -> (r: String)
    ensures
        r@ == prefix@ + decimal(n as nat),
{
    let mut r = owned(prefix);
    push_decimal_u64(&mut r, n);
    r
}

pub(crate) fn with_text(prefix: &str, t: &str) -> (r: String)
    ensures
        r@ == prefix@ + t@,
{
    let mut r = owned(prefix);
    r.append(t);
    r
}

pub(crate) fn clone_strs(v: &Vec<String>) -> (r: Vec<String>)
    ensures
        strs(r@) == strs(v@),
{
    let mut r: Vec<String> = Vec::new();
    let mut i: usize = 0;
    while i < v.len()
        invariant
            i <= v@.len(),
            strs(r@) == strs(v@).take(i as int),
        decreases v@.len() - i,
    {
        let ghost before = r@;
        r.push(v[i].clone());
        assert(strs(r@) =~= strs(before).push(v@[i as int]@));
        i = i + 1;
        assert(strs(r@) =~= strs(v@).take(i as int));
    }
    assert(strs(v@).take(i as int) =~= strs(v@));
    r
}

/// `"github:{repository}{segment}"` followed by the rest of an identity.
pub open spec fn github_id(repo: Seq<char>, segment: Seq<char>, rest: Seq<char>) -> Seq<char> {
    "github:"@ + repo + segment + rest
}

pub(crate) fn make_github_id(repo: &str, segment: &str) -> (r: String)
    ensures
        r@ == "github:"@ + repo@ + segment@,
{
    let mut r = owned("github:");
    r.append(repo);
    r.append(segment);
    r
}

pub open spec fn bool_text(b: bool) -> Seq<char> {
    if b {
        "true"@
    } else {
        "false"@
    }
}

// ---------------------------------------------------------------------------
// De-duplication by identity
// ---------------------------------------------------------------------------
/// Index of the first of the first `n` objects with identity `id`.
pub open spec fn first_with_id(s: Seq<WipView>, id: Seq<char>, n: int) -> Option<int>
    decreases n,
{
    if n <= 0 {
        None
    } else {
        let p = first_with_id(s, id, n - 1);
        if p is Some {
            p
        } else if s[n - 1].id == id {
            Some(n - 1)
        } else {
            None
        }
    }
}

/// The distinct identities, in increasing order.
pub open spec fn distinct_ids(s: Seq<WipView>) -> Seq<Seq<char>> {
    sorted_listing(|id: Seq<char>| exists|i: int| 0 <= i < s.len() && (#[trigger] s[i]).id == id, str_order())
}

/// One object per identity (the first one seen), in increasing identity order.
pub open spec fn dedup_by_id(s: Seq<WipView>) -> Seq<WipView> {
    distinct_ids(s).map_values(|id: Seq<char>| s[first_with_id(s, id, s.len() as int)->0])
}

proof fn lemma_first_with_id(s: Seq<WipView>, id: Seq<char>, n: int, m: int)
    requires
        0 <= n <= m <= s.len(),
    ensures
        first_with_id(s, id, n) is Some ==> first_with_id(s, id, m) == first_with_id(s, id, n),
        first_with_id(s, id, n) matches Some(p) ==> 0 <= p < n && s[p].id == id,
        first_with_id(s, id, n) is None ==> forall|j: int| 0 <= j < n ==> (#[trigger] s[j]).id != id,
    decreases m,
{
    if m > n {
        lemma_first_with_id(s, id, n, m - 1);
    } else if n > 0 {
        lemma_first_with_id(s, id, n - 1, n - 1);
    }
}

pub open spec fn ids_of(v: Seq<WipObject>) -> Seq<Seq<char>> {
    v.map_values(|o: WipObject| o.id@)
}

fn clone_wip(o: &WipObject) -> (r: WipObject)
    ensures
        r@ == o@,
{
    WipObject {
        id: o.id.clone(),
        repository: o.repository.clone(),
        kind: o.kind,
        standing: o.standing,
        title: o.title.clone(),
        origin: o.origin.clone(),
        created_at: o.created_at,
        last_activity_at: o.last_activity_at,
        age_seconds: o.age_seconds,
        blockers: clone_strs(&o.blockers),
        dependents: clone_strs(&o.dependents),
        evidence: clone_strs(&o.evidence),
        closure_conditions: clone_strs(&o.closure_conditions),
    }
}

/// Keeps the first object of each identity, ordered by identity.
fn dedup_wip(wip: &Vec<WipObject>) -> (r: Vec<WipObject>)
    ensures
        wip_views(r@) == dedup_by_id(wip_views(wip@)),
        sorted_by(ids_of(r@), str_order()),
{
    let ghost s = wip_views(wip@);
    let mut out: Vec<WipObject> = Vec::new();
    let mut i: usize = 0;
    proof {
        lemma_str_order();
    }
    assert(ids_of(out@) =~= Seq::<Seq<char>>::empty());
    while i < wip.len()
        invariant
            i <= wip@.len(),
            s == wip_views(wip@),
            strict_total(str_order()),
            sorted_by(ids_of(out@), str_order()),
            forall|id: Seq<char>| #[trigger] ids_of(out@).contains(id) <==> exists|j: int| 0 <= j < i && (#[trigger] s[j]).id == id,
            forall|k: int| 0 <= k < out@.len() ==> first_with_id(s, (#[trigger] out@[k]).id@, i as int) is Some,
            forall|k: int| 0 <= k < out@.len() ==> (#[trigger] out@[k])@ == s[first_with_id(s, out@[k].id@, i as int)->0],
        decreases wip@.len() - i,
    {
        let item = &wip[i];
        assert(s[i as int] == item@);
        let ghost q = ids_of(out@);
        let mut pos: usize = 0;
        while pos < out.len() && str_lt(out[pos].id.as_str(), item.id.as_str())
            invariant
                pos <= out@.len(),
                q == ids_of(out@),
                forall|j: int| 0 <= j < pos ==> lex_lt(#[trigger] q[j], item.id@),
            decreases out@.len() - pos,
        {
            pos = pos + 1;
        }
        let found = pos < out.len() && eq_text(out[pos].id.as_str(), item.id.as_str());
        let ghost old_out = out@;
        if found {
            proof {
                assert(q[pos as int] == item.id@);
                assert(q.contains(item.id@));
                assert forall|k: int| 0 <= k < out@.len() implies first_with_id(s, (#[trigger] out@[k]).id@, i + 1) is Some
                    && out@[k]@ == s[first_with_id(s, out@[k].id@, i + 1)->0] by {
                    lemma_first_with_id(s, out@[k].id@, i as int, i + 1);
                }
                assert forall|id: Seq<char>| #[trigger] ids_of(out@).contains(id) <==> exists|j: int| 0 <= j < i + 1 && (#[trigger] s[j]).id == id by {
                    if exists|j: int| 0 <= j < i + 1 && (#[trigger] s[j]).id == id {
                        let j = choose|j: int| 0 <= j < i + 1 && (#[trigger] s[j]).id == id;
                        if j == i {
                            assert(s[j].id == item.id@);
                        }
                    }
                }
            }
        } else {
            proof {
                assert(!q.contains(item.id@)) by {
                    if q.contains(item.id@) {
                        let k = choose|k: int| 0 <= k < q.len() && q[k] == item.id@;
                        if k < pos {
                            lemma_lex_irrefl(item.id@);
                        } else {
                            assert(pos < q.len());
                            assert(q[pos as int] != item.id@);
                            assert(!lex_lt(q[pos as int], item.id@));
                            assert(str_order()(q[pos as int], q[k]));
                            lemma_lex_total(q[pos as int], item.id@);
                            lemma_lex_trans(item.id@, q[pos as int], q[k]);
                            lemma_lex_irrefl(item.id@);
                        }
                    }
                }
                assert forall|j: int| pos <= j < q.len() implies str_order()(item.id@, #[trigger] q[j]) by {
                    assert(q[pos as int] != item.id@);
                    lemma_lex_total(q[pos as int], item.id@);
                    if j > pos {
                        assert(str_order()(q[pos as int], q[j]));
                        lemma_lex_trans(item.id@, q[pos as int], q[j]);
                    }
                }
                assert forall|j: int| 0 <= j < pos implies str_order()(#[trigger] q[j], item.id@) by {
                }
                lemma_insert_sorted(q, pos as int, item.id@, str_order());
                assert forall|j: int| 0 <= j < i implies (#[trigger] s[j]).id != item.id@ by {
                    if s[j].id == item.id@ {
                        assert(q.contains(item.id@));
                    }
                }
                lemma_first_with_id(s, item.id@, i as int, i as int);
                assert(first_with_id(s, item.id@, i + 1) == Some(i as int));
            }
            let c = clone_wip(item);
            out.insert(pos, c);
            proof {
                assert(ids_of(out@) =~= q.insert(pos as int, item.id@));
                assert forall|k: int| 0 <= k < out@.len() implies first_with_id(s, (#[trigger] out@[k]).id@, i + 1) is Some
                    && out@[k]@ == s[first_with_id(s, out@[k].id@, i + 1)->0] by {
                    if k != pos {
                        let ok = if k < pos { k } else { k - 1 };
                        assert(out@[k] == old_out[ok]);
                        lemma_first_with_id(s, out@[k].id@, i as int, i + 1);
                    }
                }
                assert forall|id: Seq<char>| #[trigger] ids_of(out@).contains(id) <==> exists|j: int| 0 <= j < i + 1 && (#[trigger] s[j]).id == id by {
                    if exists|j: int| 0 <= j < i + 1 && (#[trigger] s[j]).id == id {
                        let j = choose|j: int| 0 <= j < i + 1 && (#[trigger] s[j]).id == id;
                        if j < i {
                            assert(q.contains(id));
                        }
                    }
                    if ids_of(out@).contains(id) && id == item.id@ {
                        assert(s[i as int].id == id);
                    }
                }
            }
        }
        i = i + 1;
    }
    proof {
        let p = |id: Seq<char>| exists|i: int| 0 <= i < s.len() && (#[trigger] s[i]).id == id;
        lemma_sorted_listing(ids_of(out@), p, str_order());
        assert(wip_views(out@) =~= dedup_by_id(s)) by {
            assert forall|k: int| 0 <= k < out@.len() implies #[trigger] wip_views(out@)[k] == dedup_by_id(s)[k] by {
                assert(distinct_ids(s)[k] == out@[k].id@);
            }
        }
    }
    out
}

// ---------------------------------------------------------------------------
// Analysis
// ---------------------------------------------------------------------------
/// Refuses a snapshot whose schema is not the admitted one.
pub fn admit_snapshot_schema(schema_version: &str) -> (r: Result<(), String>)
    ensures
        r is Ok <==> schema_version@ == WIP_SNAPSHOT_SCHEMA@,
        r matches Err(e) ==> e@ == "unsupported snapshot schema "@ + schema_version@ + "; expected "@
            + WIP_SNAPSHOT_SCHEMA@,
{
    if eq_text(schema_version, WIP_SNAPSHOT_SCHEMA) {
        Ok(())
    } else {
        let mut e = owned("unsupported snapshot schema ");
        e.append(schema_version);
        e.append("; expected ");
        e.append(WIP_SNAPSHOT_SCHEMA);
        Err(e)
    }
}

/// Every WIP object of a snapshot and its source findings, before de-duplication:
/// each repository's objects in repository order, then the source groups.
pub open spec fn raw_wip(snap: GitHubSnapshot, findings: Seq<SourceFinding>) -> Seq<WipView> {
    let edges = blocking_edges(snap);
    repos_wip_upto(snap.observed_at, edges, snap.repositories@, snap.repositories@.len() as int) + collapsed(
        source_repository(snap),
        edges,
        findings,
    )
}

/// The admitted WIP: one object per identity, the first seen, in identity order.
pub open spec fn report_wip(snap: GitHubSnapshot, findings: Seq<SourceFinding>) -> Seq<WipView> {
    dedup_by_id(raw_wip(snap, findings))
}

/// Cycle times, in seconds, of the completions that fall inside the window.
pub open spec fn report_cycles(snap: GitHubSnapshot) -> Seq<i64> {
    repos_done_upto(snap.observed_at, window_start(snap), snap.repositories@, snap.repositories@.len() as int)
}

pub open spec fn report_notes() -> Seq<Seq<char>> {
    seq![
        "GitHub activity is admitted only from the supplied snapshot; this module performs no network access."@,
        "Closure frontier entries are CONSTRUCT intents, not DO authority; external bounded actuation and receipts remain required."@,
        "UNKNOWN is never promoted to ALIVE from absence of findings."@,
    ]
}

/// Analyzes an admitted snapshot together with source findings. The closure
/// frontier comes back unranked, in construction order (object by object, each
/// object's intents in action order); its priority scores are floating point,
/// so ranking it is left to the caller.
pub fn analyze(snapshot: &GitHubSnapshot, source_findings: Vec<SourceFinding>) -> (report: WipReport)
    requires
        snapshot_valid(*snapshot),
    ensures
        wip_views(report.wip@) == report_wip(*snapshot, source_findings@),
        sorted_by(ids_of(report.wip@), str_order()),
        report.status == aggregate(wip_views(report.wip@)),
        (report.status == Standing::Unknown) <==> report.wip@.len() == 0,
        intent_views(report.closure_frontier@) == frontier_upto(report.wip@, report.wip@.len() as int),
        report.metrics.wip_l == report.wip@.len(),
        report.metrics.observation_window_days == snapshot.window_days,
        report.metrics.completion_cycle_seconds@ == report_cycles(*snapshot),
        report.metrics.completed_objects_in_window == report_cycles(*snapshot).len(),
        report.schema_version@ == WIP_REPORT_SCHEMA@,
        report.observed_at == snapshot.observed_at,
        report.source_findings@ == source_findings@,
        strs(report.notes@) == report_notes(),
{
    let edges = dependency_dependents(snapshot);
    let mut wip: Vec<WipObject> = Vec::new();
    let mut cycles: Vec<i64> = Vec::new();
    repository_sections(snapshot, &edges, &mut wip, &mut cycles);
    let collapsed_objects = collapse_source_findings(snapshot, &edges, &source_findings);
    let ghost w0 = wip@;
    let mut extra = collapsed_objects;
    wip.append(&mut extra);
    assert(wip_views(wip@) =~= wip_views(w0) + wip_views(collapsed_objects@));
    let wip = dedup_wip(&wip);
    let completed = cycles.len();
    let metrics = LittleLawMetrics {
        wip_l: wip.len(),
        observation_window_days: snapshot.window_days,
        completed_objects_in_window: completed,
        completion_cycle_seconds: cycles,
    };
    let closure_frontier = build_closure_frontier(wip.as_slice());
    let status = aggregate_status(wip.as_slice());
    proof {
        lemma_aggregate_severity(wip_views(wip@));
    }
    let notes = vec![
        owned("GitHub activity is admitted only from the supplied snapshot; this module performs no network access."),
        owned("Closure frontier entries are CONSTRUCT intents, not DO authority; external bounded actuation and receipts remain required."),
        owned("UNKNOWN is never promoted to ALIVE from absence of findings."),
    ];
    assert(strs(notes@) =~= report_notes());
    WipReport {
        schema_version: owned(WIP_REPORT_SCHEMA),
        observed_at: snapshot.observed_at,
        status: status,
        metrics: metrics,
        wip: wip,
        closure_frontier: closure_frontier,
        source_findings: source_findings,
        notes: notes,
    }
}

} // verus!
