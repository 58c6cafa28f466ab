//! The WIP objects and completions that one repository snapshot contributes:
//! pull requests, unmerged branches, issues, draft releases and failed workflow runs.
use vstd::prelude::*;

use crate::text::{ascii_lower, decimal, eq_text, owned, push_decimal_u64};
use crate::wip::model::{
    secs_between, strs, ts_le, valid_ts, wip_views, BranchSnapshot, DEFAULT_STALE_DAYS,
    GitHubSnapshot, IssueSnapshot, PullRequestSnapshot, ReleaseSnapshot, RepositorySnapshot,
    Standing, Timestamp, WipKind, WipObject, WipView, WorkflowRunSnapshot,
};
use crate::wip::analyze::{
    age_seconds, age_secs, bool_text, classify_open_pr, clone_strs, dependents_for, dependents_of,
    edge_views, elapsed_secs, github_id, is_failure, is_failure_status, is_open, is_open_state,
    latest_commit, latest_commit_at, lemma_latest_valid, make_github_id, open_pr_class, opt_valid,
    or_else, pr_closure, pr_closure_conditions, repo_valid, snapshot_valid, stale_secs, ts_le_exec,
    window_start, with_number, with_text,
};

verus! {

// ---------------------------------------------------------------------------
// Pull requests
// ---------------------------------------------------------------------------
/// Last activity of a pull request: its update, else the latest commit on its head branch, else its creation.
pub open spec fn pr_activity(repo: RepositorySnapshot, pr: PullRequestSnapshot) -> Option<Timestamp> {
    or_else(pr.updated_at, or_else(latest_commit(repo, pr.head_branch@), pr.created_at))
}

pub open spec fn pr_object(
    observed: Timestamp,
    edges: Seq<(Seq<char>, Seq<char>)>,
    repo: RepositorySnapshot,
    pr: PullRequestSnapshot,
) -> WipView {
    let activity = pr_activity(repo, pr);
    let age = age_secs(observed, activity);
    let class = open_pr_class(pr, age);
    let id = github_id(repo.full_name@, "/pr/"@, decimal(pr.number as nat));
    WipView {
        id: id,
        repository: repo.full_name@,
        kind: class.0,
        standing: class.1,
        title: if pr.title@.len() == 0 {
            "PR #"@ + decimal(pr.number as nat)
        } else {
            "#"@ + decimal(pr.number as nat) + " "@ + pr.title@
        },
        origin: "github.pull_request"@,
        created_at: pr.created_at,
        last_activity_at: activity,
        age_seconds: age as i64,
        blockers: strs(pr.blockers@),
        dependents: dependents_of(edges, id, repo.full_name@),
        evidence: seq!["head_branch="@ + pr.head_branch@, "ci="@ + pr.ci_status@] + pr.linked_issues@.map_values(
            |n: u64| "linked_issue="@ + decimal(n as nat),
        ),
        closure_conditions: pr_closure(pr),
    }
}

pub(crate) fn make_pr_object(
    observed: Timestamp,
    edges: &Vec<(String, String)>,
    repo: &RepositorySnapshot,
    pr: &PullRequestSnapshot,
) -> (o: WipObject)
    requires
        valid_ts(observed),
        opt_valid(pr.created_at),
        opt_valid(pr.updated_at),
        forall|i: int| 0 <= i < repo.commits@.len() ==> opt_valid(#[trigger] repo.commits@[i].committed_at),
    ensures
        o@ == pr_object(observed, edge_views(edges@), *repo, *pr),
{
    let latest = latest_commit_at(repo, pr.head_branch.as_str());
    proof {
        lemma_latest_valid(repo.commits@, pr.head_branch@, repo.commits@.len() as int);
    }
    let activity = match pr.updated_at {
        Some(t) => Some(t),
        None => match latest {
            Some(t) => Some(t),
            None => pr.created_at,
        },
    };
    let age = age_seconds(observed, activity);
    let class = classify_open_pr(pr, age);
    let mut id = make_github_id(repo.full_name.as_str(), "/pr/");
    push_decimal_u64(&mut id, pr.number);
    let mut evidence = vec![
        with_text("head_branch=", pr.head_branch.as_str()),
        with_text("ci=", pr.ci_status.as_str()),
    ];
    let ghost head = strs(evidence@);
    let mut k: usize = 0;
    while k < pr.linked_issues.len()
        invariant
            k <= pr.linked_issues@.len(),
            strs(evidence@) == head + pr.linked_issues@.take(k as int).map_values(
                |n: u64| "linked_issue="@ + decimal(n as nat),
            ),
        decreases pr.linked_issues@.len() - k,
    {
        let ghost before = evidence@;
        evidence.push(with_number("linked_issue=", pr.linked_issues[k]));
        assert(pr.linked_issues@.take(k + 1) =~= pr.linked_issues@.take(k as int).push(pr.linked_issues@[k as int]));
        assert(strs(evidence@) =~= strs(before).push("linked_issue="@ + decimal(pr.linked_issues@[k as int] as nat)));
        k = k + 1;
    }
    assert(pr.linked_issues@.take(k as int) =~= pr.linked_issues@);
    let title = if pr.title.as_str().is_empty() {
        with_number("PR #", pr.number)
    } else {
        let mut t = with_number("#", pr.number);
        t.append(" ");
        t.append(pr.title.as_str());
        t
    };
    let dependents = dependents_for(edges, id.as_str(), repo.full_name.as_str());
    let o = WipObject {
        id: id,
        repository: repo.full_name.clone(),
        kind: class.0,
        standing: class.1,
        title: title,
        origin: owned("github.pull_request"),
        created_at: pr.created_at,
        last_activity_at: activity,
        age_seconds: age,
        blockers: clone_strs(&pr.blockers),
        dependents: dependents,
        evidence: evidence,
        closure_conditions: pr_closure_conditions(pr),
    };
    assert(head =~= seq!["head_branch="@ + pr.head_branch@, "ci="@ + pr.ci_status@]);
    o
}

/// Completion cycle, in seconds, of an item created at `created` and finished at
/// `done`, when `done` falls inside the observation window.
pub open spec fn completion(observed: Timestamp, ws: Timestamp, created: Option<Timestamp>, done: Option<Timestamp>) -> Seq<i64> {
    if created is Some && done is Some && ts_le(ws, done->0) && ts_le(done->0, observed) {
        seq![secs_between(done->0, created->0) as i64]
    } else {
        Seq::empty()
    }
}

pub(crate) fn admit_completion(
    observed: Timestamp,
    ws: Timestamp,
    created: Option<Timestamp>,
    done: Option<Timestamp>,
    cycles: &mut Vec<i64>,
)
    requires
        opt_valid(created),
        opt_valid(done),
    ensures
        final(cycles)@ == old(cycles)@ + completion(observed, ws, created, done),
{
    match (created, done) {
        (Some(c), Some(d)) => {
            if ts_le_exec(ws, d) && ts_le_exec(d, observed) {
                let e = elapsed_secs(d, c);
                cycles.push(e);
                assert(cycles@ =~= old(cycles)@ + completion(observed, ws, created, done));
            } else {
                assert(cycles@ =~= old(cycles)@ + completion(observed, ws, created, done));
            }
        },
        _ => {
            assert(cycles@ =~= old(cycles)@ + completion(observed, ws, created, done));
        },
    }
}

pub open spec fn pr_wip_upto(
    observed: Timestamp,
    edges: Seq<(Seq<char>, Seq<char>)>,
    repo: RepositorySnapshot,
    n: int,
) -> Seq<WipView>
    decreases n,
{
    if n <= 0 {
        Seq::empty()
    } else {
        let pr = repo.pull_requests@[n - 1];
        let prev = pr_wip_upto(observed, edges, repo, n - 1);
        if is_open_state(pr.state@) {
            prev.push(pr_object(observed, edges, repo, pr))
        } else {
            prev
        }
    }
}

pub open spec fn pr_done_upto(observed: Timestamp, ws: Timestamp, repo: RepositorySnapshot, n: int) -> Seq<i64>
    decreases n,
{
    if n <= 0 {
        Seq::empty()
    } else {
        let pr = repo.pull_requests@[n - 1];
        let prev = pr_done_upto(observed, ws, repo, n - 1);
        if is_open_state(pr.state@) {
            prev
        } else {
            prev + completion(observed, ws, pr.created_at, or_else(pr.merged_at, pr.closed_at))
        }
    }
}

pub(crate) fn pr_section(
    observed: Timestamp,
    ws: Timestamp,
    edges: &Vec<(String, String)>,
    repo: &RepositorySnapshot,
    wip: &mut Vec<WipObject>,
    cycles: &mut Vec<i64>,
)
    requires
        valid_ts(observed),
        repo_valid(*repo),
    ensures
        wip_views(final(wip)@) == wip_views(old(wip)@) + pr_wip_upto(
            observed,
            edge_views(edges@),
            *repo,
            repo.pull_requests@.len() as int,
        ),
        final(cycles)@ == old(cycles)@ + pr_done_upto(observed, ws, *repo, repo.pull_requests@.len() as int),
{
    let ghost ev = edge_views(edges@);
    let mut i: usize = 0;
    assert(wip_views(wip@) =~= wip_views(old(wip)@) + pr_wip_upto(observed, ev, *repo, 0));
    assert(cycles@ =~= old(cycles)@ + pr_done_upto(observed, ws, *repo, 0));
    while i < repo.pull_requests.len()
        invariant
            i <= repo.pull_requests@.len(),
            valid_ts(observed),
            repo_valid(*repo),
            ev == edge_views(edges@),
            wip_views(wip@) == wip_views(old(wip)@) + pr_wip_upto(observed, ev, *repo, i as int),
            cycles@ == old(cycles)@ + pr_done_upto(observed, ws, *repo, i as int),
        decreases repo.pull_requests@.len() - i,
    {
        let pr = &repo.pull_requests[i];
        assert(opt_valid(pr.created_at) && opt_valid(pr.updated_at) && opt_valid(pr.closed_at) && opt_valid(pr.merged_at));
        if is_open(pr.state.as_str()) {
            let o = make_pr_object(observed, edges, repo, pr);
            let ghost before = wip@;
            wip.push(o);
            assert(wip_views(wip@) =~= wip_views(before).push(o@));
        } else {
            let done = match pr.merged_at {
                Some(t) => Some(t),
                None => pr.closed_at,
            };
            admit_completion(observed, ws, pr.created_at, done, cycles);
        }
        i = i + 1;
    }
}

// ---------------------------------------------------------------------------
// Pull-request lookups
// ---------------------------------------------------------------------------
pub open spec fn has_pr(repo: RepositorySnapshot, n: u64) -> bool {
    exists|j: int| 0 <= j < repo.pull_requests@.len() && (#[trigger] repo.pull_requests@[j]).number == n
}

pub open spec fn has_open_pr(repo: RepositorySnapshot, n: u64) -> bool {
    exists|j: int|
        0 <= j < repo.pull_requests@.len() && is_open_state((#[trigger] repo.pull_requests@[j]).state@)
            && repo.pull_requests@[j].number == n
}

pub open spec fn has_open_pr_branch(repo: RepositorySnapshot, name: Seq<char>) -> bool {
    exists|j: int|
        0 <= j < repo.pull_requests@.len() && is_open_state((#[trigger] repo.pull_requests@[j]).state@)
            && repo.pull_requests@[j].head_branch@ == name
}

pub(crate) fn pr_listed(repo: &RepositorySnapshot, n: u64, open_only: bool) -> (b: bool)
    ensures
        b == if open_only {
            has_open_pr(*repo, n)
        } else {
            has_pr(*repo, n)
        },
{
    let mut j: usize = 0;
    while j < repo.pull_requests.len()
        invariant
            j <= repo.pull_requests@.len(),
            forall|k: int|
                0 <= k < j ==> !((#[trigger] repo.pull_requests@[k]).number == n && (!open_only
                    || is_open_state(repo.pull_requests@[k].state@))),
        decreases repo.pull_requests@.len() - j,
    {
        let pr = &repo.pull_requests[j];
        if pr.number == n && (!open_only || is_open(pr.state.as_str())) {
            return true;
        }
        j = j + 1;
    }
    false
}

pub(crate) fn open_pr_on_branch(repo: &RepositorySnapshot, name: &str) -> (b: bool)
    ensures
        b == has_open_pr_branch(*repo, name@),
{
    let mut j: usize = 0;
    while j < repo.pull_requests.len()
        invariant
            j <= repo.pull_requests@.len(),
            forall|k: int|
                0 <= k < j ==> !(is_open_state((#[trigger] repo.pull_requests@[k]).state@)
                    && repo.pull_requests@[k].head_branch@ == name@),
        decreases repo.pull_requests@.len() - j,
    {
        let pr = &repo.pull_requests[j];
        if is_open(pr.state.as_str()) && eq_text(pr.head_branch.as_str(), name) {
            return true;
        }
        j = j + 1;
    }
    false
}

// ---------------------------------------------------------------------------
// Branches
// ---------------------------------------------------------------------------
/// A branch is WIP unless it is the default branch, merged, not ahead, or the head of an open PR.
pub open spec fn branch_is_wip(repo: RepositorySnapshot, b: BranchSnapshot) -> bool {
    !(b.name@ == repo.default_branch@ || b.merged_into_default || b.ahead_by == 0 || has_open_pr_branch(
        repo,
        b.name@,
    ))
}

/// GitHub objects that are WIP:
/// - a branch, unless it is the default branch, merged into it, not ahead of
///   it, or the head of an open pull request; it is an orphan branch once its
///   last activity is seven days old, else code work; partially alive;
/// - an open issue (in any ASCII case), unless linked to an open pull request;
///   an unsatisfied requirement, partially alive when linked to a pull
///   request, else of unknown standing;
/// - a workflow run that failed (failure, failed, error, cancelled,
///   timed_out, action_required), unless attached to an open pull request; CI
///   work with a broken build.
pub proof fn lemma_github_objects(
    observed: Timestamp,
    edges: Seq<(Seq<char>, Seq<char>)>,
    repo: RepositorySnapshot,
    b: BranchSnapshot,
    it: IssueSnapshot,
    run: WorkflowRunSnapshot,
)
    ensures
        branch_is_wip(repo, b) <==> (b.name@ != repo.default_branch@ && !b.merged_into_default && b.ahead_by != 0
            && forall|j: int|
            0 <= j < repo.pull_requests@.len() ==> !(ascii_lower((#[trigger] repo.pull_requests@[j]).state@) == "open"@
                && repo.pull_requests@[j].head_branch@ == b.name@)),
        ({
            let o = branch_object(observed, edges, repo, b);
            let age = age_secs(observed, or_else(b.last_activity_at, latest_commit(repo, b.name@)));
            &&& o.kind == (if age >= 7 * 86400 {
                WipKind::OrphanBranch
            } else {
                WipKind::Code
            })
            &&& o.standing == Standing::PartialAlive
        }),
        issue_is_wip(repo, it) <==> (ascii_lower(it.state@) == "open"@ && !(it.linked_pr matches Some(n) && exists|j: int|
            0 <= j < repo.pull_requests@.len() && ascii_lower((#[trigger] repo.pull_requests@[j]).state@) == "open"@
                && repo.pull_requests@[j].number == n)),
        issue_object(observed, edges, repo, it).kind == WipKind::UnsatisfiedRequirement,
        issue_object(observed, edges, repo, it).standing == (if it.linked_pr is Some {
            Standing::PartialAlive
        } else {
            Standing::Unknown
        }),
        ({
            let l = ascii_lower(run.conclusion@);
            run_is_wip(repo, run) <==> ((l == "failure"@ || l == "failed"@ || l == "error"@ || l == "cancelled"@ || l
                == "timed_out"@ || l == "action_required"@) && !(run.pull_request matches Some(n) && exists|j: int|
                0 <= j < repo.pull_requests@.len() && ascii_lower((#[trigger] repo.pull_requests@[j]).state@) == "open"@
                    && repo.pull_requests@[j].number == n))
        }),
        run_object(observed, edges, repo, run).kind == WipKind::Ci,
        run_object(observed, edges, repo, run).standing == Standing::BuildBroken,
{
}

pub open spec fn branch_object(
    observed: Timestamp,
    edges: Seq<(Seq<char>, Seq<char>)>,
    repo: RepositorySnapshot,
    b: BranchSnapshot,
) -> WipView {
    let activity = or_else(b.last_activity_at, latest_commit(repo, b.name@));
    let age = age_secs(observed, activity);
    let id = github_id(repo.full_name@, "/branch/"@, b.name@);
    WipView {
        id: id,
        repository: repo.full_name@,
        kind: if age >= stale_secs() {
            WipKind::OrphanBranch
        } else {
            WipKind::Code
        },
        standing: Standing::PartialAlive,
        title: "unmerged branch "@ + b.name@,
        origin: "github.branch"@,
        created_at: None,
        last_activity_at: activity,
        age_seconds: age as i64,
        blockers: Seq::empty(),
        dependents: dependents_of(edges, id, repo.full_name@),
        evidence: seq!["ahead_by="@ + decimal(b.ahead_by as nat), "head_sha="@ + b.head_sha@],
        closure_conditions: seq![
            "compare branch with default branch"@,
            "either open/finish a PR or classify the branch as superseded"@,
        ],
    }
}

pub(crate) fn make_branch_object(
    observed: Timestamp,
    edges: &Vec<(String, String)>,
    repo: &RepositorySnapshot,
    b: &BranchSnapshot,
) -> (o: WipObject)
    requires
        valid_ts(observed),
        opt_valid(b.last_activity_at),
        forall|i: int| 0 <= i < repo.commits@.len() ==> opt_valid(#[trigger] repo.commits@[i].committed_at),
    ensures
        o@ == branch_object(observed, edge_views(edges@), *repo, *b),
{
    proof {
        lemma_latest_valid(repo.commits@, b.name@, repo.commits@.len() as int);
    }
    let activity = match b.last_activity_at {
        Some(t) => Some(t),
        None => latest_commit_at(repo, b.name.as_str()),
    };
    let age = age_seconds(observed, activity);
    let mut id = make_github_id(repo.full_name.as_str(), "/branch/");
    id.append(b.name.as_str());
    let dependents = dependents_for(edges, id.as_str(), repo.full_name.as_str());
    let evidence = vec![with_number("ahead_by=", b.ahead_by), with_text("head_sha=", b.head_sha.as_str())];
    let closure = vec![
        owned("compare branch with default branch"),
        owned("either open/finish a PR or classify the branch as superseded"),
    ];
    let o = WipObject {
        id: id,
        repository: repo.full_name.clone(),
        kind: if age >= DEFAULT_STALE_DAYS * 86400 {
            WipKind::OrphanBranch
        } else {
            WipKind::Code
        },
        standing: Standing::PartialAlive,
        title: with_text("unmerged branch ", b.name.as_str()),
        origin: owned("github.branch"),
        created_at: None,
        last_activity_at: activity,
        age_seconds: age,
        blockers: Vec::new(),
        dependents: dependents,
        evidence: evidence,
        closure_conditions: closure,
    };
    assert(o@ =~= branch_object(observed, edge_views(edges@), *repo, *b)) by {
        assert(strs(o.evidence@) =~= seq!["ahead_by="@ + decimal(b.ahead_by as nat), "head_sha="@ + b.head_sha@]);
        assert(strs(o.closure_conditions@) =~= branch_object(observed, edge_views(edges@), *repo, *b).closure_conditions);
        assert(strs(o.blockers@) =~= Seq::<Seq<char>>::empty());
    }
    o
}

pub open spec fn branch_wip_upto(
    observed: Timestamp,
    edges: Seq<(Seq<char>, Seq<char>)>,
    repo: RepositorySnapshot,
    n: int,
) -> Seq<WipView>
    decreases n,
{
    if n <= 0 {
        Seq::empty()
    } else {
        let b = repo.branches@[n - 1];
        let prev = branch_wip_upto(observed, edges, repo, n - 1);
        if branch_is_wip(repo, b) {
            prev.push(branch_object(observed, edges, repo, b))
        } else {
            prev
        }
    }
}

pub(crate) fn branch_section(
    observed: Timestamp,
    edges: &Vec<(String, String)>,
    repo: &RepositorySnapshot,
    wip: &mut Vec<WipObject>,
)
    requires
        valid_ts(observed),
        repo_valid(*repo),
    ensures
        wip_views(final(wip)@) == wip_views(old(wip)@) + branch_wip_upto(
            observed,
            edge_views(edges@),
            *repo,
            repo.branches@.len() as int,
        ),
{
    let ghost ev = edge_views(edges@);
    let mut i: usize = 0;
    assert(wip_views(wip@) =~= wip_views(old(wip)@) + branch_wip_upto(observed, ev, *repo, 0));
    while i < repo.branches.len()
        invariant
            i <= repo.branches@.len(),
            valid_ts(observed),
            repo_valid(*repo),
            ev == edge_views(edges@),
            wip_views(wip@) == wip_views(old(wip)@) + branch_wip_upto(observed, ev, *repo, i as int),
        decreases repo.branches@.len() - i,
    {
        let b = &repo.branches[i];
        assert(opt_valid(b.last_activity_at));
        if !(eq_text(b.name.as_str(), repo.default_branch.as_str()) || b.merged_into_default || b.ahead_by == 0
            || open_pr_on_branch(repo, b.name.as_str())) {
            let o = make_branch_object(observed, edges, repo, b);
            let ghost before = wip@;
            wip.push(o);
            assert(wip_views(wip@) =~= wip_views(before).push(o@));
        }
        i = i + 1;
    }
}

// ---------------------------------------------------------------------------
// Issues
// ---------------------------------------------------------------------------
pub open spec fn issue_object(
    observed: Timestamp,
    edges: Seq<(Seq<char>, Seq<char>)>,
    repo: RepositorySnapshot,
    it: IssueSnapshot,
) -> WipView {
    let id = github_id(repo.full_name@, "/issue/"@, decimal(it.number as nat));
    WipView {
        id: id,
        repository: repo.full_name@,
        kind: WipKind::UnsatisfiedRequirement,
        standing: if it.linked_pr is Some {
            Standing::PartialAlive
        } else {
            Standing::Unknown
        },
        title: if it.title@.len() == 0 {
            "Issue #"@ + decimal(it.number as nat)
        } else {
            "#"@ + decimal(it.number as nat) + " "@ + it.title@
        },
        origin: "github.issue"@,
        created_at: it.created_at,
        last_activity_at: it.updated_at,
        age_seconds: age_secs(observed, or_else(it.updated_at, it.created_at)) as i64,
        blockers: Seq::empty(),
        dependents: dependents_of(edges, id, repo.full_name@),
        evidence: match it.linked_pr {
            Some(n) => seq!["linked_pr="@ + decimal(n as nat)],
            None => Seq::empty(),
        },
        closure_conditions: seq![
            "observe implementation/evidence satisfying the requirement"@,
            "close only after satisfaction or explicit not-planned classification"@,
        ],
    }
}

pub(crate) fn make_issue_object(
    observed: Timestamp,
    edges: &Vec<(String, String)>,
    repo: &RepositorySnapshot,
    it: &IssueSnapshot,
) -> (o: WipObject)
    requires
        valid_ts(observed),
        opt_valid(it.created_at),
        opt_valid(it.updated_at),
    ensures
        o@ == issue_object(observed, edge_views(edges@), *repo, *it),
{
    let activity = match it.updated_at {
        Some(t) => Some(t),
        None => it.created_at,
    };
    let age = age_seconds(observed, activity);
    let mut id = make_github_id(repo.full_name.as_str(), "/issue/");
    push_decimal_u64(&mut id, it.number);
    let dependents = dependents_for(edges, id.as_str(), repo.full_name.as_str());
    let title = if it.title.as_str().is_empty() {
        with_number("Issue #", it.number)
    } else {
        let mut t = with_number("#", it.number);
        t.append(" ");
        t.append(it.title.as_str());
        t
    };
    let evidence = match it.linked_pr {
        Some(n) => vec![with_number("linked_pr=", n)],
        None => Vec::new(),
    };
    let closure = vec![
        owned("observe implementation/evidence satisfying the requirement"),
        owned("close only after satisfaction or explicit not-planned classification"),
    ];
    let o = WipObject {
        id: id,
        repository: repo.full_name.clone(),
        kind: WipKind::UnsatisfiedRequirement,
        standing: if it.linked_pr.is_some() {
            Standing::PartialAlive
        } else {
            Standing::Unknown
        },
        title: title,
        origin: owned("github.issue"),
        created_at: it.created_at,
        last_activity_at: it.updated_at,
        age_seconds: age,
        blockers: Vec::new(),
        dependents: dependents,
        evidence: evidence,
        closure_conditions: closure,
    };
    assert(o@ =~= issue_object(observed, edge_views(edges@), *repo, *it)) by {
        assert(strs(o.evidence@) =~= issue_object(observed, edge_views(edges@), *repo, *it).evidence);
        assert(strs(o.closure_conditions@) =~= issue_object(observed, edge_views(edges@), *repo, *it).closure_conditions);
        assert(strs(o.blockers@) =~= Seq::<Seq<char>>::empty());
    }
    o
}

/// An open issue is WIP unless its linked PR is itself open (that PR stands for it).
pub open spec fn issue_is_wip(repo: RepositorySnapshot, it: IssueSnapshot) -> bool {
    is_open_state(it.state@) && !(it.linked_pr matches Some(n) && has_open_pr(repo, n))
}

pub open spec fn issue_wip_upto(
    observed: Timestamp,
    edges: Seq<(Seq<char>, Seq<char>)>,
    repo: RepositorySnapshot,
    n: int,
) -> Seq<WipView>
    decreases n,
{
    if n <= 0 {
        Seq::empty()
    } else {
        let it = repo.issues@[n - 1];
        let prev = issue_wip_upto(observed, edges, repo, n - 1);
        if issue_is_wip(repo, it) {
            prev.push(issue_object(observed, edges, repo, it))
        } else {
            prev
        }
    }
}

/// A closed issue counts as a completion unless its linked PR is listed (the PR counts instead).
pub open spec fn issue_done_upto(observed: Timestamp, ws: Timestamp, repo: RepositorySnapshot, n: int) -> Seq<i64>
    decreases n,
{
    if n <= 0 {
        Seq::empty()
    } else {
        let it = repo.issues@[n - 1];
        let prev = issue_done_upto(observed, ws, repo, n - 1);
        if is_open_state(it.state@) || (it.linked_pr matches Some(k) && has_pr(repo, k)) {
            prev
        } else {
            prev + completion(observed, ws, it.created_at, it.closed_at)
        }
    }
}

pub(crate) fn issue_section(
    observed: Timestamp,
    ws: Timestamp,
    edges: &Vec<(String, String)>,
    repo: &RepositorySnapshot,
    wip: &mut Vec<WipObject>,
    cycles: &mut Vec<i64>,
)
    requires
        valid_ts(observed),
        repo_valid(*repo),
    ensures
        wip_views(final(wip)@) == wip_views(old(wip)@) + issue_wip_upto(
            observed,
            edge_views(edges@),
            *repo,
            repo.issues@.len() as int,
        ),
        final(cycles)@ == old(cycles)@ + issue_done_upto(observed, ws, *repo, repo.issues@.len() as int),
{
    let ghost ev = edge_views(edges@);
    let mut i: usize = 0;
    assert(wip_views(wip@) =~= wip_views(old(wip)@) + issue_wip_upto(observed, ev, *repo, 0));
    assert(cycles@ =~= old(cycles)@ + issue_done_upto(observed, ws, *repo, 0));
    while i < repo.issues.len()
        invariant
            i <= repo.issues@.len(),
            valid_ts(observed),
            repo_valid(*repo),
            ev == edge_views(edges@),
            wip_views(wip@) == wip_views(old(wip)@) + issue_wip_upto(observed, ev, *repo, i as int),
            cycles@ == old(cycles)@ + issue_done_upto(observed, ws, *repo, i as int),
        decreases repo.issues@.len() - i,
    {
        let it = &repo.issues[i];
        assert(opt_valid(it.created_at) && opt_valid(it.updated_at) && opt_valid(it.closed_at));
        if is_open(it.state.as_str()) {
            let skip = match it.linked_pr {
                Some(n) => pr_listed(repo, n, true),
                None => false,
            };
            if !skip {
                let o = make_issue_object(observed, edges, repo, it);
                let ghost before = wip@;
                wip.push(o);
                assert(wip_views(wip@) =~= wip_views(before).push(o@));
            }
        } else {
            let skip = match it.linked_pr {
                Some(n) => pr_listed(repo, n, false),
                None => false,
            };
            if !skip {
                admit_completion(observed, ws, it.created_at, it.closed_at, cycles);
            }
        }
        i = i + 1;
    }
}

// ---------------------------------------------------------------------------
// Releases
// ---------------------------------------------------------------------------
pub open spec fn release_object(
    observed: Timestamp,
    edges: Seq<(Seq<char>, Seq<char>)>,
    repo: RepositorySnapshot,
    rel: ReleaseSnapshot,
) -> WipView {
    let id = github_id(repo.full_name@, "/release/"@, rel.tag_name@);
    WipView {
        id: id,
        repository: repo.full_name@,
        kind: WipKind::Release,
        standing: Standing::PartialAlive,
        title: if rel.name@.len() == 0 {
            "draft release "@ + rel.tag_name@
        } else {
            "draft release "@ + rel.tag_name@ + " ("@ + rel.name@ + ")"@
        },
        origin: "github.release"@,
        created_at: rel.created_at,
        last_activity_at: rel.created_at,
        age_seconds: age_secs(observed, rel.created_at) as i64,
        blockers: Seq::empty(),
        dependents: dependents_of(edges, id, repo.full_name@),
        evidence: seq!["tag="@ + rel.tag_name@, "prerelease="@ + bool_text(rel.prerelease)],
        closure_conditions: seq![
            "verify release requirements against the exact source identity"@,
            "publish only through the bounded release path with a receipt"@,
        ],
    }
}

pub(crate) fn make_release_object(
    observed: Timestamp,
    edges: &Vec<(String, String)>,
    repo: &RepositorySnapshot,
    rel: &ReleaseSnapshot,
) -> (o: WipObject)
    requires
        valid_ts(observed),
        opt_valid(rel.created_at),
    ensures
        o@ == release_object(observed, edge_views(edges@), *repo, *rel),
{
    let age = age_seconds(observed, rel.created_at);
    let mut id = make_github_id(repo.full_name.as_str(), "/release/");
    id.append(rel.tag_name.as_str());
    let dependents = dependents_for(edges, id.as_str(), repo.full_name.as_str());
    let mut title = with_text("draft release ", rel.tag_name.as_str());
    if !rel.name.as_str().is_empty() {
        title.append(" (");
        title.append(rel.name.as_str());
        title.append(")");
    }
    let evidence = vec![
        with_text("tag=", rel.tag_name.as_str()),
        with_text("prerelease=", if rel.prerelease {
            "true"
        } else {
            "false"
        }),
    ];
    let closure = vec![
        owned("verify release requirements against the exact source identity"),
        owned("publish only through the bounded release path with a receipt"),
    ];
    let o = WipObject {
        id: id,
        repository: repo.full_name.clone(),
        kind: WipKind::Release,
        standing: Standing::PartialAlive,
        title: title,
        origin: owned("github.release"),
        created_at: rel.created_at,
        last_activity_at: rel.created_at,
        age_seconds: age,
        blockers: Vec::new(),
        dependents: dependents,
        evidence: evidence,
        closure_conditions: closure,
    };
    assert(o@ =~= release_object(observed, edge_views(edges@), *repo, *rel)) by {
        assert(strs(o.evidence@) =~= release_object(observed, edge_views(edges@), *repo, *rel).evidence);
        assert(strs(o.closure_conditions@) =~= release_object(observed, edge_views(edges@), *repo, *rel).closure_conditions);
        assert(strs(o.blockers@) =~= Seq::<Seq<char>>::empty());
    }
    o
}

pub open spec fn release_wip_upto(
    observed: Timestamp,
    edges: Seq<(Seq<char>, Seq<char>)>,
    repo: RepositorySnapshot,
    n: int,
) -> Seq<WipView>
    decreases n,
{
    if n <= 0 {
        Seq::empty()
    } else {
        let rel = repo.releases@[n - 1];
        let prev = release_wip_upto(observed, edges, repo, n - 1);
        if rel.draft {
            prev.push(release_object(observed, edges, repo, rel))
        } else {
            prev
        }
    }
}

pub open spec fn release_done_upto(observed: Timestamp, ws: Timestamp, repo: RepositorySnapshot, n: int) -> Seq<i64>
    decreases n,
{
    if n <= 0 {
        Seq::empty()
    } else {
        let rel = repo.releases@[n - 1];
        let prev = release_done_upto(observed, ws, repo, n - 1);
        if rel.draft {
            prev
        } else {
            prev + completion(observed, ws, rel.created_at, rel.published_at)
        }
    }
}

pub(crate) fn release_section(
    observed: Timestamp,
    ws: Timestamp,
    edges: &Vec<(String, String)>,
    repo: &RepositorySnapshot,
    wip: &mut Vec<WipObject>,
    cycles: &mut Vec<i64>,
)
    requires
        valid_ts(observed),
        repo_valid(*repo),
    ensures
        wip_views(final(wip)@) == wip_views(old(wip)@) + release_wip_upto(
            observed,
            edge_views(edges@),
            *repo,
            repo.releases@.len() as int,
        ),
        final(cycles)@ == old(cycles)@ + release_done_upto(observed, ws, *repo, repo.releases@.len() as int),
{
    let ghost ev = edge_views(edges@);
    let mut i: usize = 0;
    assert(wip_views(wip@) =~= wip_views(old(wip)@) + release_wip_upto(observed, ev, *repo, 0));
    assert(cycles@ =~= old(cycles)@ + release_done_upto(observed, ws, *repo, 0));
    while i < repo.releases.len()
        invariant
            i <= repo.releases@.len(),
            valid_ts(observed),
            repo_valid(*repo),
            ev == edge_views(edges@),
            wip_views(wip@) == wip_views(old(wip)@) + release_wip_upto(observed, ev, *repo, i as int),
            cycles@ == old(cycles)@ + release_done_upto(observed, ws, *repo, i as int),
        decreases repo.releases@.len() - i,
    {
        let rel = &repo.releases[i];
        assert(opt_valid(rel.created_at) && opt_valid(rel.published_at));
        if rel.draft {
            let o = make_release_object(observed, edges, repo, rel);
            let ghost before = wip@;
            wip.push(o);
            assert(wip_views(wip@) =~= wip_views(before).push(o@));
        } else {
            admit_completion(observed, ws, rel.created_at, rel.published_at, cycles);
        }
        i = i + 1;
    }
}

// ---------------------------------------------------------------------------
// Workflow runs
// ---------------------------------------------------------------------------
pub open spec fn run_object(
    observed: Timestamp,
    edges: Seq<(Seq<char>, Seq<char>)>,
    repo: RepositorySnapshot,
    run: WorkflowRunSnapshot,
) -> WipView {
    let id = github_id(repo.full_name@, "/workflow/"@, decimal(run.id as nat));
    WipView {
        id: id,
        repository: repo.full_name@,
        kind: WipKind::Ci,
        standing: Standing::BuildBroken,
        title: if run.name@.len() == 0 {
            "failed workflow "@ + decimal(run.id as nat)
        } else {
            "failed workflow "@ + decimal(run.id as nat) + " ("@ + run.name@ + ")"@
        },
        origin: "github.workflow_run"@,
        created_at: run.created_at,
        last_activity_at: run.updated_at,
        age_seconds: age_secs(observed, or_else(run.updated_at, run.created_at)) as i64,
        blockers: seq!["workflow conclusion="@ + run.conclusion@],
        dependents: dependents_of(edges, id, repo.full_name@),
        evidence: seq!["head_branch="@ + run.head_branch@, "head_sha="@ + run.head_sha@],
        closure_conditions: seq![
            "locate the failed boundary"@,
            "repair the narrowest cause and rerun the affected verifier"@,
        ],
    }
}

pub(crate) fn make_run_object(
    observed: Timestamp,
    edges: &Vec<(String, String)>,
    repo: &RepositorySnapshot,
    run: &WorkflowRunSnapshot,
) -> (o: WipObject)
    requires
        valid_ts(observed),
        opt_valid(run.created_at),
        opt_valid(run.updated_at),
    ensures
        o@ == run_object(observed, edge_views(edges@), *repo, *run),
{
    let activity = match run.updated_at {
        Some(t) => Some(t),
        None => run.created_at,
    };
    let age = age_seconds(observed, activity);
    let mut id = make_github_id(repo.full_name.as_str(), "/workflow/");
    push_decimal_u64(&mut id, run.id);
    let dependents = dependents_for(edges, id.as_str(), repo.full_name.as_str());
    let mut title = with_number("failed workflow ", run.id);
    if !run.name.as_str().is_empty() {
        title.append(" (");
        title.append(run.name.as_str());
        title.append(")");
    }
    let blockers = vec![with_text("workflow conclusion=", run.conclusion.as_str())];
    let evidence = vec![
        with_text("head_branch=", run.head_branch.as_str()),
        with_text("head_sha=", run.head_sha.as_str()),
    ];
    let closure = vec![
        owned("locate the failed boundary"),
        owned("repair the narrowest cause and rerun the affected verifier"),
    ];
    let o = WipObject {
        id: id,
        repository: repo.full_name.clone(),
        kind: WipKind::Ci,
        standing: Standing::BuildBroken,
        title: title,
        origin: owned("github.workflow_run"),
        created_at: run.created_at,
        last_activity_at: run.updated_at,
        age_seconds: age,
        blockers: blockers,
        dependents: dependents,
        evidence: evidence,
        closure_conditions: closure,
    };
    assert(o@ =~= run_object(observed, edge_views(edges@), *repo, *run)) by {
        assert(strs(o.evidence@) =~= run_object(observed, edge_views(edges@), *repo, *run).evidence);
        assert(strs(o.closure_conditions@) =~= run_object(observed, edge_views(edges@), *repo, *run).closure_conditions);
        assert(strs(o.blockers@) =~= run_object(observed, edge_views(edges@), *repo, *run).blockers);
    }
    o
}

/// A failed run is WIP unless it belongs to an open PR (that PR stands for it).
pub open spec fn run_is_wip(repo: RepositorySnapshot, run: WorkflowRunSnapshot) -> bool {
    is_failure_status(run.conclusion@) && !(run.pull_request matches Some(n) && has_open_pr(repo, n))
}

pub open spec fn run_wip_upto(
    observed: Timestamp,
    edges: Seq<(Seq<char>, Seq<char>)>,
    repo: RepositorySnapshot,
    n: int,
) -> Seq<WipView>
    decreases n,
{
    if n <= 0 {
        Seq::empty()
    } else {
        let run = repo.workflow_runs@[n - 1];
        let prev = run_wip_upto(observed, edges, repo, n - 1);
        if run_is_wip(repo, run) {
            prev.push(run_object(observed, edges, repo, run))
        } else {
            prev
        }
    }
}

pub(crate) fn run_section(
    observed: Timestamp,
    edges: &Vec<(String, String)>,
    repo: &RepositorySnapshot,
    wip: &mut Vec<WipObject>,
)
    requires
        valid_ts(observed),
        repo_valid(*repo),
    ensures
        wip_views(final(wip)@) == wip_views(old(wip)@) + run_wip_upto(
            observed,
            edge_views(edges@),
            *repo,
            repo.workflow_runs@.len() as int,
        ),
{
    let ghost ev = edge_views(edges@);
    let mut i: usize = 0;
    assert(wip_views(wip@) =~= wip_views(old(wip)@) + run_wip_upto(observed, ev, *repo, 0));
    while i < repo.workflow_runs.len()
        invariant
            i <= repo.workflow_runs@.len(),
            valid_ts(observed),
            repo_valid(*repo),
            ev == edge_views(edges@),
            wip_views(wip@) == wip_views(old(wip)@) + run_wip_upto(observed, ev, *repo, i as int),
        decreases repo.workflow_runs@.len() - i,
    {
        let run = &repo.workflow_runs[i];
        assert(opt_valid(run.created_at) && opt_valid(run.updated_at));
        let skip = match run.pull_request {
            Some(n) => pr_listed(repo, n, true),
            None => false,
        };
        if is_failure(run.conclusion.as_str()) && !skip {
            let o = make_run_object(observed, edges, repo, run);
            let ghost before = wip@;
            wip.push(o);
            assert(wip_views(wip@) =~= wip_views(before).push(o@));
        }
        i = i + 1;
    }
}

// ---------------------------------------------------------------------------
// Repositories
// ---------------------------------------------------------------------------
/// The WIP objects one repository contributes: pull requests, branches, issues,
/// draft releases and failed workflow runs, in that order.
pub open spec fn repo_wip(observed: Timestamp, edges: Seq<(Seq<char>, Seq<char>)>, repo: RepositorySnapshot) -> Seq<WipView> {
    pr_wip_upto(observed, edges, repo, repo.pull_requests@.len() as int) + branch_wip_upto(
        observed,
        edges,
        repo,
        repo.branches@.len() as int,
    ) + issue_wip_upto(observed, edges, repo, repo.issues@.len() as int) + release_wip_upto(
        observed,
        edges,
        repo,
        repo.releases@.len() as int,
    ) + run_wip_upto(observed, edges, repo, repo.workflow_runs@.len() as int)
}

/// The completion cycles one repository contributes: pull requests, issues, releases.
pub open spec fn repo_done(observed: Timestamp, ws: Timestamp, repo: RepositorySnapshot) -> Seq<i64> {
    pr_done_upto(observed, ws, repo, repo.pull_requests@.len() as int) + issue_done_upto(
        observed,
        ws,
        repo,
        repo.issues@.len() as int,
    ) + release_done_upto(observed, ws, repo, repo.releases@.len() as int)
}

pub open spec fn repos_wip_upto(
    observed: Timestamp,
    edges: Seq<(Seq<char>, Seq<char>)>,
    repos: Seq<RepositorySnapshot>,
    n: int,
) -> Seq<WipView>
    decreases n,
{
    if n <= 0 {
        Seq::empty()
    } else {
        repos_wip_upto(observed, edges, repos, n - 1) + repo_wip(observed, edges, repos[n - 1])
    }
}

pub open spec fn repos_done_upto(observed: Timestamp, ws: Timestamp, repos: Seq<RepositorySnapshot>, n: int) -> Seq<i64>
    decreases n,
{
    if n <= 0 {
        Seq::empty()
    } else {
        repos_done_upto(observed, ws, repos, n - 1) + repo_done(observed, ws, repos[n - 1])
    }
}

pub(crate) fn repository_sections(
    snapshot: &GitHubSnapshot,
    edges: &Vec<(String, String)>,
    wip: &mut Vec<WipObject>,
    cycles: &mut Vec<i64>,
)
    requires
        snapshot_valid(*snapshot),
        old(wip)@.len() == 0,
        old(cycles)@.len() == 0,
    ensures
        wip_views(final(wip)@) == repos_wip_upto(
            snapshot.observed_at,
            edge_views(edges@),
            snapshot.repositories@,
            snapshot.repositories@.len() as int,
        ),
        final(cycles)@ == repos_done_upto(
            snapshot.observed_at,
            window_start(*snapshot),
            snapshot.repositories@,
            snapshot.repositories@.len() as int,
        ),
{
    let observed = snapshot.observed_at;
    let ws = Timestamp { secs: snapshot.observed_at.secs - (snapshot.window_days as i64) * 86400, nanos: observed.nanos };
    assert(ws == window_start(*snapshot));
    let ghost ev = edge_views(edges@);
    let ghost repos = snapshot.repositories@;
    let mut i: usize = 0;
    assert(wip_views(wip@) =~= repos_wip_upto(observed, ev, repos, 0));
    assert(cycles@ =~= repos_done_upto(observed, ws, repos, 0));
    while i < snapshot.repositories.len()
        invariant
            i <= repos.len(),
            repos == snapshot.repositories@,
            snapshot_valid(*snapshot),
            observed == snapshot.observed_at,
            ev == edge_views(edges@),
            wip_views(wip@) == repos_wip_upto(observed, ev, repos, i as int),
            cycles@ == repos_done_upto(observed, ws, repos, i as int),
        decreases repos.len() - i,
    {
        let repo = &snapshot.repositories[i];
        assert(repo_valid(*repo));
        let ghost w0 = wip_views(wip@);
        let ghost c0 = cycles@;
        pr_section(observed, ws, edges, repo, wip, cycles);
        branch_section(observed, edges, repo, wip);
        issue_section(observed, ws, edges, repo, wip, cycles);
        release_section(observed, ws, edges, repo, wip, cycles);
        run_section(observed, edges, repo, wip);
        assert(wip_views(wip@) =~= w0 + repo_wip(observed, ev, *repo));
        assert(cycles@ =~= c0 + repo_done(observed, ws, *repo));
        i = i + 1;
    }
}


} // verus!
