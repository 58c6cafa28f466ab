//! Closure-frontier construction: the candidate actions for each WIP object,
//! their reasons and estimated costs. Every intent is `INTENT_ONLY` and needs a receipt.
use vstd::prelude::*;

use crate::matching::{to_lowercase, unicode_lowercase};
use crate::text::owned;
use crate::wip::model::{ClosureActionKind, ClosureIntent, WipKind, WipObject};

verus! {

/// The variant name of an action, as `{:?}` prints it.
pub open spec fn action_name(a: ClosureActionKind) -> Seq<char> {
    match a {
        ClosureActionKind::RepairCi => "RepairCi"@,
        ClosureActionKind::FinishImplementation => "FinishImplementation"@,
        ClosureActionKind::ResolveBlocker => "ResolveBlocker"@,
        ClosureActionKind::MaterializeDependency => "MaterializeDependency"@,
        ClosureActionKind::AddEvidence => "AddEvidence"@,
        ClosureActionKind::AddReceipt => "AddReceipt"@,
        ClosureActionKind::ReplaceReplayPointer => "ReplaceReplayPointer"@,
        ClosureActionKind::RequestReview => "RequestReview"@,
        ClosureActionKind::Merge => "Merge"@,
        ClosureActionKind::Release => "Release"@,
        ClosureActionKind::OpenPullRequest => "OpenPullRequest"@,
        ClosureActionKind::CompareAndSupersede => "CompareAndSupersede"@,
        ClosureActionKind::CloseSatisfiedIssue => "CloseSatisfiedIssue"@,
        ClosureActionKind::ReclassifyUnsupported => "ReclassifyUnsupported"@,
    }
}

pub fn action_name_exec(a: ClosureActionKind) -> (r: &'static str)
    ensures
        r@ == action_name(a),
{
    match a {
        ClosureActionKind::RepairCi => "RepairCi",
        ClosureActionKind::FinishImplementation => "FinishImplementation",
        ClosureActionKind::ResolveBlocker => "ResolveBlocker",
        ClosureActionKind::MaterializeDependency => "MaterializeDependency",
        ClosureActionKind::AddEvidence => "AddEvidence",
        ClosureActionKind::AddReceipt => "AddReceipt",
        ClosureActionKind::ReplaceReplayPointer => "ReplaceReplayPointer",
        ClosureActionKind::RequestReview => "RequestReview",
        ClosureActionKind::Merge => "Merge",
        ClosureActionKind::Release => "Release",
        ClosureActionKind::OpenPullRequest => "OpenPullRequest",
        ClosureActionKind::CompareAndSupersede => "CompareAndSupersede",
        ClosureActionKind::CloseSatisfiedIssue => "CloseSatisfiedIssue",
        ClosureActionKind::ReclassifyUnsupported => "ReclassifyUnsupported",
    }
}

/// The candidate closure actions for a WIP kind, in proposal order.
pub open spec fn spec_candidate_actions(kind: WipKind) -> Seq<ClosureActionKind> {
    match kind {
        WipKind::Ci => seq![ClosureActionKind::RepairCi],
        WipKind::Dependency | WipKind::CrossRepoBlocker => seq![
            ClosureActionKind::ResolveBlocker,
            ClosureActionKind::MaterializeDependency,
        ],
        WipKind::Evidence => seq![ClosureActionKind::AddEvidence],
        WipKind::Receipt => seq![ClosureActionKind::AddReceipt],
        WipKind::Replay => seq![ClosureActionKind::ReplaceReplayPointer],
        WipKind::Review => seq![ClosureActionKind::FinishImplementation, ClosureActionKind::RequestReview],
        WipKind::Merge => seq![ClosureActionKind::Merge],
        WipKind::Release => seq![ClosureActionKind::Release],
        WipKind::OrphanBranch | WipKind::AbandonedExperiment => seq![
            ClosureActionKind::CompareAndSupersede,
            ClosureActionKind::OpenPullRequest,
        ],
        WipKind::StalePr => seq![ClosureActionKind::FinishImplementation, ClosureActionKind::CompareAndSupersede],
        WipKind::UnsatisfiedRequirement => seq![
            ClosureActionKind::FinishImplementation,
            ClosureActionKind::CloseSatisfiedIssue,
        ],
        _ => seq![ClosureActionKind::FinishImplementation],
    }
}

/// Closure actions by kind: every kind has at least one; CI work is repaired;
/// dependencies and cross-repository blockers are resolved or materialized;
/// evidence, receipts and replay pointers are supplied or replaced; review
/// work is finished and reviewed; merges and releases are performed; orphan
/// branches and abandoned experiments are compared and superseded or opened
/// as pull requests; stale pull requests are finished or superseded; unmet
/// requirements are finished and their issues closed; anything else is finished.
pub proof fn lemma_closure_actions(kind: WipKind)
    ensures
        spec_candidate_actions(kind).len() >= 1,
        spec_candidate_actions(kind).contains(ClosureActionKind::RepairCi) <==> kind == WipKind::Ci,
        spec_candidate_actions(kind).contains(ClosureActionKind::ResolveBlocker) <==> (kind == WipKind::Dependency || kind
            == WipKind::CrossRepoBlocker),
        spec_candidate_actions(kind).contains(ClosureActionKind::MaterializeDependency) <==> (kind == WipKind::Dependency
            || kind == WipKind::CrossRepoBlocker),
        spec_candidate_actions(kind).contains(ClosureActionKind::AddEvidence) <==> kind == WipKind::Evidence,
        spec_candidate_actions(kind).contains(ClosureActionKind::AddReceipt) <==> kind == WipKind::Receipt,
        spec_candidate_actions(kind).contains(ClosureActionKind::ReplaceReplayPointer) <==> kind == WipKind::Replay,
        spec_candidate_actions(kind).contains(ClosureActionKind::RequestReview) <==> kind == WipKind::Review,
        spec_candidate_actions(kind).contains(ClosureActionKind::Merge) <==> kind == WipKind::Merge,
        spec_candidate_actions(kind).contains(ClosureActionKind::Release) <==> kind == WipKind::Release,
        spec_candidate_actions(kind).contains(ClosureActionKind::OpenPullRequest) <==> (kind == WipKind::OrphanBranch
            || kind == WipKind::AbandonedExperiment),
        spec_candidate_actions(kind).contains(ClosureActionKind::CompareAndSupersede) <==> (kind == WipKind::OrphanBranch
            || kind == WipKind::AbandonedExperiment || kind == WipKind::StalePr),
        spec_candidate_actions(kind).contains(ClosureActionKind::CloseSatisfiedIssue) <==> kind
            == WipKind::UnsatisfiedRequirement,
        spec_candidate_actions(kind).contains(ClosureActionKind::FinishImplementation) <==> !(kind == WipKind::Ci || kind
            == WipKind::Dependency || kind == WipKind::CrossRepoBlocker || kind == WipKind::Evidence || kind
            == WipKind::Receipt || kind == WipKind::Replay || kind == WipKind::Merge || kind == WipKind::Release || kind
            == WipKind::OrphanBranch || kind == WipKind::AbandonedExperiment),
{
    let acts = spec_candidate_actions(kind);
    assert(acts.len() >= 1);
    assert(acts.contains(acts[0]));
    if acts.len() > 1 {
        assert(acts.contains(acts[1]));
    }
}

fn candidate_actions(kind: WipKind) -> (r: Vec<ClosureActionKind>)
    ensures
        r@ == spec_candidate_actions(kind),
{
    let r = match kind {
        WipKind::Ci => vec![ClosureActionKind::RepairCi],
        WipKind::Dependency | WipKind::CrossRepoBlocker => vec![
            ClosureActionKind::ResolveBlocker,
            ClosureActionKind::MaterializeDependency,
        ],
        WipKind::Evidence => vec![ClosureActionKind::AddEvidence],
        WipKind::Receipt => vec![ClosureActionKind::AddReceipt],
        WipKind::Replay => vec![ClosureActionKind::ReplaceReplayPointer],
        WipKind::Review => vec![ClosureActionKind::FinishImplementation, ClosureActionKind::RequestReview],
        WipKind::Merge => vec![ClosureActionKind::Merge],
        WipKind::Release => vec![ClosureActionKind::Release],
        WipKind::OrphanBranch | WipKind::AbandonedExperiment => vec![
            ClosureActionKind::CompareAndSupersede,
            ClosureActionKind::OpenPullRequest,
        ],
        WipKind::StalePr => vec![ClosureActionKind::FinishImplementation, ClosureActionKind::CompareAndSupersede],
        WipKind::UnsatisfiedRequirement => vec![
            ClosureActionKind::FinishImplementation,
            ClosureActionKind::CloseSatisfiedIssue,
        ],
        _ => vec![ClosureActionKind::FinishImplementation],
    };
    assert(r@ =~= spec_candidate_actions(kind));
    r
}

pub open spec fn closure_base(a: ClosureActionKind) -> Seq<char> {
    match a {
        ClosureActionKind::RepairCi => "repair failed exact-head verification"@,
        ClosureActionKind::FinishImplementation => "finish admitted incomplete work"@,
        ClosureActionKind::ResolveBlocker => "resolve blocker before creating additional WIP"@,
        ClosureActionKind::MaterializeDependency => "restore dependency closure"@,
        ClosureActionKind::AddEvidence => "close evidence coverage gap"@,
        ClosureActionKind::AddReceipt => "bind completion to a receipt"@,
        ClosureActionKind::ReplaceReplayPointer => "make evidence replayable outside one machine"@,
        ClosureActionKind::RequestReview => "move completed draft work to review"@,
        ClosureActionKind::Merge => "remove verified merge-ready WIP"@,
        ClosureActionKind::Release => "convert integrated work into a release"@,
        ClosureActionKind::OpenPullRequest => "put unmerged branch work on a review/merge path"@,
        ClosureActionKind::CompareAndSupersede => "classify stale branch work instead of leaving latent WIP"@,
        ClosureActionKind::CloseSatisfiedIssue => "close a requirement only after observed satisfaction"@,
        ClosureActionKind::ReclassifyUnsupported => "classify unsupported work without claiming completion"@,
    }
}

/// `"{reason}; object={title}"`.
fn closure_reason(title: &str, a: ClosureActionKind) -> (r: String)
    ensures
        r@ == closure_base(a) + "; object="@ + title@,
{
    let mut r = owned(match a {
        ClosureActionKind::RepairCi => "repair failed exact-head verification",
        ClosureActionKind::FinishImplementation => "finish admitted incomplete work",
        ClosureActionKind::ResolveBlocker => "resolve blocker before creating additional WIP",
        ClosureActionKind::MaterializeDependency => "restore dependency closure",
        ClosureActionKind::AddEvidence => "close evidence coverage gap",
        ClosureActionKind::AddReceipt => "bind completion to a receipt",
        ClosureActionKind::ReplaceReplayPointer => "make evidence replayable outside one machine",
        ClosureActionKind::RequestReview => "move completed draft work to review",
        ClosureActionKind::Merge => "remove verified merge-ready WIP",
        ClosureActionKind::Release => "convert integrated work into a release",
        ClosureActionKind::OpenPullRequest => "put unmerged branch work on a review/merge path",
        ClosureActionKind::CompareAndSupersede => "classify stale branch work instead of leaving latent WIP",
        ClosureActionKind::CloseSatisfiedIssue => "close a requirement only after observed satisfaction",
        ClosureActionKind::ReclassifyUnsupported => "classify unsupported work without claiming completion",
    });
    r.append("; object=");
    r.append(title);
    r
}

/// Estimated cost of an action on a kind, in quarter units (3 = 0.75, 14 = 3.5).
pub open spec fn spec_cost_quarters(kind: WipKind, a: ClosureActionKind) -> u32 {
    match a {
        ClosureActionKind::Merge | ClosureActionKind::CloseSatisfiedIssue => 3,
        ClosureActionKind::RequestReview | ClosureActionKind::ReplaceReplayPointer => 4,
        ClosureActionKind::AddEvidence | ClosureActionKind::AddReceipt => 6,
        ClosureActionKind::RepairCi => 8,
        ClosureActionKind::CompareAndSupersede | ClosureActionKind::OpenPullRequest => 8,
        ClosureActionKind::ResolveBlocker | ClosureActionKind::MaterializeDependency => 10,
        ClosureActionKind::Release => 8,
        ClosureActionKind::FinishImplementation => match kind {
            WipKind::Documentation | WipKind::SourceMarker => 6,
            WipKind::Test => 8,
            WipKind::Code | WipKind::Integration | WipKind::UnsatisfiedRequirement => 14,
            _ => 12,
        },
        ClosureActionKind::ReclassifyUnsupported => 3,
    }
}

pub fn estimated_cost_quarters(kind: WipKind, a: ClosureActionKind) -> (q: u32)
    ensures
        q == spec_cost_quarters(kind, a),
{
    match a {
        ClosureActionKind::Merge | ClosureActionKind::CloseSatisfiedIssue => 3,
        ClosureActionKind::RequestReview | ClosureActionKind::ReplaceReplayPointer => 4,
        ClosureActionKind::AddEvidence | ClosureActionKind::AddReceipt => 6,
        ClosureActionKind::RepairCi => 8,
        ClosureActionKind::CompareAndSupersede | ClosureActionKind::OpenPullRequest => 8,
        ClosureActionKind::ResolveBlocker | ClosureActionKind::MaterializeDependency => 10,
        ClosureActionKind::Release => 8,
        ClosureActionKind::FinishImplementation => match kind {
            WipKind::Documentation | WipKind::SourceMarker => 6,
            WipKind::Test => 8,
            WipKind::Code | WipKind::Integration | WipKind::UnsatisfiedRequirement => 14,
            _ => 12,
        },
        ClosureActionKind::ReclassifyUnsupported => 3,
    }
}

/// The mathematical content of a [`ClosureIntent`].
pub struct IntentView {
    pub id: Seq<char>,
    pub wip_id: Seq<char>,
    pub repository: Seq<char>,
    pub action: ClosureActionKind,
    pub reason: Seq<char>,
    pub blocked_dependents: usize,
    pub age_seconds: i64,
    pub estimated_cost_quarters: u32,
    pub authority: Seq<char>,
    pub receipt_required: bool,
}

impl View for ClosureIntent {
    type V = IntentView;

    open spec fn view(&self) -> IntentView {
        IntentView {
            id: self.id@,
            wip_id: self.wip_id@,
            repository: self.repository@,
            action: self.action,
            reason: self.reason@,
            blocked_dependents: self.blocked_dependents,
            age_seconds: self.age_seconds,
            estimated_cost_quarters: self.estimated_cost_quarters,
            authority: self.authority@,
            receipt_required: self.receipt_required,
        }
    }
}

pub open spec fn intent_views(v: Seq<ClosureIntent>) -> Seq<IntentView> {
    v.map_values(|c: ClosureIntent| c@)
}

/// The intent proposing action `a` for `item`.
pub open spec fn intent_for(item: WipObject, a: ClosureActionKind) -> IntentView {
    IntentView {
        id: unicode_lowercase("closure:"@ + item.id@ + ":"@ + action_name(a)),
        wip_id: item.id@,
        repository: item.repository@,
        action: a,
        reason: closure_base(a) + "; object="@ + item.title@,
        blocked_dependents: item.dependents@.len() as usize,
        age_seconds: item.age_seconds,
        estimated_cost_quarters: spec_cost_quarters(item.kind, a),
        authority: "INTENT_ONLY"@,
        receipt_required: true,
    }
}

pub open spec fn intents_for(item: WipObject, acts: Seq<ClosureActionKind>, k: int) -> Seq<IntentView>
    decreases k,
{
    if k <= 0 {
        Seq::empty()
    } else {
        intents_for(item, acts, k - 1).push(intent_for(item, acts[k - 1]))
    }
}

pub open spec fn frontier_upto(wip: Seq<WipObject>, n: int) -> Seq<IntentView>
    decreases n,
{
    if n <= 0 {
        Seq::empty()
    } else {
        let acts = spec_candidate_actions(wip[n - 1].kind);
        frontier_upto(wip, n - 1) + intents_for(wip[n - 1], acts, acts.len() as int)
    }
}

/// One intent per candidate action of each WIP object, in object order then action order.
pub fn build_closure_frontier(wip: &[WipObject]) -> (intents: Vec<ClosureIntent>)
    ensures
        intent_views(intents@) == frontier_upto(wip@, wip@.len() as int),
{
    let mut intents: Vec<ClosureIntent> = Vec::new();
    let mut i: usize = 0;
    assert(intent_views(intents@) =~= frontier_upto(wip@, 0));
    while i < wip.len()
        invariant
            i <= wip@.len(),
            intent_views(intents@) == frontier_upto(wip@, i as int),
        decreases wip@.len() - i,
    {
        let item = &wip[i];
        let acts = candidate_actions(item.kind);
        let ghost base = intent_views(intents@);
        let mut k: usize = 0;
        assert(base =~= base + intents_for(*item, acts@, 0));
        while k < acts.len()
            invariant
                k <= acts@.len(),
                item == wip@[i as int],
                acts@ == spec_candidate_actions(item.kind),
                intent_views(intents@) == base + intents_for(*item, acts@, k as int),
            decreases acts@.len() - k,
        {
            let a = acts[k];
            let mut raw = owned("closure:");
            raw.append(item.id.as_str());
            raw.append(":");
            raw.append(action_name_exec(a));
            let intent = ClosureIntent {
                id: to_lowercase(raw.as_str()),
                wip_id: item.id.clone(),
                repository: item.repository.clone(),
                action: a,
                reason: closure_reason(item.title.as_str(), a),
                blocked_dependents: item.dependents.len(),
                age_seconds: item.age_seconds,
                estimated_cost_quarters: estimated_cost_quarters(item.kind, a),
                authority: owned("INTENT_ONLY"),
                receipt_required: true,
            };
            assert(intent@ == intent_for(*item, a));
            let ghost before = intents@;
            intents.push(intent);
            assert(intent_views(intents@) =~= intent_views(before).push(intent@));
            k = k + 1;
            assert(intent_views(intents@) =~= base + intents_for(*item, acts@, k as int));
        }
        i = i + 1;
    }
    intents
}

/// Every closure intent is `INTENT_ONLY`, requires a receipt, and proposes
/// closing one of the WIP objects it was built from.
pub proof fn lemma_frontier_intent_only(wip: Seq<WipObject>, n: int)
    requires
        0 <= n <= wip.len(),
    ensures
        forall|k: int|
            0 <= k < frontier_upto(wip, n).len() ==> {
                let c = #[trigger] frontier_upto(wip, n)[k];
                &&& c.authority == "INTENT_ONLY"@
                &&& c.receipt_required
                &&& exists|j: int| 0 <= j < n && c.wip_id == wip[j].id@
            },
    decreases n,
{
    if n > 0 {
        lemma_frontier_intent_only(wip, n - 1);
        let acts = spec_candidate_actions(wip[n - 1].kind);
        let prev = frontier_upto(wip, n - 1);
        lemma_intents_for(wip[n - 1], acts, acts.len() as int);
        let cur = intents_for(wip[n - 1], acts, acts.len() as int);
        assert forall|k: int| 0 <= k < frontier_upto(wip, n).len() implies {
            let c = #[trigger] frontier_upto(wip, n)[k];
            &&& c.authority == "INTENT_ONLY"@
            &&& c.receipt_required
            &&& exists|j: int| 0 <= j < n && c.wip_id == wip[j].id@
        } by {
            if k < prev.len() {
                assert(frontier_upto(wip, n)[k] == prev[k]);
                let j = choose|j: int| 0 <= j < n - 1 && prev[k].wip_id == wip[j].id@;
                assert(0 <= j < n && frontier_upto(wip, n)[k].wip_id == wip[j].id@);
            } else {
                assert(frontier_upto(wip, n)[k] == cur[k - prev.len()]);
                assert(frontier_upto(wip, n)[k].wip_id == wip[n - 1].id@);
            }
        }
    }
}

proof fn lemma_intents_for(item: WipObject, acts: Seq<ClosureActionKind>, k: int)
    requires
        0 <= k <= acts.len(),
    ensures
        intents_for(item, acts, k).len() == k,
        forall|m: int|
            0 <= m < k ==> #[trigger] intents_for(item, acts, k)[m] == intent_for(item, acts[m]),
    decreases k,
{
    if k > 0 {
        lemma_intents_for(item, acts, k - 1);
    }
}

/// Every WIP object gets at least one closure intent.
pub proof fn lemma_frontier_covers_wip(wip: Seq<WipObject>, n: int)
    requires
        0 <= n <= wip.len(),
    ensures
        forall|j: int|
            0 <= j < n ==> exists|k: int|
                0 <= k < frontier_upto(wip, n).len() && (#[trigger] frontier_upto(wip, n)[k]).wip_id == (
                #[trigger] wip[j]).id@,
    decreases n,
{
    if n > 0 {
        lemma_frontier_covers_wip(wip, n - 1);
        let prev = frontier_upto(wip, n - 1);
        let acts = spec_candidate_actions(wip[n - 1].kind);
        lemma_intents_for(wip[n - 1], acts, acts.len() as int);
        let cur = frontier_upto(wip, n);
        assert forall|j: int| 0 <= j < n implies exists|k: int|
            0 <= k < cur.len() && (#[trigger] cur[k]).wip_id == (#[trigger] wip[j]).id@ by {
            if j < n - 1 {
                let k = choose|k: int| 0 <= k < prev.len() && (#[trigger] prev[k]).wip_id == (#[trigger] wip[j]).id@;
                assert(cur[k] == prev[k]);
            } else {
                assert(acts.len() >= 1);
                assert(cur[prev.len() as int] == intent_for(wip[n - 1], acts[0]));
            }
        }
    }
}

} // verus!
