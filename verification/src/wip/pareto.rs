//! ERRC lanes (Eliminate, Reduce, Raise, Create) for DfCM prioritisation.
use vstd::prelude::*;

use crate::text::owned;
use crate::wip::model::WipKind;

verus! {

/// How a WIP kind is retired: eliminate latent flow, reduce scope, raise
/// verification quality, or create only a missing closure artifact.
#[derive(Debug, Clone, Copy, PartialEq, Eq, Structural)]
pub enum ErrcLane {
    Eliminate,
    Reduce,
    Raise,
    Create,
}

pub open spec fn spec_errc_lane(kind: WipKind) -> ErrcLane {
    match kind {
        WipKind::OrphanBranch | WipKind::AbandonedExperiment | WipKind::DuplicateImplementation
        | WipKind::GeneratedProjection => ErrcLane::Eliminate,
        WipKind::Code | WipKind::Test | WipKind::Review | WipKind::Merge | WipKind::Documentation
        | WipKind::StalePr | WipKind::UnsatisfiedRequirement | WipKind::SourceMarker => ErrcLane::Reduce,
        WipKind::Ci | WipKind::Dependency | WipKind::CrossRepoBlocker | WipKind::Replay => ErrcLane::Raise,
        WipKind::Integration | WipKind::Evidence | WipKind::Receipt | WipKind::Release => ErrcLane::Create,
    }
}

/// The ERRC lane of a WIP kind.
pub fn errc_lane(kind: WipKind) -> (lane: ErrcLane)
    ensures
        lane == spec_errc_lane(kind),
        (lane == ErrcLane::Raise) <==> (kind == WipKind::Ci || kind == WipKind::Dependency || kind
            == WipKind::CrossRepoBlocker || kind == WipKind::Replay),
        (lane == ErrcLane::Create) <==> (kind == WipKind::Integration || kind == WipKind::Evidence || kind
            == WipKind::Receipt || kind == WipKind::Release),
        (lane == ErrcLane::Eliminate) <==> (kind == WipKind::OrphanBranch || kind == WipKind::AbandonedExperiment
            || kind == WipKind::DuplicateImplementation || kind == WipKind::GeneratedProjection),
{
    match kind {
        WipKind::OrphanBranch | WipKind::AbandonedExperiment | WipKind::DuplicateImplementation
        | WipKind::GeneratedProjection => ErrcLane::Eliminate,
        WipKind::Code | WipKind::Test | WipKind::Review | WipKind::Merge | WipKind::Documentation
        | WipKind::StalePr | WipKind::UnsatisfiedRequirement | WipKind::SourceMarker => ErrcLane::Reduce,
        WipKind::Ci | WipKind::Dependency | WipKind::CrossRepoBlocker | WipKind::Replay => ErrcLane::Raise,
        WipKind::Integration | WipKind::Evidence | WipKind::Receipt | WipKind::Release => ErrcLane::Create,
    }
}

/// The ERRC lanes: failed verification and blocking kinds (CI, dependencies,
/// cross-repository blockers, replay) are raised; latent flow (orphan
/// branches, abandoned experiments, duplicates, generated projections) is
/// eliminated; closure artifacts (integration, evidence, receipts, releases)
/// are created; the rest of the work in progress is reduced.
pub proof fn lemma_errc_lanes(kind: WipKind)
    ensures
        (spec_errc_lane(kind) == ErrcLane::Raise) <==> (kind == WipKind::Ci || kind == WipKind::Dependency || kind
            == WipKind::CrossRepoBlocker || kind == WipKind::Replay),
        (spec_errc_lane(kind) == ErrcLane::Eliminate) <==> (kind == WipKind::OrphanBranch || kind
            == WipKind::AbandonedExperiment || kind == WipKind::DuplicateImplementation || kind
            == WipKind::GeneratedProjection),
        (spec_errc_lane(kind) == ErrcLane::Create) <==> (kind == WipKind::Integration || kind == WipKind::Evidence
            || kind == WipKind::Receipt || kind == WipKind::Release),
        (spec_errc_lane(kind) == ErrcLane::Reduce) <==> (kind == WipKind::Code || kind == WipKind::Test || kind
            == WipKind::Review || kind == WipKind::Merge || kind == WipKind::Documentation || kind == WipKind::StalePr
            || kind == WipKind::UnsatisfiedRequirement || kind == WipKind::SourceMarker),
{
}

pub open spec fn errc_policy(lane: ErrcLane) -> Seq<char> {
    match lane {
        ErrcLane::Eliminate => "eliminate redundant or latent flow instead of spending capacity finishing unnecessary work"@,
        ErrcLane::Reduce => "reduce scope to the smallest verifiable closure unit before accepting more WIP"@,
        ErrcLane::Raise => "raise verification, dependency, or replay quality so blocked flow can close lawfully"@,
        ErrcLane::Create => "create only the missing closure artifact required to retire existing WIP"@,
    }
}

/// `"{policy}; object={title}"` for a lane.
pub fn errc_rationale(lane: ErrcLane, title: &str) -> (r: String)
    ensures
        r@ == errc_policy(lane) + "; object="@ + title@,
{
    let mut r = owned(match lane {
        ErrcLane::Eliminate => "eliminate redundant or latent flow instead of spending capacity finishing unnecessary work",
        ErrcLane::Reduce => "reduce scope to the smallest verifiable closure unit before accepting more WIP",
        ErrcLane::Raise => "raise verification, dependency, or replay quality so blocked flow can close lawfully",
        ErrcLane::Create => "create only the missing closure artifact required to retire existing WIP",
    });
    r.append("; object=");
    r.append(title);
    r
}

} // verus!
