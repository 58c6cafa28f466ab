use anti_llm_cheat_lsp::wip::pareto::errc_rationale;
use anti_llm_cheat_lsp::wip::{errc_lane, ErrcLane, WipKind};

#[test]
fn errc_mapping_preserves_create_as_closure_only() {
    assert_eq!(errc_lane(WipKind::DuplicateImplementation), ErrcLane::Eliminate);
    assert_eq!(errc_lane(WipKind::Code), ErrcLane::Reduce);
    assert_eq!(errc_lane(WipKind::Dependency), ErrcLane::Raise);
    assert_eq!(errc_lane(WipKind::Receipt), ErrcLane::Create);
}

#[test]
fn errc_rationale_names_policy_and_object() {
    let r = errc_rationale(ErrcLane::Create, "draft release v2");
    assert!(r.starts_with("create only the missing closure artifact required to retire existing WIP"));
    assert!(r.ends_with("draft release v2"));
}
