use intention_field::phase_transition::{
    classify_phase, transition_between, CollectivePhase, PhaseEvidence,
};

fn evidence(consensus: bool, aligned: bool, opposed: bool, mean: bool) -> PhaseEvidence {
    PhaseEvidence {
        consensus,
        aligned_faction: aligned,
        opposed_faction: opposed,
        mean_aligned: mean,
    }
}

#[test]
fn no_contributions_is_disordered() {
    let all = evidence(true, true, true, true);
    assert_eq!(classify_phase(false, all), CollectivePhase::Disordered);
}

#[test]
fn consensus_is_ordered_before_anything_else() {
    assert_eq!(classify_phase(true, evidence(true, true, true, true)), CollectivePhase::Ordered);
    assert_eq!(classify_phase(true, evidence(true, false, false, false)), CollectivePhase::Ordered);
}

#[test]
fn two_factions_are_polarized() {
    assert_eq!(classify_phase(true, evidence(false, true, true, true)), CollectivePhase::Polarized);
    assert_eq!(classify_phase(true, evidence(false, true, true, false)), CollectivePhase::Polarized);
}

#[test]
fn one_faction_with_positive_mean_is_aligning() {
    assert_eq!(classify_phase(true, evidence(false, true, false, true)), CollectivePhase::Aligning);
    assert_eq!(classify_phase(true, evidence(false, false, true, true)), CollectivePhase::Aligning);
}

#[test]
fn nothing_decisive_is_disordered() {
    assert_eq!(classify_phase(true, evidence(false, false, false, false)), CollectivePhase::Disordered);
    assert_eq!(classify_phase(true, evidence(false, true, false, false)), CollectivePhase::Disordered);
}

#[test]
fn same_phase_records_no_transition() {
    assert!(transition_between(CollectivePhase::Ordered, CollectivePhase::Ordered).is_none());
    assert!(transition_between(CollectivePhase::Disordered, CollectivePhase::Disordered).is_none());
}

#[test]
fn changed_phase_records_transition() {
    let t = transition_between(CollectivePhase::Disordered, CollectivePhase::Ordered).unwrap();
    assert_eq!(t.from, CollectivePhase::Disordered);
    assert_eq!(t.to, CollectivePhase::Ordered);
    let back = transition_between(CollectivePhase::Ordered, CollectivePhase::Polarized).unwrap();
    assert_eq!(back.from, CollectivePhase::Ordered);
    assert_eq!(back.to, CollectivePhase::Polarized);
}

#[test]
fn test_empty_is_disordered() {
    let nothing = evidence(false, false, false, false);
    assert_eq!(classify_phase(false, nothing), CollectivePhase::Disordered);
}

#[test]
fn test_transition_same_phase_none() {
    let transition = transition_between(CollectivePhase::Ordered, CollectivePhase::Ordered);
    assert!(transition.is_none());
}
