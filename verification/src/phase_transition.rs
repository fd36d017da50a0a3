//! Phases of collective intent and the transitions between them.

use vstd::prelude::*;

verus! {

/// Phase of the collective intention.
#[derive(Debug, Clone, Copy, PartialEq, Eq, Structural)]
pub enum CollectivePhase {
    /// No clear direction: agents are scattered.
    Disordered,
    /// Emerging alignment: partial consensus forming.
    Aligning,
    /// Strong consensus: all agents moving together.
    Ordered,
    /// Competing factions: multiple distinct clusters.
    Polarized,
}

/// Record of a phase transition.
#[derive(Debug, Clone, Copy)]
pub struct PhaseTransition {
    pub from: CollectivePhase,
    pub to: CollectivePhase,
}

/// The threshold comparisons on which the phase of a non-empty group of
/// contributions depends, each one already decided by the measuring side.
#[derive(Debug, Clone, Copy)]
pub struct PhaseEvidence {
    /// The fraction of aligned agents reaches the consensus threshold.
    pub consensus: bool,
    /// The fraction of aligned agents exceeds the polarization threshold.
    pub aligned_faction: bool,
    /// The fraction of anti-aligned agents exceeds the polarization threshold.
    pub opposed_faction: bool,
    /// The mean alignment with the field exceeds the alignment threshold.
    pub mean_aligned: bool,
}

/// Classifies the collective phase. A group without contributions is
/// disordered; otherwise consensus wins over polarization, which wins over a
/// merely positive mean alignment.
pub fn classify_phase(has_contributions: bool, evidence: PhaseEvidence) -> (phase: CollectivePhase)
    ensures
        !has_contributions ==> phase == CollectivePhase::Disordered,
        has_contributions && evidence.consensus ==> phase == CollectivePhase::Ordered,
        has_contributions && !evidence.consensus && evidence.opposed_faction
            && evidence.aligned_faction ==> phase == CollectivePhase::Polarized,
        has_contributions && !evidence.consensus && !(evidence.opposed_faction
            && evidence.aligned_faction) && evidence.mean_aligned ==> phase
            == CollectivePhase::Aligning,
        has_contributions && !evidence.consensus && !(evidence.opposed_faction
            && evidence.aligned_faction) && !evidence.mean_aligned ==> phase
            == CollectivePhase::Disordered,
{
    if !has_contributions {
        CollectivePhase::Disordered
    } else if evidence.consensus {
        CollectivePhase::Ordered
    } else if evidence.opposed_faction && evidence.aligned_faction {
        CollectivePhase::Polarized
    } else if evidence.mean_aligned {
        CollectivePhase::Aligning
    } else {
        CollectivePhase::Disordered
    }
}

/// Compares the phases of two snapshots: a transition is recorded exactly
/// when the phase changed.
pub fn transition_between(prev: CollectivePhase, curr: CollectivePhase) -> (r: Option<PhaseTransition>)
    ensures
        r == (if prev == curr { None } else { Some(PhaseTransition { from: prev, to: curr }) }),
{
    if prev != curr {
        Some(PhaseTransition { from: prev, to: curr })
    } else {
        None
    }
}

} // verus!
