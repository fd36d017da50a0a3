//! Field negotiation: the outcomes of proposals, the rule that decides them,
//! and the bookkeeping over a round of outcomes.

use vstd::prelude::*;

verus! {

/// Why an agent is proposing a change of direction.
#[derive(Debug, Clone, Copy, PartialEq, Eq, Structural)]
pub enum ProposalReason {
    /// Agent discovered something musically interesting.
    Exploration,
    /// Agent believes the current direction is stale.
    Staleness,
    /// Agent wants to return to a known good state.
    ReturnToCenter,
    /// Agent received external input (e.g., audience cue).
    ExternalCue,
}

/// Outcome of a negotiation round, over a shift vector `V` and a support
/// fraction `S`.
#[derive(Debug, Clone, PartialEq)]
pub enum NegotiationOutcome<V, S> {
    /// Proposal accepted; field shifts toward the proposed direction.
    Accepted { shift: V },
    /// Proposal rejected; field stays the same.
    Rejected,
    /// Compromise reached; field shifts partially.
    Compromise { shift: V, support: S },
    /// Conflict; no consensus, field holds steady.
    Conflict,
}

/// The four kinds of negotiation outcome, without their data.
#[derive(Debug, Clone, Copy, PartialEq, Eq, Structural)]
pub enum OutcomeKind {
    Accepted,
    Rejected,
    Compromise,
    Conflict,
}

/// The kind of an outcome.
pub open spec fn kind_of<V, S>(outcome: NegotiationOutcome<V, S>) -> OutcomeKind {
    match outcome {
        NegotiationOutcome::Accepted { .. } => OutcomeKind::Accepted,
        NegotiationOutcome::Rejected => OutcomeKind::Rejected,
        NegotiationOutcome::Compromise { .. } => OutcomeKind::Compromise,
        NegotiationOutcome::Conflict => OutcomeKind::Conflict,
    }
}

/// How many outcomes of `outcomes` are of kind `kind`.
pub open spec fn count_kind<V, S>(outcomes: Seq<NegotiationOutcome<V, S>>, kind: OutcomeKind) -> nat
    decreases outcomes.len(),
{
    if outcomes.len() == 0 {
        0
    } else {
        count_kind(outcomes.drop_last(), kind) + (if kind_of(outcomes.last()) == kind {
            1nat
        } else {
            0nat
        })
    }
}

/// Whether an outcome is of kind `kind`.
pub open spec fn of_kind<V, S>(kind: OutcomeKind) -> spec_fn(NegotiationOutcome<V, S>) -> bool {
    |o: NegotiationOutcome<V, S>| kind_of(o) == kind
}

/// The count of a kind is the number of outcomes of that kind.
pub proof fn law_count_is_filter_len<V, S>(outcomes: Seq<NegotiationOutcome<V, S>>, kind: OutcomeKind)
    ensures
        count_kind(outcomes, kind) == outcomes.filter(of_kind::<V, S>(kind)).len(),
    decreases outcomes.len(),
{
    reveal(Seq::filter);
    if outcomes.len() > 0 {
        law_count_is_filter_len(outcomes.drop_last(), kind);
    }
}

/// A single outcome counts once, under its own kind only.
pub proof fn law_count_single<V, S>(outcome: NegotiationOutcome<V, S>, kind: OutcomeKind)
    ensures
        count_kind(seq![outcome], kind) == (if kind_of(outcome) == kind {
            1nat
        } else {
            0nat
        }),
{
    reveal_with_fuel(count_kind, 2);
    assert(seq![outcome].drop_last() =~= Seq::<NegotiationOutcome<V, S>>::empty());
    assert(seq![outcome].last() == outcome);
}

/// Counting is additive over concatenation: each outcome is counted by its
/// own kind, whatever its neighbours.
pub proof fn law_count_additive<V, S>(
    a: Seq<NegotiationOutcome<V, S>>,
    b: Seq<NegotiationOutcome<V, S>>,
    kind: OutcomeKind,
)
    ensures
        count_kind(a + b, kind) == count_kind(a, kind) + count_kind(b, kind),
{
    law_count_is_filter_len(a + b, kind);
    law_count_is_filter_len(a, kind);
    law_count_is_filter_len(b, kind);
    Seq::filter_distributes_over_add(a, b, of_kind::<V, S>(kind));
}

/// The shift that an outcome applies to the field, if any: accepted and
/// compromise outcomes move the field, rejection and conflict leave it.
pub open spec fn shift_of<V, S>(outcome: NegotiationOutcome<V, S>) -> Option<V> {
    match outcome {
        NegotiationOutcome::Accepted { shift } => Some(shift),
        NegotiationOutcome::Compromise { shift, .. } => Some(shift),
        _ => None,
    }
}

impl<V, S> NegotiationOutcome<V, S> {
    /// The kind of this outcome.
    pub fn kind(&self) -> (kind: OutcomeKind)
        ensures
            kind == kind_of(*self),
    {
        match self {
            NegotiationOutcome::Accepted { .. } => OutcomeKind::Accepted,
            NegotiationOutcome::Rejected => OutcomeKind::Rejected,
            NegotiationOutcome::Compromise { .. } => OutcomeKind::Compromise,
            NegotiationOutcome::Conflict => OutcomeKind::Conflict,
        }
    }

    /// The shift this outcome applies to the field, if it moves the field at all.
    pub fn shift(&self) -> (shift: Option<&V>)
        ensures
            match shift {
                Some(s) => shift_of(*self) == Some(*s),
                None => shift_of(*self) == None::<V>,
            },
    {
        match self {
            NegotiationOutcome::Accepted { shift } => Some(shift),
            NegotiationOutcome::Compromise { shift, .. } => Some(shift),
            _ => None,
        }
    }
}

/// Counts outcomes by kind: (accepted, rejected, compromise, conflict).
pub fn count_by_type<V, S>(outcomes: &[NegotiationOutcome<V, S>]) -> (counts: (
    usize,
    usize,
    usize,
    usize,
))
    ensures
        counts.0 == count_kind(outcomes@, OutcomeKind::Accepted),
        counts.1 == count_kind(outcomes@, OutcomeKind::Rejected),
        counts.2 == count_kind(outcomes@, OutcomeKind::Compromise),
        counts.3 == count_kind(outcomes@, OutcomeKind::Conflict),
        counts.0 + counts.1 + counts.2 + counts.3 == outcomes@.len(),
        counts.0 == outcomes@.filter(of_kind::<V, S>(OutcomeKind::Accepted)).len(),
        counts.1 == outcomes@.filter(of_kind::<V, S>(OutcomeKind::Rejected)).len(),
        counts.2 == outcomes@.filter(of_kind::<V, S>(OutcomeKind::Compromise)).len(),
        counts.3 == outcomes@.filter(of_kind::<V, S>(OutcomeKind::Conflict)).len(),
{
    let mut accepted: usize = 0;
    let mut rejected: usize = 0;
    let mut compromise: usize = 0;
    let mut conflict: usize = 0;
    let mut i: usize = 0;
    while i < outcomes.len()
        invariant
            i <= outcomes@.len(),
            accepted == count_kind(outcomes@.take(i as int), OutcomeKind::Accepted),
            rejected == count_kind(outcomes@.take(i as int), OutcomeKind::Rejected),
            compromise == count_kind(outcomes@.take(i as int), OutcomeKind::Compromise),
            conflict == count_kind(outcomes@.take(i as int), OutcomeKind::Conflict),
            accepted + rejected + compromise + conflict == i,
        decreases outcomes@.len() - i,
    {
        let kind = outcomes[i].kind();
        proof {
            let next = outcomes@.take(i + 1);
            assert(next.drop_last() =~= outcomes@.take(i as int));
            assert(next.last() == outcomes@[i as int]);
        }
        match kind {
            OutcomeKind::Accepted => accepted = accepted + 1,
            OutcomeKind::Rejected => rejected = rejected + 1,
            OutcomeKind::Compromise => compromise = compromise + 1,
            OutcomeKind::Conflict => conflict = conflict + 1,
        }
        i = i + 1;
    }
    proof {
        assert(outcomes@.take(i as int) =~= outcomes@);
        law_count_is_filter_len(outcomes@, OutcomeKind::Accepted);
        law_count_is_filter_len(outcomes@, OutcomeKind::Rejected);
        law_count_is_filter_len(outcomes@, OutcomeKind::Compromise);
        law_count_is_filter_len(outcomes@, OutcomeKind::Conflict);
    }
    (accepted, rejected, compromise, conflict)
}

/// Whether an outcome is an acceptance.
pub open spec fn is_accepted<V, S>(outcome: NegotiationOutcome<V, S>) -> bool {
    outcome is Accepted
}

/// Finds the first accepted outcome of a round, if any.
pub fn best_accepted<P, V, S>(outcomes: &[(P, NegotiationOutcome<V, S>)]) -> (best: Option<
    &NegotiationOutcome<V, S>,
>)
    ensures
        match best {
            Some(o) => exists|i: int|
                0 <= i < outcomes@.len() && *o == outcomes@[i].1 && is_accepted(outcomes@[i].1)
                    && forall|j: int| 0 <= j < i ==> !is_accepted(#[trigger] outcomes@[j].1),
            None => forall|i: int| 0 <= i < outcomes@.len() ==> !is_accepted(#[trigger] outcomes@[i].1),
        },
{
    let mut i: usize = 0;
    while i < outcomes.len()
        invariant
            i <= outcomes@.len(),
            forall|j: int| 0 <= j < i ==> !is_accepted(#[trigger] outcomes@[j].1),
        decreases outcomes@.len() - i,
    {
        let outcome = &outcomes[i].1;
        if let NegotiationOutcome::Accepted { .. } = outcome {
            return Some(outcome);
        }
        i = i + 1;
    }
    None
}

/// The comparisons on which the fate of a proposal depends, each one already
/// decided by the measuring side.
#[derive(Debug, Clone, Copy)]
pub struct SupportAssessment {
    /// Some agent has contributed to the field.
    pub has_contributions: bool,
    /// The total weight of the contributions is not negligible.
    pub has_weight: bool,
    /// The supporting fraction of the weight reaches the acceptance threshold.
    pub meets_acceptance: bool,
    /// The supporting fraction of the weight reaches the compromise threshold.
    pub meets_compromise: bool,
    /// The opposing weight exceeds the supporting weight.
    pub opposition_outweighs: bool,
}

/// What becomes of a proposal.
#[derive(Debug, Clone, Copy, PartialEq, Eq, Structural)]
pub enum Verdict {
    /// No agent has contributed, or enough support: the proposal is accepted,
    /// with its shift clamped to the round's maximum.
    Accept,
    /// Partial support: the field moves toward a blend of proposal and contributions.
    Compromise,
    /// Too little support and more opposition than support.
    Conflict,
    /// Too little support, or no weight to judge by.
    Reject,
}

/// Decides a proposal. Without contributions it is accepted;
/// without weight it is rejected; otherwise reaching the acceptance threshold
/// accepts it, reaching the compromise threshold compromises, and below both
/// it is a conflict where opposition outweighs support and a rejection else.
pub fn proposal_verdict(assessment: SupportAssessment) -> (verdict: Verdict)
    ensures
        !assessment.has_contributions ==> verdict == Verdict::Accept,
        assessment.has_contributions && !assessment.has_weight ==> verdict == Verdict::Reject,
        assessment.has_contributions && assessment.has_weight && assessment.meets_acceptance
            ==> verdict == Verdict::Accept,
        assessment.has_contributions && assessment.has_weight && !assessment.meets_acceptance
            && assessment.meets_compromise ==> verdict == Verdict::Compromise,
        assessment.has_contributions && assessment.has_weight && !assessment.meets_acceptance
            && !assessment.meets_compromise && assessment.opposition_outweighs ==> verdict
            == Verdict::Conflict,
        assessment.has_contributions && assessment.has_weight && !assessment.meets_acceptance
            && !assessment.meets_compromise && !assessment.opposition_outweighs ==> verdict
            == Verdict::Reject,
{
    if !assessment.has_contributions {
        Verdict::Accept
    } else if !assessment.has_weight {
        Verdict::Reject
    } else if assessment.meets_acceptance {
        Verdict::Accept
    } else if assessment.meets_compromise {
        Verdict::Compromise
    } else if assessment.opposition_outweighs {
        Verdict::Conflict
    } else {
        Verdict::Reject
    }
}

/// Runs a round: evaluates every proposal, and returns the outcomes in the
/// same order as the proposals.
pub fn negotiate_round<P, O, F: Fn(&P) -> O>(proposals: &[P], evaluate: F) -> (outcomes: Vec<O>)
    requires
        forall|i: int| 0 <= i < proposals@.len() ==> call_requires(evaluate, (&proposals@[i],)),
    ensures
        outcomes@.len() == proposals@.len(),
        forall|i: int|
            0 <= i < proposals@.len() ==> call_ensures(
                evaluate,
                (&proposals@[i],),
                #[trigger] outcomes@[i],
            ),
{
    let mut outcomes: Vec<O> = Vec::new();
    let mut i: usize = 0;
    while i < proposals.len()
        invariant
            i <= proposals@.len(),
            outcomes@.len() == i,
            forall|k: int| 0 <= k < proposals@.len() ==> call_requires(evaluate, (&proposals@[k],)),
            forall|k: int|
                0 <= k < i ==> call_ensures(evaluate, (&proposals@[k],), #[trigger] outcomes@[k]),
        decreases proposals@.len() - i,
    {
        let outcome = evaluate(&proposals[i]);
        outcomes.push(outcome);
        i = i + 1;
    }
    outcomes
}

/// Only accepted and compromise outcomes move the field; a rejection or a
/// conflict leaves it where it is.
pub proof fn law_only_agreement_moves_field<V, S>(outcome: NegotiationOutcome<V, S>)
    ensures
        shift_of(outcome) is Some <==> (kind_of(outcome) == OutcomeKind::Accepted || kind_of(
            outcome,
        ) == OutcomeKind::Compromise),
{
}

} // verus!
