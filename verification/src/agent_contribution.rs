//! The roster of agent contributions: at most one contribution per agent,
//! kept in the order in which agents first contributed.

use vstd::prelude::*;

verus! {

/// Whether some entry of `entries` belongs to `agent_id`.
pub open spec fn has_agent<T>(entries: Seq<(usize, T)>, agent_id: usize) -> bool {
    exists|i: int| 0 <= i < entries.len() && #[trigger] entries[i].0 == agent_id
}

/// No agent has two entries.
pub open spec fn unique_agents<T>(entries: Seq<(usize, T)>) -> bool {
    forall|i: int, j: int|
        0 <= i < entries.len() && 0 <= j < entries.len() && i != j ==> #[trigger] entries[i].0
            != #[trigger] entries[j].0
}

/// The position of the first entry of `agent_id` (meaningful where `has_agent` holds).
pub open spec fn first_entry_of<T>(entries: Seq<(usize, T)>, agent_id: usize) -> int {
    choose|i: int|
        0 <= i < entries.len() && #[trigger] entries[i].0 == agent_id && forall|k: int|
            0 <= k < i ==> #[trigger] entries[k].0 != agent_id
}

/// The contribution that the entries record for `agent_id`, if any.
pub open spec fn contribution_of<T>(entries: Seq<(usize, T)>, agent_id: usize) -> Option<T> {
    if has_agent(entries, agent_id) {
        Some(entries[first_entry_of(entries, agent_id)].1)
    } else {
        None
    }
}

/// The entries after `agent_id` contributes `contribution`: its existing entry
/// is replaced in place, or, where it has none, the contribution is appended.
pub open spec fn with_contribution<T>(
    entries: Seq<(usize, T)>,
    agent_id: usize,
    contribution: T,
) -> Seq<(usize, T)> {
    if has_agent(entries, agent_id) {
        entries.update(first_entry_of(entries, agent_id), (agent_id, contribution))
    } else {
        entries.push((agent_id, contribution))
    }
}

/// Whether an entry belongs to some agent other than `agent_id`.
pub open spec fn not_of<T>(agent_id: usize) -> spec_fn((usize, T)) -> bool {
    |e: (usize, T)| e.0 != agent_id
}

/// The entries with every entry of `agent_id` taken out, the rest in order.
pub open spec fn without_agent<T>(entries: Seq<(usize, T)>, agent_id: usize) -> Seq<(usize, T)> {
    entries.filter(not_of::<T>(agent_id))
}

/// Under unique agents, the entry of an agent at a known position is its first one.
pub proof fn lemma_first_entry_is<T>(entries: Seq<(usize, T)>, agent_id: usize, i: int)
    requires
        unique_agents(entries),
        0 <= i < entries.len(),
        entries[i].0 == agent_id,
    ensures
        has_agent(entries, agent_id),
        first_entry_of(entries, agent_id) == i,
{
    assert(forall|k: int| 0 <= k < i ==> #[trigger] entries[k].0 != agent_id);
    let j = first_entry_of(entries, agent_id);
    assert(0 <= j < entries.len() && entries[j].0 == agent_id);
}

/// Filtering keeps agents unique.
proof fn lemma_filter_unique<T>(entries: Seq<(usize, T)>, p: spec_fn((usize, T)) -> bool)
    requires
        unique_agents(entries),
    ensures
        unique_agents(entries.filter(p)),
    decreases entries.len(),
{
    reveal(Seq::filter);
    if entries.len() > 0 {
        let rest = entries.drop_last();
        let last = entries.last();
        assert(unique_agents(rest)) by {
            assert forall|i: int, j: int|
                0 <= i < rest.len() && 0 <= j < rest.len() && i != j implies #[trigger] rest[i].0
                != #[trigger] rest[j].0 by {
                assert(rest[i] == entries[i] && rest[j] == entries[j]);
            }
        }
        lemma_filter_unique(rest, p);
        let sub = rest.filter(p);
        if p(last) {
            let out = sub.push(last);
            assert forall|i: int, j: int|
                0 <= i < out.len() && 0 <= j < out.len() && i != j implies #[trigger] out[i].0
                != #[trigger] out[j].0 by {
                if i == sub.len() || j == sub.len() {
                    let k = if i == sub.len() {
                        j
                    } else {
                        i
                    };
                    assert(sub.contains(sub[k]));
                    rest.lemma_filter_contains_rev(p, sub[k]);
                    let m = choose|m: int| 0 <= m < rest.len() && rest[m] == sub[k];
                    assert(entries[m] == rest[m]);
                    assert(entries[entries.len() - 1] == last);
                }
            }
        }
    }
}

/// Filtering a sequence whose every entry passes leaves it unchanged.
proof fn lemma_filter_keeps_all<T>(entries: Seq<(usize, T)>, p: spec_fn((usize, T)) -> bool)
    requires
        forall|i: int| 0 <= i < entries.len() ==> p(#[trigger] entries[i]),
    ensures
        entries.filter(p) == entries,
    decreases entries.len(),
{
    reveal(Seq::filter);
    if entries.len() > 0 {
        let rest = entries.drop_last();
        assert forall|i: int| 0 <= i < rest.len() implies p(#[trigger] rest[i]) by {
            assert(rest[i] == entries[i]);
        }
        lemma_filter_keeps_all(rest, p);
        assert(entries.last() == entries[entries.len() - 1]);
        assert(rest.push(entries.last()) =~= entries);
    }
}

/// Where the agent already has an entry at `m`, adding replaces exactly that
/// entry; adding keeps agents unique.
proof fn lemma_add_shape<T>(entries: Seq<(usize, T)>, agent_id: usize, contribution: T)
    requires
        unique_agents(entries),
    ensures
        unique_agents(with_contribution(entries, agent_id, contribution)),
        forall|m: int|
            0 <= m < entries.len() && #[trigger] entries[m].0 == agent_id ==> with_contribution(
                entries,
                agent_id,
                contribution,
            ) == entries.update(m, (agent_id, contribution)),
        !has_agent(entries, agent_id) ==> with_contribution(entries, agent_id, contribution)
            == entries.push((agent_id, contribution)),
{
    let out = with_contribution(entries, agent_id, contribution);
    if has_agent(entries, agent_id) {
        let m = choose|m: int| 0 <= m < entries.len() && #[trigger] entries[m].0 == agent_id;
        lemma_first_entry_is(entries, agent_id, m);
        assert forall|a: int, b: int|
            0 <= a < out.len() && 0 <= b < out.len() && a != b implies #[trigger] out[a].0
            != #[trigger] out[b].0 by {
            assert(entries[a].0 == out[a].0);
            assert(entries[b].0 == out[b].0);
        }
        assert forall|k: int|
            0 <= k < entries.len() && #[trigger] entries[k].0 == agent_id implies out
            == entries.update(k, (agent_id, contribution)) by {
            lemma_first_entry_is(entries, agent_id, k);
        }
    } else {
        assert forall|a: int, b: int|
            0 <= a < out.len() && 0 <= b < out.len() && a != b implies #[trigger] out[a].0
            != #[trigger] out[b].0 by {
            if a < entries.len() {
                assert(out[a] == entries[a]);
            }
            if b < entries.len() {
                assert(out[b] == entries[b]);
            }
        }
    }
}

/// After an agent contributes, the roster records exactly that contribution
/// for it, and still holds one entry per agent.
pub proof fn law_add_then_lookup<T>(entries: Seq<(usize, T)>, agent_id: usize, contribution: T)
    requires
        unique_agents(entries),
    ensures
        contribution_of(with_contribution(entries, agent_id, contribution), agent_id) == Some(
            contribution,
        ),
        unique_agents(with_contribution(entries, agent_id, contribution)),
{
    lemma_add_shape(entries, agent_id, contribution);
    let out = with_contribution(entries, agent_id, contribution);
    if has_agent(entries, agent_id) {
        let m = choose|m: int| 0 <= m < entries.len() && #[trigger] entries[m].0 == agent_id;
        lemma_first_entry_is(out, agent_id, m);
    } else {
        lemma_first_entry_is(out, agent_id, entries.len() as int);
    }
}

/// A contribution of one agent leaves what is recorded for every other agent unchanged.
pub proof fn law_add_leaves_others<T>(
    entries: Seq<(usize, T)>,
    agent_id: usize,
    contribution: T,
    other: usize,
)
    requires
        unique_agents(entries),
        other != agent_id,
    ensures
        contribution_of(with_contribution(entries, agent_id, contribution), other)
            == contribution_of(entries, other),
{
    lemma_add_shape(entries, agent_id, contribution);
    let out = with_contribution(entries, agent_id, contribution);
    if has_agent(entries, other) {
        let k = choose|k: int| 0 <= k < entries.len() && #[trigger] entries[k].0 == other;
        lemma_first_entry_is(entries, other, k);
        if has_agent(entries, agent_id) {
            let m = choose|m: int| 0 <= m < entries.len() && #[trigger] entries[m].0 == agent_id;
            assert(out == entries.update(m, (agent_id, contribution)));
            assert(out[k] == entries[k]);
        } else {
            assert(out[k] == entries[k]);
        }
        lemma_first_entry_is(out, other, k);
    } else {
        if has_agent(out, other) {
            let k = choose|k: int| 0 <= k < out.len() && #[trigger] out[k].0 == other;
            if has_agent(entries, agent_id) {
                let m = choose|m: int| 0 <= m < entries.len() && #[trigger] entries[m].0 == agent_id;
                assert(out == entries.update(m, (agent_id, contribution)));
                assert(entries[k].0 == other);
            } else {
                assert(k < entries.len());
                assert(entries[k].0 == other);
            }
        }
    }
}

/// Replacing an agent's contribution keeps the number of entries; a first
/// contribution adds one entry.
pub proof fn law_add_len<T>(entries: Seq<(usize, T)>, agent_id: usize, contribution: T)
    requires
        unique_agents(entries),
    ensures
        with_contribution(entries, agent_id, contribution).len() == entries.len() + (if has_agent(
            entries,
            agent_id,
        ) {
            0int
        } else {
            1int
        }),
{
    lemma_add_shape(entries, agent_id, contribution);
    if has_agent(entries, agent_id) {
        let m = choose|m: int| 0 <= m < entries.len() && #[trigger] entries[m].0 == agent_id;
        assert(with_contribution(entries, agent_id, contribution) == entries.update(
            m,
            (agent_id, contribution),
        ));
    }
}

/// Of two contributions by the same agent, the later one is what stands.
pub proof fn law_later_contribution_wins<T>(
    entries: Seq<(usize, T)>,
    agent_id: usize,
    first: T,
    second: T,
)
    requires
        unique_agents(entries),
    ensures
        with_contribution(with_contribution(entries, agent_id, first), agent_id, second)
            == with_contribution(entries, agent_id, second),
{
    lemma_add_shape(entries, agent_id, first);
    lemma_add_shape(entries, agent_id, second);
    let once = with_contribution(entries, agent_id, first);
    lemma_add_shape(once, agent_id, second);
    if has_agent(entries, agent_id) {
        let m = choose|m: int| 0 <= m < entries.len() && #[trigger] entries[m].0 == agent_id;
        assert(once[m].0 == agent_id);
        assert(with_contribution(once, agent_id, second) =~= entries.update(
            m,
            (agent_id, second),
        ));
    } else {
        let n = entries.len() as int;
        assert(once[n].0 == agent_id);
        assert(with_contribution(once, agent_id, second) =~= entries.push((agent_id, second)));
    }
}

/// Where `agent_id` has entries, removing keeps agents unique and leaves the
/// agents present exactly those of the old entries other than `agent_id`,
/// each with its old contribution.
proof fn lemma_remove_shape<T>(entries: Seq<(usize, T)>, agent_id: usize, other: usize)
    requires
        unique_agents(entries),
    ensures
        unique_agents(without_agent(entries, agent_id)),
        !has_agent(without_agent(entries, agent_id), agent_id),
        other != agent_id ==> contribution_of(without_agent(entries, agent_id), other)
            == contribution_of(entries, other),
{
    let p = not_of::<T>(agent_id);
    let out = entries.filter(p);
    lemma_filter_unique(entries, p);
    if has_agent(out, agent_id) {
        let k = choose|k: int| 0 <= k < out.len() && #[trigger] out[k].0 == agent_id;
        entries.lemma_filter_pred(p, k);
    }
    if other != agent_id {
        if has_agent(entries, other) {
            let k = choose|k: int| 0 <= k < entries.len() && #[trigger] entries[k].0 == other;
            lemma_first_entry_is(entries, other, k);
            entries.lemma_filter_contains(p, k);
            let j = choose|j: int| 0 <= j < out.len() && out[j] == entries[k];
            lemma_first_entry_is(out, other, j);
        }
        if has_agent(out, other) {
            let j = choose|j: int| 0 <= j < out.len() && #[trigger] out[j].0 == other;
            assert(out.contains(out[j]));
            entries.lemma_filter_contains_rev(p, out[j]);
            let k = choose|k: int| 0 <= k < entries.len() && entries[k] == out[j];
            assert(entries[k].0 == other);
        }
    }
}

/// After an agent's contribution is removed, nothing is recorded for it.
pub proof fn law_remove_then_lookup<T>(entries: Seq<(usize, T)>, agent_id: usize)
    requires
        unique_agents(entries),
    ensures
        contribution_of(without_agent(entries, agent_id), agent_id) == None::<T>,
        unique_agents(without_agent(entries, agent_id)),
{
    lemma_remove_shape(entries, agent_id, agent_id);
}

/// Removing one agent's contribution leaves what is recorded for every other agent unchanged.
pub proof fn law_remove_leaves_others<T>(entries: Seq<(usize, T)>, agent_id: usize, other: usize)
    requires
        unique_agents(entries),
        other != agent_id,
    ensures
        contribution_of(without_agent(entries, agent_id), other) == contribution_of(
            entries,
            other,
        ),
{
    lemma_remove_shape(entries, agent_id, other);
}

/// Removing an agent that has no contribution changes nothing.
pub proof fn law_remove_absent_agent<T>(entries: Seq<(usize, T)>, agent_id: usize)
    requires
        !has_agent(entries, agent_id),
    ensures
        without_agent(entries, agent_id) == entries,
{
    let p = not_of::<T>(agent_id);
    assert forall|i: int| 0 <= i < entries.len() implies p(#[trigger] entries[i]) by {
        if !p(entries[i]) {
            assert(entries[i].0 == agent_id);
        }
    }
    lemma_filter_keeps_all(entries, p);
}

/// Removing an agent that has just contributed for the first time gives back
/// the roster as it was before.
pub proof fn law_remove_undoes_first_add<T>(
    entries: Seq<(usize, T)>,
    agent_id: usize,
    contribution: T,
)
    requires
        !has_agent(entries, agent_id),
    ensures
        without_agent(with_contribution(entries, agent_id, contribution), agent_id) == entries,
{
    let p = not_of::<T>(agent_id);
    let pushed = entries.push((agent_id, contribution));
    reveal(Seq::filter);
    assert(pushed.drop_last() =~= entries);
    assert forall|i: int| 0 <= i < entries.len() implies p(#[trigger] entries[i]) by {
        if !p(entries[i]) {
            assert(entries[i].0 == agent_id);
        }
    }
    lemma_filter_keeps_all(entries, p);
}

/// The contributions of a group of agents, each stored with its agent's id.
/// No agent has more than one entry; entries keep the order in which their
/// agents first contributed.
#[derive(Debug)]
pub struct ContributionRoster<T> {
    entries: Vec<(usize, T)>,
}

impl<T> View for ContributionRoster<T> {
    type V = Seq<(usize, T)>;

    closed spec fn view(&self) -> Seq<(usize, T)> {
        self.entries@
    }
}

impl<T> ContributionRoster<T> {
    #[verifier::type_invariant]
    spec fn agents_are_unique(&self) -> bool {
        unique_agents(self.entries@)
    }

    /// An empty roster.
    pub fn new() -> (roster: Self)
        ensures
            roster@ == Seq::<(usize, T)>::empty(),
    {
        ContributionRoster { entries: Vec::new() }
    }

    /// Records `contribution` for `agent_id`: an existing contribution of that
    /// agent is replaced where it stands, otherwise the new one is appended.
    pub fn add(&mut self, agent_id: usize, contribution: T)
        ensures
            final(self)@ == with_contribution(old(self)@, agent_id, contribution),
            unique_agents(final(self)@),
    {
        proof {
            use_type_invariant(&*self);
        }
        let mut entries: Vec<(usize, T)> = Vec::new();
        std::mem::swap(&mut entries, &mut self.entries);
        let ghost before = entries@;
        let mut i: usize = 0;
        let mut found: bool = false;
        while i < entries.len()
            invariant_except_break
                !found,
            invariant
                entries@ == before,
                unique_agents(before),
                i <= entries.len(),
                forall|k: int| 0 <= k < i ==> #[trigger] before[k].0 != agent_id,
            ensures
                i <= entries.len(),
                forall|k: int| 0 <= k < i ==> #[trigger] before[k].0 != agent_id,
                found ==> i < entries.len() && before[i as int].0 == agent_id,
                !found ==> i == entries.len(),
            decreases entries.len() - i,
        {
            if entries[i].0 == agent_id {
                found = true;
                break;
            }
            i = i + 1;
        }
        if found {
            proof {
                lemma_first_entry_is(before, agent_id, i as int);
            }
            entries.set(i, (agent_id, contribution));
            assert forall|a: int, b: int|
                0 <= a < entries@.len() && 0 <= b < entries@.len() && a != b implies
                #[trigger] entries@[a].0 != #[trigger] entries@[b].0 by {
                assert(before[a].0 == entries@[a].0 || a == i);
                assert(before[b].0 == entries@[b].0 || b == i);
            }
        } else {
            entries.push((agent_id, contribution));
            assert forall|a: int, b: int|
                0 <= a < entries@.len() && 0 <= b < entries@.len() && a != b implies
                #[trigger] entries@[a].0 != #[trigger] entries@[b].0 by {
                if a < before.len() && b < before.len() {
                    assert(entries@[a] == before[a] && entries@[b] == before[b]);
                } else if a < before.len() {
                    assert(entries@[a] == before[a]);
                } else {
                    assert(entries@[b] == before[b]);
                }
            }
        }
        self.entries = entries;
    }

    /// Removes every contribution of `agent_id`; the others keep their order.
    pub fn remove(&mut self, agent_id: usize)
        ensures
            final(self)@ == without_agent(old(self)@, agent_id),
            unique_agents(final(self)@),
    {
        proof {
            use_type_invariant(&*self);
        }
        let mut entries: Vec<(usize, T)> = Vec::new();
        std::mem::swap(&mut entries, &mut self.entries);
        let ghost before = entries@;
        let ghost p = not_of::<T>(agent_id);
        let mut i: usize = 0;
        let ghost mut j: int = 0;
        while i < entries.len()
            invariant
                0 <= j <= before.len(),
                i == before.take(j).filter(p).len(),
                entries@ == before.take(j).filter(p) + before.skip(j),
                p == not_of::<T>(agent_id),
            decreases entries.len() - i,
        {
            proof {
                reveal(Seq::filter);
                assert(before.take(j + 1).drop_last() =~= before.take(j));
                assert(before.take(j + 1).last() == before[j]);
                assert(entries@[i as int] == before[j]);
                assert(before.skip(j).drop_first() =~= before.skip(j + 1));
            }
            if entries[i].0 == agent_id {
                entries.remove(i);
                proof {
                    assert(entries@ =~= before.take(j + 1).filter(p) + before.skip(j + 1));
                    j = j + 1;
                }
            } else {
                proof {
                    assert(entries@ =~= before.take(j + 1).filter(p) + before.skip(j + 1));
                    j = j + 1;
                }
                i = i + 1;
            }
        }
        proof {
            assert(j == before.len());
            assert(before.take(j) =~= before);
            assert(entries@ =~= before.filter(p));
            lemma_filter_unique(before, p);
        }
        self.entries = entries;
    }

    /// Number of contributing agents.
    pub fn len(&self) -> (n: usize)
        ensures
            n == self@.len(),
    {
        self.entries.len()
    }

    /// Whether no agent has contributed.
    pub fn is_empty(&self) -> (empty: bool)
        ensures
            empty <==> self@.len() == 0,
    {
        self.entries.len() == 0
    }

    /// The entries, each an agent's id with its contribution, in roster order.
    pub fn entries(&self) -> (entries: &Vec<(usize, T)>)
        ensures
            entries@ == self@,
    {
        &self.entries
    }
}

impl<T: Clone> Clone for ContributionRoster<T> {
    /// A copy with the same agents in the same order, each contribution cloned.
    fn clone(&self) -> (copy: Self)
        ensures
            copy@.len() == self@.len(),
            forall|i: int|
                0 <= i < self@.len() ==> #[trigger] copy@[i].0 == self@[i].0 && cloned(
                    self@[i].1,
                    copy@[i].1,
                ),
    {
        proof {
            use_type_invariant(self);
        }
        let mut entries: Vec<(usize, T)> = Vec::new();
        let mut i: usize = 0;
        while i < self.entries.len()
            invariant
                i <= self.entries@.len(),
                entries@.len() == i,
                unique_agents(self.entries@),
                forall|k: int|
                    0 <= k < i ==> #[trigger] entries@[k].0 == self.entries@[k].0 && cloned(
                        self.entries@[k].1,
                        entries@[k].1,
                    ),
            decreases self.entries@.len() - i,
        {
            let id = self.entries[i].0;
            let c = self.entries[i].1.clone();
            entries.push((id, c));
            i = i + 1;
        }
        assert forall|a: int, b: int|
            0 <= a < entries@.len() && 0 <= b < entries@.len() && a != b implies
            #[trigger] entries@[a].0 != #[trigger] entries@[b].0 by {
            assert(entries@[a].0 == self.entries@[a].0);
            assert(entries@[b].0 == self.entries@[b].0);
        }
        ContributionRoster { entries }
    }
}

} // verus!
