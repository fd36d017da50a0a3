# intention_field

Agents steer a shared "intention field" (for example a musical direction):
they contribute weighted intention vectors, propose changes that the field
negotiates, and the group passes through phases from disorder to consensus.

- `src/` is the verified library: the roster that keeps one contribution per
  agent, the outcomes of negotiation with the rule that decides a proposal and
  the bookkeeping over a round, the classification of the collective phase and
  of transitions between phases, and the layout of landscape samples.
- `app/` is the numeric layer in floating point (vector arithmetic,
  alignments, attractor forces, potentials, gradient descent), built on the
  library's types and rules.
- `tests/` exercises the library.
