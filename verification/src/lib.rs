//! Verified core of a collective-intention library: the discrete rules by
//! which agents' contributions are kept, negotiation outcomes are decided and
//! tallied, and the phase of the group is classified and compared.

pub mod agent_contribution;
pub mod negotiation;
pub mod phase_transition;
pub mod potential;
