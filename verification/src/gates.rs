//! Custom gates: the wire layouts and the constraint arithmetic they check.

pub mod poseidon_mds;
pub mod reducing;
