//! Natively evaluated relation of a folded Rate-Limiting-Nullifier burst:
//! membership of the sender, per-message shares and nullifiers, and the
//! audit accumulator that every fold step extends.
pub mod field;
pub mod poseidon;
pub mod membership;
pub mod share;
pub mod step;
pub mod burst;
pub mod laws;
