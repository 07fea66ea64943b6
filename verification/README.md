# rln_fold

The relation that a folded Rate-Limiting-Nullifier proof attests, evaluated
natively and verified with Verus, and the Nova prover around it.

- `src/field.rs`: elements of the BN254 scalar field and their arithmetic.
- `src/poseidon.rs`: the Poseidon sponge of `nova_snark`, behind a trusted wrapper.
- `src/membership.rs`: rate commitments and Merkle climbs to the group root.
- `src/share.rs`: per-message share, nullifier and audit accumulator.
- `src/step.rs`: one fold step over the state `[r, e, acc]`.
- `src/burst.rs`: how a burst is scheduled into fold steps, and the initial state.
- `src/laws.rs`: laws across steps: audit, step-size independence, slot reuse.
- `app/main.rs`: the Nova step circuit, the prover, and the measurements.
