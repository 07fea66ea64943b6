use ff::Field;
use nova_snark::provider::bn256_grumpkin::bn256::Scalar as Fr;
use rln_fold::burst::{burst_steps, initial_state};
use rln_fold::field::Scalar;
use rln_fold::membership::{climb_path, group_root, leftmost_member_root, rate_commitment_of, DEPTH};
use rln_fold::poseidon::{hash1, hash2, hash3, hash4, PoseidonHasher};
use rln_fold::share::{absorb_message, nullifier_of, reveal_message, share_of, slot_slope_of};
use rln_fold::step::RlnStep;

fn s(n: u64) -> Scalar {
    Scalar::from_u64(n)
}

fn fr(x: &Scalar) -> Fr {
    Fr::from_bytes(&x.to_bytes()).unwrap()
}

fn member() -> (Scalar, Scalar) {
    (s(987654321), s(100))
}

fn burst_root(h: &PoseidonHasher) -> Scalar {
    let (a0, qs) = member();
    leftmost_member_root(h, &a0, &qs)
}

fn fold(h: &PoseidonHasher, steps: &[RlnStep], z0: &[Scalar]) -> Vec<Scalar> {
    let mut z = z0.to_vec();
    for st in steps {
        let out = st.evaluate(h, &z);
        assert!(out.root_matches);
        z = out.z_out;
    }
    z
}

#[test]
fn from_u64_encodes_little_endian() {
    let mut expected = [0u8; 32];
    expected[0] = 0x08;
    expected[1] = 0x07;
    expected[7] = 0x01;
    assert_eq!(s(0x0100_0000_0000_0708).to_bytes(), expected);
    assert_eq!(Scalar::zero().to_bytes(), [0u8; 32]);
    assert_eq!(fr(&s(987654321)), Fr::from(987654321u64));
    assert_eq!(fr(&s(u64::MAX)), Fr::from(u64::MAX));
}

#[test]
fn equals_compares_values() {
    assert!(s(42).equals(&s(42)));
    assert!(!s(42).equals(&s(43)));
    assert!(!s(1 << 40).equals(&s(1)));
    assert!(Scalar::zero().equals(&s(0)));
}

#[test]
fn share_is_the_line_through_the_secret() {
    // y = a0 + a1 * x
    assert_eq!(share_of(&s(5), &s(3), &s(7)), s(26));
    assert_eq!(share_of(&s(5), &s(0), &s(7)), s(5));
    // the field reduces large products
    let big = s(u64::MAX);
    let y = share_of(&s(1), &big, &big);
    assert_eq!(fr(&y), Fr::ONE + Fr::from(u64::MAX) * Fr::from(u64::MAX));
}

#[test]
fn hashes_are_deterministic_and_order_sensitive() {
    let h = PoseidonHasher::new();
    let (a, b) = (s(1), s(2));
    assert_eq!(hash2(&h, &a, &b), hash2(&h, &a, &b));
    assert_ne!(hash2(&h, &a, &b), hash2(&h, &b, &a));
    assert_ne!(hash1(&h, &a), a);
    assert_ne!(hash1(&h, &a), hash1(&h, &b));
    assert_ne!(hash3(&h, &a, &b, &s(3)), hash3(&h, &a, &b, &s(4)));
    assert_ne!(hash4(&h, &a, &b, &s(3), &s(4)), hash4(&h, &a, &b, &s(4), &s(3)));
}

#[test]
fn membership_climbs_from_the_rate_commitment() {
    let h = PoseidonHasher::new();
    let (a0, qs) = member();
    let leaf = rate_commitment_of(&h, &a0, &qs);
    assert_eq!(leaf, hash2(&h, &hash1(&h, &a0), &qs));
    // no siblings: the leaf is the root
    assert_eq!(climb_path(&h, &leaf, &[], &[], 0), leaf);
    // one level, the running node on the left
    let sib = s(9);
    assert_eq!(climb_path(&h, &leaf, &[sib, s(10)], &[false, true], 1), hash2(&h, &leaf, &sib));
    // a right child has its sibling on the left
    assert_eq!(climb_path(&h, &leaf, &[sib], &[true], 1), hash2(&h, &sib, &leaf));
    assert_eq!(group_root(&h, &a0, &qs, &[sib], &[false]), hash2(&h, &leaf, &sib));
    // the leftmost leaf of an otherwise zero tree climbs DEPTH zeros
    let zeros = vec![Scalar::zero(); DEPTH];
    let mut r = leaf;
    for _ in 0..DEPTH {
        r = hash2(&h, &r, &Scalar::zero());
    }
    assert_eq!(group_root(&h, &a0, &qs, &zeros, &[false; DEPTH]), r);
    assert_eq!(leftmost_member_root(&h, &a0, &qs), r);
}

#[test]
fn revealed_message_is_share_and_nullifier() {
    let h = PoseidonHasher::new();
    let (a0, _) = member();
    let (e, j, x) = (s(424242), s(3), s(1002));
    let m = reveal_message(&h, &a0, &e, &j, &x);
    let a1 = slot_slope_of(&h, &a0, &e, &j);
    assert_eq!(a1, hash3(&h, &a0, &e, &j));
    assert_eq!(m.nf, nullifier_of(&h, &a1));
    assert_eq!(m.nf, hash1(&h, &a1));
    assert_eq!(m.x, x);
    assert_eq!(fr(&m.y), fr(&a0) + fr(&a1) * fr(&x));
    let acc = s(77);
    assert_eq!(absorb_message(&h, &acc, &m), hash4(&h, &acc, &m.nf, &m.x, &m.y));
}

#[test]
fn reused_slot_repeats_nullifier_and_reveals_secret() {
    let h = PoseidonHasher::new();
    let (a0, _) = member();
    let (e, j) = (s(424242), s(5));
    let m1 = reveal_message(&h, &a0, &e, &j, &s(1000));
    let m2 = reveal_message(&h, &a0, &e, &j, &s(2000));
    assert_eq!(m1.nf, m2.nf);
    let (x1, y1, x2, y2) = (fr(&m1.x), fr(&m1.y), fr(&m2.x), fr(&m2.y));
    let a1 = (y2 - y1) * (x2 - x1).invert().unwrap();
    assert_eq!(y1 - a1 * x1, fr(&a0));
    // another slot gives another nullifier
    let m3 = reveal_message(&h, &a0, &e, &s(6), &s(1000));
    assert_ne!(m1.nf, m3.nf);
}

#[test]
fn burst_steps_schedule_whole_steps() {
    let (a0, qs) = member();
    let steps = burst_steps(&a0, &qs, 10, 4);
    assert_eq!(steps.len(), 2);
    for (si, st) in steps.iter().enumerate() {
        assert_eq!(st.a0, a0);
        assert_eq!(st.qs, qs);
        assert_eq!(st.j.len(), 4);
        assert_eq!(st.x.len(), 4);
        assert_eq!(st.path_elements, vec![Scalar::zero(); DEPTH]);
        assert_eq!(st.path_index, vec![false; DEPTH]);
        for jj in 0..4 {
            let i = (si * 4 + jj) as u64;
            assert_eq!(st.j[jj], s(i + 1));
            assert_eq!(st.x[jj], s(1000 + i));
        }
    }
    assert_eq!(burst_steps(&a0, &qs, 3, 4).len(), 0);
    assert_eq!(burst_steps(&a0, &qs, 8, 1).len(), 8);
}

#[test]
fn initial_state_is_root_epoch_zero() {
    let z0 = initial_state(&s(11), &s(22));
    assert_eq!(z0, vec![s(11), s(22), Scalar::zero()]);
}

#[test]
fn step_arity_is_three() {
    let (a0, qs) = member();
    let steps = burst_steps(&a0, &qs, 4, 4);
    assert_eq!(steps[0].arity(), 3);
}

#[test]
fn step_keeps_root_and_epoch_and_absorbs_its_messages() {
    let h = PoseidonHasher::new();
    let (a0, qs) = member();
    let r = burst_root(&h);
    let e = s(424242);
    let steps = burst_steps(&a0, &qs, 4, 4);
    let out = steps[0].evaluate(&h, &initial_state(&r, &e));
    assert!(out.root_matches);
    let z = out.z_out;
    assert_eq!(z.len(), 3);
    assert_eq!(z[0], r);
    assert_eq!(z[1], e);
    let mut acc = Scalar::zero();
    for i in 0..4u64 {
        let m = reveal_message(&h, &a0, &e, &s(i + 1), &s(1000 + i));
        acc = absorb_message(&h, &acc, &m);
    }
    assert_eq!(z[2], acc);
}

#[test]
fn step_pairs_slots_and_hashes_up_to_the_shorter_list() {
    let h = PoseidonHasher::new();
    let (a0, qs) = member();
    let r = burst_root(&h);
    let e = s(7);
    let st = RlnStep {
        a0,
        qs,
        j: vec![s(1), s(2), s(3)],
        x: vec![s(50), s(60)],
        path_elements: vec![Scalar::zero(); DEPTH + 2],
        path_index: vec![false; DEPTH + 1],
    };
    let out = st.evaluate(&h, &[r, e, s(5), s(99)]);
    assert!(out.root_matches);
    let z = out.z_out;
    let m1 = reveal_message(&h, &a0, &e, &s(1), &s(50));
    let m2 = reveal_message(&h, &a0, &e, &s(2), &s(60));
    let acc = absorb_message(&h, &absorb_message(&h, &s(5), &m1), &m2);
    assert_eq!(z, vec![r, e, acc]);
}

#[test]
fn step_flags_a_wrong_root_and_still_advances_the_state() {
    let h = PoseidonHasher::new();
    let (a0, qs) = member();
    let e = s(424242);
    let steps = burst_steps(&a0, &qs, 4, 4);
    let good = steps[0].evaluate(&h, &initial_state(&burst_root(&h), &e));
    let bad = steps[0].evaluate(&h, &initial_state(&s(123), &e));
    assert!(good.root_matches);
    assert!(!bad.root_matches);
    // the state moves on either way: same epoch and accumulator, root carried
    assert_eq!(bad.z_out, vec![s(123), e, good.z_out[2]]);
    // a member with another quota climbs to another root
    let other = burst_steps(&a0, &s(101), 4, 4);
    assert!(!other[0].evaluate(&h, &initial_state(&burst_root(&h), &s(1))).root_matches);
}

#[test]
fn folding_audits_to_the_revealed_triples() {
    let h = PoseidonHasher::new();
    let (a0, qs) = member();
    let e = s(424242);
    let z = fold(&h, &burst_steps(&a0, &qs, 8, 4), &initial_state(&burst_root(&h), &e));
    let mut acc = Scalar::zero();
    for i in 0..8u64 {
        acc = absorb_message(&h, &acc, &reveal_message(&h, &a0, &e, &s(i + 1), &s(1000 + i)));
    }
    assert_eq!(z[2], acc);
}

#[test]
fn step_size_does_not_change_the_folded_state() {
    let h = PoseidonHasher::new();
    let (a0, qs) = member();
    let z0 = initial_state(&burst_root(&h), &s(424242));
    let by_one = fold(&h, &burst_steps(&a0, &qs, 8, 1), &z0);
    let by_four = fold(&h, &burst_steps(&a0, &qs, 8, 4), &z0);
    let by_eight = fold(&h, &burst_steps(&a0, &qs, 8, 8), &z0);
    assert_eq!(by_one, by_four);
    assert_eq!(by_four, by_eight);
    assert_ne!(by_one[2], Scalar::zero());
}

#[test]
fn step_accepts_a_member_at_any_leaf() {
    let h = PoseidonHasher::new();
    let (a0, qs) = member();
    let leaf = rate_commitment_of(&h, &a0, &qs);
    // leaf 5 = binary 101: right child at levels 0 and 2
    let siblings: Vec<Scalar> = (0..DEPTH as u64).map(|d| s(31 + d)).collect();
    let mut bits = vec![false; DEPTH];
    bits[0] = true;
    bits[2] = true;
    let mut r = leaf;
    for d in 0..DEPTH {
        r = if bits[d] { hash2(&h, &siblings[d], &r) } else { hash2(&h, &r, &siblings[d]) };
    }
    assert_eq!(group_root(&h, &a0, &qs, &siblings, &bits), r);
    let e = s(424242);
    let st = RlnStep {
        a0,
        qs,
        j: vec![s(1)],
        x: vec![s(1000)],
        path_elements: siblings.clone(),
        path_index: bits.clone(),
    };
    let out = st.evaluate(&h, &initial_state(&r, &e));
    assert!(out.root_matches);
    let z = out.z_out;
    let m = reveal_message(&h, &a0, &e, &s(1), &s(1000));
    assert_eq!(z, vec![r, e, absorb_message(&h, &Scalar::zero(), &m)]);
    // the same siblings taken as leaf 0 climb elsewhere
    let as_leaf_zero = RlnStep { path_index: vec![false; DEPTH], ..st };
    assert!(!as_leaf_zero.evaluate(&h, &initial_state(&r, &e)).root_matches);
}

#[test]
fn folding_keeps_root_and_epoch_and_flags_a_wrong_root() {
    let h = PoseidonHasher::new();
    let (a0, qs) = member();
    let r = burst_root(&h);
    let e = s(9);
    let steps = burst_steps(&a0, &qs, 6, 2);
    let z = fold(&h, &steps, &initial_state(&r, &e));
    assert_eq!(z.len(), 3);
    assert_eq!(z[0], r);
    assert_eq!(z[1], e);
    // from a wrong root every step is flagged, and root and epoch still pass through
    let mut w = initial_state(&s(1), &e);
    for st in &steps {
        let out = st.evaluate(&h, &w);
        assert!(!out.root_matches);
        w = out.z_out;
    }
    assert_eq!(w, vec![s(1), e, z[2]]);
}
