use zkdb_plonky2::circuit::agg::AggCircuit;
use zkdb_plonky2::circuit::group_by::compute_group_output_lo_padded;
use zkdb_plonky2::circuit::group_by::GroupByCircuit;
use zkdb_plonky2::circuit::join::JoinCircuit;
use zkdb_plonky2::circuit::sort::DescSortCircuit;
use zkdb_plonky2::circuit::sort::SortCircuit;
use zkdb_plonky2::circuit::system::ConstraintSystem;
use zkdb_plonky2::commitment::poseidon::compute_snap_lo;
use zkdb_plonky2::commitment::poseidon::MAX_ROWS;
use zkdb_plonky2::field::field_add;
use zkdb_plonky2::field::field_mul;
use zkdb_plonky2::field::field_sub;
use zkdb_plonky2::field::MODULUS;

/// A hash from field elements to four field elements.
fn field_hash(x: &Vec<u64>) -> [u64; 4] {
    let mut bytes: Vec<u8> = Vec::new();
    for v in x {
        bytes.extend_from_slice(&v.to_le_bytes());
    }
    let digest = *blake3::hash(&bytes).as_bytes();
    let mut out = [0u64; 4];
    for k in 0..4 {
        let mut word = [0u8; 8];
        word.copy_from_slice(&digest[8 * k..8 * k + 8]);
        out[k] = u64::from_le_bytes(word) % MODULUS;
    }
    out
}

fn snap_lo_for(values: &[u64]) -> u64 {
    compute_snap_lo(MAX_ROWS, values, &field_hash)
}

#[test]
fn agg_count_all() {
    let c = AggCircuit::build();
    let values = [1u64; 50];
    let snap = snap_lo_for(&values);
    let proof = c.prove(&values, snap, 0, 0, 0, &field_hash).expect("prove");
    assert_eq!(proof.public_inputs[2], 50);
    assert_eq!(proof.public_inputs[3], 50);
    assert_eq!(proof.public_inputs[7], 50);
    assert!(c.system.check(&proof.wires, &field_hash), "verify");
}

#[test]
fn agg_sum_with_filter() {
    let c = AggCircuit::build();
    let values = [1000u64, 2000, 3000, 4000, 5000];
    let snap = snap_lo_for(&values);
    let proof = c.prove(&values, snap, 99, 3, 2000, &field_hash).expect("prove");
    assert_eq!(proof.public_inputs[1], 99);
    assert_eq!(proof.public_inputs[2], 12000);
    assert_eq!(proof.public_inputs[3], 3);
    assert_eq!(proof.public_inputs[5], 3);
    assert_eq!(proof.public_inputs[6], 2000);
    assert_eq!(proof.public_inputs[7], 5);
    assert!(c.system.check(&proof.wires, &field_hash), "verify");
}

#[test]
fn agg_tampered_proof_fails() {
    let c = AggCircuit::build();
    let values = [10u64; 20];
    let snap = snap_lo_for(&values);
    let proof = c.prove(&values, snap, 0, 0, 0, &field_hash).expect("prove");
    let mut wires = proof.wires;
    let mid = wires.len() / 2;
    wires[mid] ^= 0xFF;
    wires[mid + 1] ^= 0xFF;
    assert!(!c.system.check(&wires, &field_hash), "tampered proof must fail");
}

#[test]
#[should_panic]
fn agg_wrong_snap_lo_fails() {
    let c = AggCircuit::build();
    let values = [42u64; 10];
    c.prove(&values, 0xDEAD_BEEFu64, 0, 0, 0, &field_hash).unwrap();
}

#[test]
fn sort_ascending_proves_and_verifies() {
    let c = SortCircuit::build();
    let in_vals = [30u64, 10, 20];
    let out_vals = [10u64, 20, 30];
    let snap = snap_lo_for(&in_vals);
    let proof = c
        .prove(&in_vals, &out_vals, &[], &[], &[], &[], snap, 0, &field_hash)
        .expect("sort prove");
    assert!(c.system.check(&proof.wires, &field_hash), "sort verify");
    assert_eq!(proof.public_inputs[2], 60);
    assert_eq!(proof.public_inputs[3], 3);
}

#[test]
fn sort_single_element() {
    let c = SortCircuit::build();
    let vals = [42u64];
    let snap = snap_lo_for(&vals);
    let proof = c
        .prove(&vals, &vals, &[], &[], &[], &[], snap, 2, &field_hash)
        .expect("prove");
    assert!(c.system.check(&proof.wires, &field_hash), "verify");
}

#[test]
fn sort_larger_set() {
    let c = SortCircuit::build();
    let mut in_vals: Vec<u64> = (0..50).map(|i| (i * 37 + 11) % 1000).collect();
    let mut out_vals = in_vals.clone();
    out_vals.sort();
    in_vals.sort_by(|a, b| b.cmp(a));
    let snap = snap_lo_for(&in_vals);
    let proof = c
        .prove(&in_vals, &out_vals, &[], &[], &[], &[], snap, 0, &field_hash)
        .expect("prove");
    assert!(c.system.check(&proof.wires, &field_hash), "verify");
}

#[test]
fn sort_with_secondary_payload_binding() {
    let c = SortCircuit::build();
    let in_vals = [30u64, 10, 20];
    let in_secondary = [1001u64, 1002, 1003];
    let out_vals = [10u64, 20, 30];
    let out_secondary = [1002u64, 1003, 1001];
    let snap = snap_lo_for(&in_vals);
    let proof = c
        .prove(&in_vals, &out_vals, &in_secondary, &out_secondary, &[], &[], snap, 0, &field_hash)
        .expect("sort with secondary prove");
    assert!(c.system.check(&proof.wires, &field_hash), "sort with secondary verify");
    let pi5 = proof.public_inputs[5];
    assert_ne!(pi5, 0, "secondary_snap_lo must be non-zero when secondary provided");
    assert_eq!(pi5, snap_lo_for(&in_secondary));
}

#[test]
#[should_panic]
fn sort_wrong_secondary_permutation_fails() {
    let c = SortCircuit::build();
    let in_vals = [30u64, 10, 20];
    let in_secondary = [1001u64, 1002, 1003];
    let out_vals = [10u64, 20, 30];
    let out_secondary = [1001u64, 1002, 1003];
    let snap = snap_lo_for(&in_vals);
    c.prove(&in_vals, &out_vals, &in_secondary, &out_secondary, &[], &[], snap, 0, &field_hash)
        .unwrap();
}

#[test]
#[should_panic]
fn sort_wrong_snap_lo_fails() {
    let c = SortCircuit::build();
    let in_vals = [5u64, 3, 1];
    let out_vals = [1u64, 3, 5];
    c.prove(&in_vals, &out_vals, &[], &[], &[], &[], 0u64, 0, &field_hash).unwrap();
}

#[test]
#[should_panic]
fn sort_wrong_permutation_fails() {
    let c = SortCircuit::build();
    let in_vals = [1u64, 2, 3];
    let out_vals = [1u64, 2, 4];
    let snap = snap_lo_for(&in_vals);
    c.prove(&in_vals, &out_vals, &[], &[], &[], &[], snap, 0, &field_hash).unwrap();
}

#[test]
fn group_by_proves_and_verifies() {
    let c = GroupByCircuit::build();
    let in_keys = [3u64, 1, 2, 1, 3];
    let out_keys = [1u64, 1, 2, 3, 3];
    let vals = [10u64, 10, 20, 30, 30];
    let snap = snap_lo_for(&in_keys);
    let proof = c.prove(&in_keys, &out_keys, &vals, snap, 0, &field_hash).expect("prove");
    assert!(c.system.check(&proof.wires, &field_hash), "verify");
    assert_eq!(proof.public_inputs[2], 100);
    assert_eq!(proof.public_inputs[3], 5);
    // The keys 1, 2 and 3: the padding is no group.
    assert_eq!(proof.public_inputs[4], 3);
    let groups = compute_group_output_lo_padded(&out_keys, &vals, &field_hash);
    assert_eq!(proof.public_inputs[5], groups);
}

#[test]
#[should_panic]
fn group_by_wrong_snap_lo_fails() {
    let c = GroupByCircuit::build();
    let in_keys = [2u64, 1];
    let out_keys = [1u64, 2];
    let vals = [10u64, 20];
    c.prove(&in_keys, &out_keys, &vals, 0u64, 0, &field_hash).unwrap();
}

#[test]
#[should_panic]
fn group_by_wrong_permutation_fails() {
    let c = GroupByCircuit::build();
    let in_keys = [1u64, 2, 3];
    let out_keys = [1u64, 2, 4];
    let vals = [10u64, 20, 30];
    let snap = snap_lo_for(&in_keys);
    c.prove(&in_keys, &out_keys, &vals, snap, 0, &field_hash).unwrap();
}

#[test]
fn agg_pred_lt_selects_correctly() {
    let c = AggCircuit::build();
    let values = [10u64, 20, 30, 40, 50];
    let snap = snap_lo_for(&values);
    let proof = c.prove(&values, snap, 0, 2, 30, &field_hash).expect("prove pred_lt");
    assert_eq!(proof.public_inputs[2], 30, "sum");
    assert_eq!(proof.public_inputs[3], 2, "count");
    assert_eq!(proof.public_inputs[5], 2, "pred_op=Lt");
    assert_eq!(proof.public_inputs[6], 30, "pred_val=30");
    assert_eq!(proof.public_inputs[7], 5, "n_real=5");
    assert!(c.system.check(&proof.wires, &field_hash), "verify pred_lt");
}

#[test]
fn agg_pred_gt_selects_correctly() {
    let c = AggCircuit::build();
    let values = [10u64, 20, 30, 40, 50];
    let snap = snap_lo_for(&values);
    let proof = c.prove(&values, snap, 0, 3, 30, &field_hash).expect("prove pred_gt");
    assert_eq!(proof.public_inputs[2], 90, "sum");
    assert_eq!(proof.public_inputs[3], 2, "count");
    assert_eq!(proof.public_inputs[5], 3, "pred_op=Gt");
    assert_eq!(proof.public_inputs[6], 30, "pred_val=30");
    assert_eq!(proof.public_inputs[7], 5, "n_real=5");
    assert!(c.system.check(&proof.wires, &field_hash), "verify pred_gt");
}

#[test]
fn agg_pred_eq_with_pred_val_zero_does_not_overcount() {
    let c = AggCircuit::build();
    let values = [0u64, 0, 5, 10];
    let snap = snap_lo_for(&values);
    let proof = c.prove(&values, snap, 0, 1, 0, &field_hash).expect("prove eq_zero");
    assert_eq!(proof.public_inputs[2], 0, "sum=0");
    assert_eq!(proof.public_inputs[3], 2, "count=2 (real zeros only)");
    assert_eq!(proof.public_inputs[7], 4, "n_real=4");
    assert!(c.system.check(&proof.wires, &field_hash), "verify eq_zero");
}

#[test]
fn agg_lt_complete_no_undercounting() {
    let c = AggCircuit::build();
    let values = [1u64, 2, 3, 100, 200];
    let snap = snap_lo_for(&values);
    let proof = c.prove(&values, snap, 0, 2, 10, &field_hash).expect("prove lt_complete");
    assert_eq!(proof.public_inputs[3], 3, "count must be exactly 3");
    assert_eq!(proof.public_inputs[2], 6, "sum=1+2+3=6");
    assert!(c.system.check(&proof.wires, &field_hash), "verify lt_complete");
}

#[test]
#[should_panic]
fn agg_pred_invalid_op_fails() {
    let c = AggCircuit::build();
    let values = [10u64; 5];
    let snap = snap_lo_for(&values);
    c.prove(&values, snap, 0, 99, 0, &field_hash).unwrap();
}

#[test]
fn join_proves_and_verifies() {
    let c = JoinCircuit::build();
    let keys = [1u64, 2, 3];
    let snap = snap_lo_for(&keys);
    let proof = c
        .prove(&keys, &keys, &[100u64, 200, 300], &[true; 3], snap, 0, &field_hash)
        .expect("prove");
    assert!(c.system.check(&proof.wires, &field_hash), "verify");
    assert_eq!(proof.public_inputs[2], 600);
    assert_eq!(proof.public_inputs[3], 3);
    assert_eq!(proof.public_inputs[4], snap);
    assert_eq!(proof.public_inputs[6], 125);
}

#[test]
#[should_panic]
fn join_wrong_snap_lo_fails() {
    let c = JoinCircuit::build();
    let keys = [1u64, 2];
    c.prove(&keys, &keys, &[10u64, 20], &[true; 2], 0u64, 0, &field_hash).unwrap();
}

#[test]
fn agg_undercount_does_not_satisfy_the_circuit() {
    let c = AggCircuit::build();
    let values = [7u64, 8, 9];
    let snap = snap_lo_for(&values);
    let proof = c.prove(&values, snap, 0, 0, 0, &field_hash).expect("prove");
    // The same values, with the last real row taken for padding.
    let mut inputs: Vec<u64> = proof.wires[..c.system.n_inputs].to_vec();
    inputs[128 + 2] = 0;
    inputs[256 + 2] = 0;
    let (_, ok) = c.system.solve(&inputs, &field_hash);
    assert!(!ok, "a padding row holds no value");
    // The same values, with a selector left out.
    let mut inputs: Vec<u64> = proof.wires[..c.system.n_inputs].to_vec();
    inputs[128 + 1] = 0;
    let (_, ok) = c.system.solve(&inputs, &field_hash);
    assert!(!ok, "a real row is selected");
}

#[test]
fn agg_error_names_the_circuit() {
    let c = AggCircuit::build();
    let e = c.prove(&[1], 1, 0, 0, 0, &field_hash).unwrap_err();
    assert_eq!(e, "agg prove: constraints not satisfied");
}

#[test]
fn agg_takes_at_most_128_rows() {
    let c = AggCircuit::build();
    let values = [1u64; 200];
    let snap = snap_lo_for(&values);
    let proof = c.prove(&values, snap, 0, 0, 0, &field_hash).expect("prove");
    assert_eq!(proof.public_inputs[3], 128);
    assert_eq!(proof.public_inputs[7], 128);
}

#[test]
fn agg_result_commitment_is_the_hash_of_sum_and_count() {
    let c = AggCircuit::build();
    let values = [5u64, 6];
    let snap = snap_lo_for(&values);
    let proof = c.prove(&values, snap, 3, 0, 0, &field_hash).expect("prove");
    assert_eq!(proof.public_inputs[0], snap);
    assert_eq!(proof.public_inputs[4], field_hash(&vec![11, 2])[0]);
}

#[test]
fn agg_comparison_is_exact_on_all_field_elements() {
    let c = AggCircuit::build();
    let top = 0x7FFF_FFFF_FFFF_FFFFu64;
    let values = [0, 1, 1 << 62, top, 1 << 63, MODULUS - 1];
    let snap = snap_lo_for(&values);
    for pred_val in [0, top, 1 << 63, MODULUS - 1] {
        let below = values.iter().filter(|v| **v < pred_val).count() as u64;
        let above = values.iter().filter(|v| **v > pred_val).count() as u64;
        let p = c.prove(&values, snap, 0, 2, pred_val, &field_hash).expect("below");
        assert_eq!(p.public_inputs[3], below);
        let p = c.prove(&values, snap, 0, 3, pred_val, &field_hash).expect("above");
        assert_eq!(p.public_inputs[3], above);
    }
}

#[test]
fn comparison_gadget_is_exact() {
    let mut b = ConstraintSystem::new(3);
    let out = b.is_less_than(0, 1, 2);
    let top = 0x7FFF_FFFF_FFFF_FFFFu64;
    for (x, y) in [(top, 0), (0, top), (5, 5), (4, 5), (MODULUS - 1, 0), (0, MODULUS - 1)] {
        let (w, ok) = b.solve(&vec![x, y, 1], &field_hash);
        assert!(ok);
        assert_eq!(w.wires[out], (x < y) as u64, "{} < {}", x, y);
    }
}

#[test]
fn desc_sort_proves_and_verifies() {
    let c = DescSortCircuit::build();
    let in_vals = [10u64, 30, 20, 30];
    let out_vals = [30u64, 30, 20, 10];
    let snap = snap_lo_for(&in_vals);
    let proof = c
        .prove(&in_vals, &out_vals, &[], &[], &[], &[], snap, 5, &field_hash)
        .expect("prove");
    assert!(c.system.check(&proof.wires, &field_hash));
    assert_eq!(proof.public_inputs[2], 90);
    assert_eq!(proof.public_inputs[3], 4);
    let ascending = [10u64, 20, 30, 30];
    let e = c
        .prove(&in_vals, &ascending, &[], &[], &[], &[], snap, 5, &field_hash)
        .unwrap_err();
    assert_eq!(e, "desc_sort prove: constraints not satisfied");
}

#[test]
fn sort_step_bound_is_enforced() {
    let c = SortCircuit::build();
    let wide = [1u64 << 48];
    let snap = snap_lo_for(&wide);
    assert!(c.prove(&wide, &wide, &[], &[], &[], &[], snap, 0, &field_hash).is_err());
    let narrow = [(1u64 << 48) - 1];
    let snap = snap_lo_for(&narrow);
    assert!(c.prove(&narrow, &narrow, &[], &[], &[], &[], snap, 0, &field_hash).is_ok());
}

#[test]
fn sort_unsorted_output_fails() {
    let c = SortCircuit::build();
    let in_vals = [3u64, 1, 2];
    let snap = snap_lo_for(&in_vals);
    let e = c
        .prove(&in_vals, &in_vals, &[], &[], &[], &[], snap, 0, &field_hash)
        .unwrap_err();
    assert_eq!(e, "sort prove: constraints not satisfied");
}

#[test]
fn sort_high_halves_bind_too() {
    let c = SortCircuit::build();
    let in_vals = [2u64, 1];
    let out_vals = [1u64, 2];
    let snap = snap_lo_for(&in_vals);
    let good = c.prove(
        &in_vals, &out_vals, &[7, 8], &[8, 7], &[70, 80], &[80, 70], snap, 0, &field_hash,
    );
    assert_eq!(good.expect("prove").public_inputs[6], snap_lo_for(&[70, 80]));
    let bad = c.prove(
        &in_vals, &out_vals, &[7, 8], &[8, 7], &[70, 80], &[70, 80], snap, 0, &field_hash,
    );
    assert!(bad.is_err());
}

#[test]
fn group_by_boundary_flags_follow_the_keys() {
    let c = GroupByCircuit::build();
    let keys = [1u64, 1, 2];
    let snap = snap_lo_for(&keys);
    let proof = c.prove(&keys, &keys, &[5, 6, 7], snap, 0, &field_hash).expect("prove");
    // The flag between the two equal keys is clear, and cannot be set.
    let mut inputs: Vec<u64> = proof.wires[..c.system.n_inputs].to_vec();
    let flag = 639 + 125;
    assert_eq!(inputs[flag], 0);
    assert_eq!(inputs[flag + 1], 1);
    inputs[flag] = 1;
    inputs[766 + 126] = 6;
    let (_, ok) = c.system.solve(&inputs, &field_hash);
    assert!(!ok);
}

#[test]
fn group_by_running_sums_restart_at_boundaries() {
    let c = GroupByCircuit::build();
    let keys = [1u64, 1, 2];
    let snap = snap_lo_for(&keys);
    let proof = c.prove(&keys, &keys, &[5, 6, 7], snap, 0, &field_hash).expect("prove");
    assert_eq!(&proof.wires[766 + 125..766 + 128], &[5, 11, 7]);
    let e = c.prove(&[2, 1], &[2, 1], &[5, 6], snap_lo_for(&[2, 1]), 0, &field_hash).unwrap_err();
    assert_eq!(e, "group_by prove: constraints not satisfied");
}

#[test]
fn join_selectors_are_determined_by_the_keys() {
    let c = JoinCircuit::build();
    let left = [1u64, 2, 3];
    let right = [1u64, 9, 3];
    let snap = snap_lo_for(&left);
    let vals = [10u64, 20, 30];
    let proof = c
        .prove(&left, &right, &vals, &[true, false, true], snap, 0, &field_hash)
        .expect("prove");
    assert_eq!(proof.public_inputs[2], 40);
    assert_eq!(proof.public_inputs[3] + proof.public_inputs[6], 128);
    let omitted = c.prove(&left, &right, &vals, &[true, false, false], snap, 0, &field_hash);
    assert_eq!(omitted.unwrap_err(), "join prove: constraints not satisfied");
    let forged = c.prove(&left, &right, &vals, &[true, true, true], snap, 0, &field_hash);
    assert!(forged.is_err());
}

#[test]
fn check_needs_every_wire_to_be_canonical() {
    let c = JoinCircuit::build();
    let keys = [1u64];
    let snap = snap_lo_for(&keys);
    let proof = c.prove(&keys, &keys, &[1], &[true], snap, 0, &field_hash).expect("prove");
    let mut wires = proof.wires;
    wires[1] = MODULUS;
    assert!(!c.system.check(&wires, &field_hash));
    wires.truncate(10);
    assert!(!c.system.check(&wires, &field_hash));
}

#[test]
fn field_arithmetic_wraps_at_the_modulus() {
    assert_eq!(field_add(MODULUS - 1, 3), 2);
    assert_eq!(field_sub(1, 3), MODULUS - 2);
    assert_eq!(field_mul(MODULUS - 1, MODULUS - 1), 1);
    assert_eq!(field_mul(1 << 32, 1 << 32), (1u64 << 32) - 1);
}

#[test]
fn sort_step_can_wrap_around_the_field() {
    // Without padding a column may start just below the modulus and go on at zero.
    let c = SortCircuit::build();
    let mut column = vec![0u64; 128];
    column[0] = MODULUS - 1;
    let mut inputs: Vec<u64> = Vec::new();
    inputs.extend_from_slice(&column);
    inputs.extend_from_slice(&column);
    inputs.push(1);
    inputs.extend_from_slice(&[0u64; 126]);
    inputs.extend_from_slice(&[1u64; 128]);
    inputs.extend_from_slice(&[0u64; 512]);
    inputs.push(snap_lo_for(&column));
    inputs.push(0);
    assert_eq!(inputs.len(), c.system.n_inputs);
    let (_, ok) = c.system.solve(&inputs, &field_hash);
    assert!(ok);
}

#[test]
fn solve_reads_words_as_residues() {
    let c = JoinCircuit::build();
    let keys = [MODULUS + 4];
    let snap = snap_lo_for(&[4]);
    let proof = c.prove(&keys, &[4], &[1], &[true], snap, 0, &field_hash).expect("prove");
    assert_eq!(proof.wires[0], 4);
    assert_eq!(proof.public_inputs[3], 1);
}

#[test]
fn group_output_depends_on_the_running_sums() {
    let a = compute_group_output_lo_padded(&[1, 1], &[3, 4], &field_hash);
    let b = compute_group_output_lo_padded(&[1, 1], &[4, 3], &field_hash);
    assert_ne!(a, b);
    let mut words: Vec<u64> = vec![0; 126];
    words.extend_from_slice(&[1, 1]);
    words.extend_from_slice(&[0; 126]);
    words.extend_from_slice(&[3, 7]);
    words.extend_from_slice(&[0; 125]);
    words.extend_from_slice(&[1, 0]);
    assert_eq!(a, field_hash(&words)[0]);
}

#[test]
fn outputs_of_another_length_are_refused() {
    let ins = [1u64, 2];
    let snap = snap_lo_for(&ins);
    let c = SortCircuit::build();
    for outs in [&[1u64, 2, 3][..], &[1, 2, 0], &[2], &[]] {
        let e = c.prove(&ins, outs, &[], &[], &[], &[], snap, 0, &field_hash).unwrap_err();
        assert_eq!(e, "sort prove: constraints not satisfied");
    }
    let c = DescSortCircuit::build();
    for outs in [&[3u64, 2, 1][..], &[2, 1, 0], &[2]] {
        let e = c.prove(&ins, outs, &[], &[], &[], &[], snap, 0, &field_hash).unwrap_err();
        assert_eq!(e, "desc_sort prove: constraints not satisfied");
    }
    let c = GroupByCircuit::build();
    for outs in [&[1u64, 2, 3][..], &[1]] {
        let e = c.prove(&ins, outs, &[5, 6], snap, 0, &field_hash).unwrap_err();
        assert_eq!(e, "group_by prove: constraints not satisfied");
    }
}

#[test]
fn sort_public_inputs_are_those_of_the_rows() {
    let c = SortCircuit::build();
    let ins = [9u64, 4, 4, 7];
    let outs = [4u64, 4, 7, 9];
    let in_lo = [90u64, 40, 41, 70];
    let out_lo = [41u64, 40, 70, 90];
    let snap = snap_lo_for(&ins);
    let p = c.prove(&ins, &outs, &in_lo, &out_lo, &[], &[], snap, 6, &field_hash).expect("prove");
    let result = compute_snap_lo(2, &[24, 4], &field_hash);
    let expected = [snap, 6, 24, 4, result, snap_lo_for(&in_lo), snap_lo_for(&[])];
    assert_eq!(p.public_inputs, expected.to_vec());
    // Not the commitment, not in order, not the same rows.
    assert!(c.prove(&ins, &outs, &in_lo, &out_lo, &[], &[], snap + 1, 6, &field_hash).is_err());
    let wrong = [4u64, 7, 4, 9];
    assert!(c.prove(&ins, &wrong, &[], &[], &[], &[], snap, 6, &field_hash).is_err());
    let other = [40u64, 42, 70, 90];
    assert!(c.prove(&ins, &outs, &in_lo, &other, &[], &[], snap, 6, &field_hash).is_err());
}

#[test]
fn group_by_public_inputs_are_those_of_the_rows() {
    let c = GroupByCircuit::build();
    let ins = [2u64, 0, 2, 0, 5];
    let outs = [0u64, 0, 2, 2, 5];
    let vals = [1u64, 2, 3, 4, 5];
    let snap = snap_lo_for(&ins);
    let p = c.prove(&ins, &outs, &vals, snap, 8, &field_hash).expect("prove");
    let mut padded = vec![0u64; 123];
    padded.extend_from_slice(&vals);
    let expected = vec![
        snap,
        8,
        15,
        5,
        // A real key of zero is a group, and the padding before it is not.
        3,
        compute_group_output_lo_padded(&outs, &vals, &field_hash),
        field_hash(&vec![15, 5])[0],
        field_hash(&padded)[0],
    ];
    assert_eq!(p.public_inputs, expected);
    assert!(c.prove(&ins, &outs, &vals, snap + 1, 8, &field_hash).is_err());
    assert!(c.prove(&ins, &[0, 2, 0, 2, 5], &vals, snap, 8, &field_hash).is_err());
    assert!(c.prove(&ins, &[0, 0, 2, 5, 5], &vals, snap, 8, &field_hash).is_err());
}

#[test]
fn group_count_is_the_number_of_different_keys() {
    let c = GroupByCircuit::build();
    let count = |keys: &[u64]| {
        let vals = vec![1u64; keys.len()];
        let p = c.prove(keys, keys, &vals, snap_lo_for(keys), 0, &field_hash).expect("prove");
        p.public_inputs[4]
    };
    assert_eq!(count(&[]), 0);
    assert_eq!(count(&[0]), 1);
    assert_eq!(count(&[7, 7, 7]), 1);
    assert_eq!(count(&[1, 2]), 2);
    assert_eq!(count(&[3; 128]), 1);
    let all: Vec<u64> = (0..128).collect();
    assert_eq!(count(&all), 128);
}

#[test]
fn group_by_real_rows_are_bound() {
    let c = GroupByCircuit::build();
    let keys = [1u64, 2];
    let p = c.prove(&keys, &keys, &[5, 6], snap_lo_for(&keys), 0, &field_hash).expect("prove");
    let inputs: Vec<u64> = p.wires[..c.system.n_inputs].to_vec();
    // A row with a key cannot be taken for padding.
    let mut hidden = inputs.clone();
    hidden[511 + 126] = 0;
    assert!(!c.system.solve(&hidden, &field_hash).1);
    // Padding cannot stand after a real row.
    let mut gap = inputs.clone();
    gap[511 + 3] = 1;
    assert!(!c.system.solve(&gap, &field_hash).1);
    assert!(c.system.solve(&inputs, &field_hash).1);
}
