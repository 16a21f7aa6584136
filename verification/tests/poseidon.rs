use zkdb_plonky2::commitment::poseidon::bytes_to_field_elements;
use zkdb_plonky2::commitment::poseidon::commitment_lo;
use zkdb_plonky2::commitment::poseidon::compute_snap_lo;
use zkdb_plonky2::commitment::poseidon::padded_field_elements;
use zkdb_plonky2::commitment::poseidon::poseidon_snapshot_root;
use zkdb_plonky2::commitment::poseidon::row_digest;
use zkdb_plonky2::commitment::poseidon::row_primary_field_element;
use zkdb_plonky2::commitment::poseidon::snapshot_root_from_lo;
use zkdb_plonky2::commitment::poseidon::MAX_ROWS;
use zkdb_plonky2::field::FieldElement;
use zkdb_plonky2::field::MODULUS;

/// A hash from field elements to four field elements.
fn field_hash(x: &Vec<u64>) -> [u64; 4] {
    let mut bytes: Vec<u8> = Vec::new();
    for v in x {
        bytes.extend_from_slice(&v.to_le_bytes());
    }
    let digest = *blake3::hash(&bytes).as_bytes();
    let mut out = [0u64; 4];
    for k in 0..4 {
        let mut word = [0u8; 8];
        word.copy_from_slice(&digest[8 * k..8 * k + 8]);
        out[k] = u64::from_le_bytes(word) % MODULUS;
    }
    out
}

#[test]
fn snap_lo_is_deterministic() {
    let vals = vec![10u64, 20, 30, 40];
    let a = compute_snap_lo(MAX_ROWS, &vals, &field_hash);
    let b = compute_snap_lo(MAX_ROWS, &vals, &field_hash);
    assert_eq!(a, b);
}

#[test]
fn different_values_produce_different_snap_lo() {
    let a = compute_snap_lo(MAX_ROWS, &[1u64, 2, 3], &field_hash);
    let b = compute_snap_lo(MAX_ROWS, &[1u64, 2, 4], &field_hash);
    assert_ne!(a, b, "different inputs must produce different hashes");
}

#[test]
fn zero_values_is_nonzero_hash() {
    let v = compute_snap_lo(MAX_ROWS, &[], &field_hash);
    assert_eq!(v, field_hash(&vec![0u64; 128])[0]);
    assert_ne!(v, 0);
}

#[test]
fn row_primary_field_element_first_8_bytes() {
    let row = [0x01, 0x02, 0x03, 0x04, 0x05, 0x06, 0x07, 0x08, 0xFF, 0xFF];
    let fe = row_primary_field_element(&row);
    let expected = u64::from_le_bytes([1, 2, 3, 4, 5, 6, 7, 8]);
    assert_eq!(fe, expected);
}

#[test]
fn snapshot_root_encoding_is_consistent() {
    let rows: Vec<Vec<u8>> = (0..5u64).map(|i| i.to_le_bytes().to_vec()).collect();
    let root = poseidon_snapshot_root(&rows, &field_hash);
    let lo = commitment_lo(&root);
    let primary: Vec<u64> = rows.iter().map(|rb| row_primary_field_element(rb)).collect();
    let expected_lo = compute_snap_lo(MAX_ROWS, &primary, &field_hash);
    assert_eq!(lo, expected_lo);
    assert_eq!(&root[8..], &[0u8; 24]);
}

#[test]
fn short_row_is_padded_with_zeros() {
    assert_eq!(row_primary_field_element(&[0x34, 0x12]), 0x1234);
    assert_eq!(row_primary_field_element(&[]), 0);
}

#[test]
fn padding_and_cutting_columns() {
    let long = padded_field_elements(2, &[7, 8, 9]);
    assert_eq!(long, vec![FieldElement(7), FieldElement(8)]);
    let short = padded_field_elements(4, &[7]);
    assert_eq!(short, vec![FieldElement(7), FieldElement(0), FieldElement(0), FieldElement(0)]);
    let wrapped = padded_field_elements(1, &[MODULUS + 5]);
    assert_eq!(wrapped, vec![FieldElement(5)]);
}

#[test]
fn trailing_zeros_do_not_change_snap_lo() {
    let a = compute_snap_lo(MAX_ROWS, &[4, 5], &field_hash);
    let b = compute_snap_lo(MAX_ROWS, &[4, 5, 0, 0], &field_hash);
    assert_eq!(a, b);
}

#[test]
fn bytes_pack_in_groups_of_eight() {
    let packed = bytes_to_field_elements(&[1, 0, 0, 0, 0, 0, 0, 0, 2, 1]);
    assert_eq!(packed, vec![FieldElement(1), FieldElement(0x0102)]);
    assert!(bytes_to_field_elements(&[]).is_empty());
    assert_eq!(bytes_to_field_elements(&[0xFF; 8]), vec![FieldElement(0xFFFF_FFFE)]);
}

#[test]
fn row_digest_hashes_packed_words() {
    let d = row_digest(&[1, 0, 0, 0, 0, 0, 0, 0, 2], &field_hash);
    assert_eq!(d, field_hash(&vec![1, 2]));
}

#[test]
fn root_holds_snap_lo_in_its_first_bytes() {
    let root = snapshot_root_from_lo(0x0102_0304_0506_0708);
    assert_eq!(&root[..8], &[8, 7, 6, 5, 4, 3, 2, 1]);
    assert_eq!(commitment_lo(&root), 0x0102_0304_0506_0708);
}

#[test]
fn canonical_bytes_reduce_the_word() {
    assert_eq!(FieldElement(0x0102).to_canonical_bytes(), vec![2, 1, 0, 0, 0, 0, 0, 0]);
    assert_eq!(FieldElement(MODULUS).to_canonical_bytes(), vec![0u8; 8]);
}
