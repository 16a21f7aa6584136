//! Row and snapshot commitments over the Goldilocks field.
//!
//! A circuit constrains its first public input to be the first element of the
//! Poseidon hash of its private row values. The functions here compute the
//! same element natively, so that a proof binds to the rows it was made from.
//! The hash is handed in by the caller.

use vstd::prelude::*;

use crate::circuit::system::computes;
use crate::circuit::system::is_total;
use crate::circuit::system::FieldHash;
use crate::encoding::le_bytes;
use crate::encoding::le_bytes_len;
use crate::encoding::le_roundtrip;
use crate::encoding::le_value;
use crate::encoding::pow256_8;
use crate::encoding::push_le;
use crate::encoding::read_le;
use crate::field::canonical;
use crate::field::residue;
use crate::field::FieldElement;

verus! {

/// Maximum rows per circuit instance.
pub const MAX_ROWS: usize = 128;

/// `values` cut or padded with zeros to `n` elements.
pub open spec fn padded(values: Seq<u64>, n: nat) -> Seq<u64> {
    Seq::new(
        n,
        |i: int|
            if i < values.len() {
                residue(values[i])
            } else {
                0
            },
    )
}

/// The first element of the hash of the padded values.
pub open spec fn snap_lo(h: FieldHash, n: nat, values: Seq<u64>) -> u64 {
    h(padded(values, n))[0]
}

/// The number that the first eight bytes of a row stand for.
pub open spec fn primary(row: Seq<u8>) -> u64 {
    le_value(
        row.take(
            if row.len() < 8 {
                row.len() as int
            } else {
                8
            },
        ),
    ) as u64
}

/// The bytes of each row.
pub open spec fn row_views(rows: Seq<Vec<u8>>) -> Seq<Seq<u8>> {
    Seq::new(rows.len(), |i: int| rows[i]@)
}

/// The primary field element of each row.
pub open spec fn primaries(rows: Seq<Seq<u8>>) -> Seq<u64> {
    Seq::new(rows.len(), |i: int| primary(rows[i]))
}

/// The words that a row's bytes pack into.
pub open spec fn packed_words(bytes: Seq<u8>) -> Seq<u64> {
    Seq::new((bytes.len() + 7) / 8, |i: int| residue(le_value(chunk(bytes, i)) as u64))
}

/// A 32-byte root that holds `lo` in its first eight bytes, and zeros.
pub open spec fn root_bytes(lo: u64) -> Seq<u8> {
    le_bytes(lo as nat, 8) + Seq::new(24, |i: int| 0u8)
}

/// The `snap_lo` that a root holds.
pub open spec fn root_lo(root: Seq<u8>) -> u64 {
    le_value(root.take(8)) as u64
}

/// The words of a list of field elements.
pub open spec fn words(fes: Seq<FieldElement>) -> Seq<u64> {
    Seq::new(fes.len(), |i: int| fes[i].0)
}

/// The `i`-th group of eight bytes, shorter at the end.
pub open spec fn chunk(bytes: Seq<u8>, i: int) -> Seq<u8> {
    bytes.subrange(
        8 * i,
        if 8 * i + 8 <= bytes.len() {
            8 * i + 8
        } else {
            bytes.len() as int
        },
    )
}

/// Hashes `values`, cut or padded with zeros to `n_rows` elements, and returns
/// the first element of the digest.
pub fn compute_snap_lo<H: Fn(&Vec<u64>) -> [u64; 4]>(
    n_rows: usize,
    values: &[u64],
    hash: &H,
) -> (r: u64)
    requires
        is_total(*hash),
    ensures
        forall|h: FieldHash| #[trigger]
            computes(*hash, h) ==> r == snap_lo(h, n_rows as nat, values@),
{
    let fes: Vec<FieldElement> = padded_field_elements(n_rows, values);
    let x: Vec<u64> = field_words(&fes);
    let d: [u64; 4] = hash(&x);
    proof {
        assert(x@ =~= padded(values@, n_rows as nat));
        assert forall|h: FieldHash| #[trigger] computes(*hash, h) implies d[0] == snap_lo(
            h,
            n_rows as nat,
            values@,
        ) by {
            reveal(computes);
            assert(d@ == h(x@));
        }
    }
    d[0]
}

/// Packs `values`, cut or padded with zeros to `n_rows` elements, into field
/// elements.
pub fn padded_field_elements(n_rows: usize, values: &[u64]) -> (r: Vec<FieldElement>)
    ensures
        words(r@) == padded(values@, n_rows as nat),
{
    let mut r: Vec<FieldElement> = Vec::new();
    let mut i: usize = 0;
    while i < n_rows
        invariant
            i <= n_rows,
            r@.len() == i,
            forall|k: int| 0 <= k < i ==> (#[trigger] r@[k]).0 == padded(values@, n_rows as nat)[k],
        decreases n_rows - i,
    {
        let v: u64 = if i < values.len() {
            values[i]
        } else {
            0
        };
        r.push(FieldElement(canonical(v)));
        i = i + 1;
    }
    assert(words(r@) =~= padded(values@, n_rows as nat));
    r
}

/// Hashes the bytes of a row, packed into field elements.
pub fn row_digest<H: Fn(&Vec<u64>) -> [u64; 4]>(row_bytes: &[u8], hash: &H) -> (r: [u64; 4])
    requires
        is_total(*hash),
    ensures
        forall|h: FieldHash| #[trigger] computes(*hash, h) ==> r@ == h(packed_words(row_bytes@)),
{
    let x: Vec<u64> = field_words(&bytes_to_field_elements(row_bytes));
    let d: [u64; 4] = hash(&x);
    assert forall|h: FieldHash| #[trigger] computes(*hash, h) implies d@ == h(
        packed_words(row_bytes@),
    ) by {
        reveal(computes);
    }
    d
}

/// The words of a list of field elements.
fn field_words(fes: &Vec<FieldElement>) -> (r: Vec<u64>)
    ensures
        r@ == words(fes@),
{
    let mut r: Vec<u64> = Vec::new();
    let mut i: usize = 0;
    while i < fes.len()
        invariant
            i <= fes@.len(),
            r@.len() == i,
            forall|k: int| 0 <= k < i ==> #[trigger] r@[k] == fes@[k].0,
        decreases fes@.len() - i,
    {
        r.push(fes[i].0);
        i = i + 1;
    }
    assert(r@ =~= words(fes@));
    r
}

/// Reads the first eight bytes of a row as a little-endian number; a shorter
/// row is padded with zeros.
pub fn row_primary_field_element(row_bytes: &[u8]) -> (r: u64)
    ensures
        r == primary(row_bytes@),
{
    let len: usize = if row_bytes.len() < 8 {
        row_bytes.len()
    } else {
        8
    };
    assert(row_bytes@.subrange(0, len as int) =~= row_bytes@.take(len as int));
    read_le(row_bytes, 0, len)
}

/// Packs bytes into field elements, eight little-endian bytes each. The last
/// group is padded with zeros.
pub fn bytes_to_field_elements(bytes: &[u8]) -> (r: Vec<FieldElement>)
    ensures
        words(r@) == packed_words(bytes@),
{
    let mut r: Vec<FieldElement> = Vec::new();
    let mut from: usize = 0;
    let n: usize = bytes.len();
    while from < n
        invariant
            n == bytes@.len(),
            from == n || from == 8 * r@.len(),
            from <= n,
            8 * r@.len() < n + 8,
            from == n ==> r@.len() == (n + 7) / 8,
            forall|i: int|
                0 <= i < r@.len() ==> (#[trigger] r@[i]).0 == residue(
                    le_value(chunk(bytes@, i)) as u64,
                ),
        decreases n - from,
    {
        let to: usize = if n - from >= 8 {
            from + 8
        } else {
            n
        };
        r.push(FieldElement(canonical(read_le(bytes, from, to))));
        from = to;
    }
    assert(words(r@) =~= packed_words(bytes@));
    r
}

/// Hashes the primary field elements of all rows, padded to `MAX_ROWS`, and
/// stores the first element of the digest in the first eight bytes of a root.
pub fn poseidon_snapshot_root<H: Fn(&Vec<u64>) -> [u64; 4]>(
    all_row_bytes: &[Vec<u8>],
    hash: &H,
) -> (r: [u8; 32])
    requires
        is_total(*hash),
    ensures
        forall|h: FieldHash| #[trigger]
            computes(*hash, h) ==> r@ == root_bytes(
                snap_lo(h, MAX_ROWS as nat, primaries(row_views(all_row_bytes@))),
            ),
{
    let mut fes: Vec<u64> = Vec::new();
    let mut i: usize = 0;
    while i < all_row_bytes.len()
        invariant
            i <= all_row_bytes@.len(),
            fes@.len() == i,
            forall|k: int| 0 <= k < i ==> #[trigger] fes@[k] == primary(all_row_bytes@[k]@),
        decreases all_row_bytes@.len() - i,
    {
        fes.push(row_primary_field_element(all_row_bytes[i].as_slice()));
        i = i + 1;
    }
    assert(fes@ =~= primaries(row_views(all_row_bytes@)));
    let lo: u64 = compute_snap_lo(MAX_ROWS, fes.as_slice(), hash);
    snapshot_root_from_lo(lo)
}

/// Stores `snap_lo` in the first eight bytes of a root.
pub fn snapshot_root_from_lo(lo: u64) -> (r: [u8; 32])
    ensures
        r@ == root_bytes(lo),
{
    let mut bytes: Vec<u8> = Vec::new();
    push_le(&mut bytes, lo);
    proof {
        le_bytes_len(lo as nat, 8);
        assert(bytes@ =~= le_bytes(lo as nat, 8));
    }
    let mut root: [u8; 32] = [0u8; 32];
    let mut i: usize = 0;
    while i < 8
        invariant
            i <= 8,
            bytes@.len() == 8,
            bytes@ == le_bytes(lo as nat, 8),
            forall|k: int| 0 <= k < i ==> #[trigger] root@[k] == bytes@[k],
            forall|k: int| i <= k < 32 ==> #[trigger] root@[k] == 0,
        decreases 8 - i,
    {
        root[i] = bytes[i];
        i = i + 1;
    }
    assert(root@ =~= root_bytes(lo));
    root
}

/// Reads `snap_lo` from a root.
pub fn commitment_lo(commitment: &[u8; 32]) -> (r: u64)
    ensures
        r == root_lo(commitment@),
{
    let s: &[u8] = commitment;
    assert(s@.subrange(0, 8) =~= commitment@.take(8));
    read_le(s, 0, 8)
}

/// Reading a snapshot root gives back the `snap_lo` that it was made from.
pub proof fn root_roundtrip(lo: u64)
    ensures
        root_lo(root_bytes(lo)) == lo,
        root_bytes(lo).len() == 32,
{
    pow256_8();
    le_roundtrip(lo as nat, 8);
    assert(root_bytes(lo).take(8) =~= le_bytes(lo as nat, 8));
}

/// The commitment sees at most `n` rows: rows that agree once cut or padded
/// with zeros have the same `snap_lo`.
pub proof fn snap_lo_of_padding(h: FieldHash, n: nat, values: Seq<u64>)
    ensures
        snap_lo(h, n, values.push(0)) == snap_lo(h, n, values),
        values.len() >= n ==> snap_lo(h, n, values.take(n as int)) == snap_lo(h, n, values),
{
    assert(padded(values.push(0), n) =~= padded(values, n));
    if values.len() >= n {
        assert(padded(values.take(n as int), n) =~= padded(values, n));
    }
}

} // verus!
