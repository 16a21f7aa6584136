//! What commitments are made of, byte by byte.

use vstd::prelude::*;

use crate::circuit::system::FieldHash;
use crate::commitment::poseidon::chunk;
use crate::commitment::poseidon::packed_words;
use crate::commitment::poseidon::primaries;
use crate::commitment::poseidon::primary;
use crate::commitment::poseidon::root_bytes;
use crate::commitment::poseidon::root_lo;
use crate::commitment::poseidon::snap_lo;
use crate::encoding::le_bytes;
use crate::encoding::le_roundtrip;
use crate::encoding::le_value;
use crate::encoding::pow256;
use crate::encoding::pow256_8;

verus! {

/// Byte `k`; where there is none, zero.
pub open spec fn byte_at(b: Seq<u8>, k: int) -> int {
    if 0 <= k < b.len() {
        b[k] as int
    } else {
        0
    }
}

/// The number in the eight bytes from `k` on, the lowest byte first. Bytes that
/// are not there count as zeros.
pub open spec fn word_at(b: Seq<u8>, k: int) -> int {
    byte_at(b, k) + 0x100 * byte_at(b, k + 1) + 0x1_0000 * byte_at(b, k + 2) + 0x100_0000 * byte_at(
        b,
        k + 3,
    ) + 0x1_0000_0000 * byte_at(b, k + 4) + 0x100_0000_0000 * byte_at(b, k + 5)
        + 0x1_0000_0000_0000 * byte_at(b, k + 6) + 0x100_0000_0000_0000 * byte_at(b, k + 7)
}

/// All bytes but the first.
spec fn tail(s: Seq<u8>) -> Seq<u8> {
    if s.len() > 0 {
        s.skip(1)
    } else {
        s
    }
}

proof fn first_and_tail(s: Seq<u8>)
    ensures
        le_value(s) == byte_at(s, 0) + 256 * le_value(tail(s)),
        forall|k: int| 0 <= k ==> #[trigger] byte_at(tail(s), k) == byte_at(s, k + 1),
        tail(s).len() == if s.len() > 0 {
            s.len() - 1
        } else {
            0
        },
{
    if s.len() == 0 {
        assert(le_value(s) == 0);
    }
}

/// At most eight bytes stand for the number that they spell.
pub proof fn bytes_spell_the_number(s: Seq<u8>)
    requires
        s.len() <= 8,
    ensures
        le_value(s) == word_at(s, 0),
        word_at(s, 0) < 0x1_0000_0000_0000_0000,
{
    let a = tail(s);
    let b = tail(a);
    let c = tail(b);
    let d = tail(c);
    let e = tail(d);
    let f = tail(e);
    let g = tail(f);
    let z = tail(g);
    first_and_tail(s);
    first_and_tail(a);
    first_and_tail(b);
    first_and_tail(c);
    first_and_tail(d);
    first_and_tail(e);
    first_and_tail(f);
    first_and_tail(g);
    assert(z.len() == 0);
    assert(le_value(z) == 0);
    assert(byte_at(a, 0) == byte_at(s, 1));
    assert(byte_at(b, 0) == byte_at(a, 1) == byte_at(s, 2));
    assert(byte_at(c, 0) == byte_at(b, 1) == byte_at(a, 2) == byte_at(s, 3));
    assert(byte_at(d, 0) == byte_at(c, 1) == byte_at(b, 2) == byte_at(a, 3) == byte_at(s, 4));
    assert(byte_at(e, 0) == byte_at(d, 1) == byte_at(c, 2) == byte_at(b, 3) == byte_at(a, 4)
        == byte_at(s, 5));
    assert(byte_at(f, 0) == byte_at(e, 1) == byte_at(d, 2) == byte_at(c, 3) == byte_at(b, 4)
        == byte_at(a, 5) == byte_at(s, 6));
    assert(byte_at(g, 0) == byte_at(f, 1) == byte_at(e, 2) == byte_at(d, 3) == byte_at(c, 4)
        == byte_at(b, 5) == byte_at(a, 6) == byte_at(s, 7));
}

/// A machine word is written as eight bytes that spell it.
pub proof fn words_are_spelled(v: u64)
    ensures
        le_bytes(v as nat, 8).len() == 8,
        word_at(le_bytes(v as nat, 8), 0) == v,
{
    pow256_8();
    assert(v < pow256(8));
    le_roundtrip(v as nat, 8);
    bytes_spell_the_number(le_bytes(v as nat, 8));
}

/// Eight bytes inside others spell what they spell alone.
pub proof fn word_inside(s: Seq<u8>, from: int, t: Seq<u8>)
    requires
        0 <= from,
        t.len() == 8,
        from + 8 <= s.len(),
        s.subrange(from, from + 8) == t,
    ensures
        word_at(s, from) == word_at(t, 0),
{
    assert(t[0] == s[from] && t[1] == s[from + 1] && t[2] == s[from + 2] && t[3] == s[from + 3]
        && t[4] == s[from + 4] && t[5] == s[from + 5] && t[6] == s[from + 6] && t[7] == s[from
        + 7]);
}

/// The key of a row is the number in its first eight bytes.
pub proof fn key_is_the_first_word(row: Seq<u8>)
    ensures
        primary(row) == word_at(row, 0),
{
    let n = if row.len() < 8 {
        row.len() as int
    } else {
        8
    };
    let s = row.take(n);
    bytes_spell_the_number(s);
    assert(byte_at(s, 0) == byte_at(row, 0) && byte_at(s, 1) == byte_at(row, 1) && byte_at(s, 2)
        == byte_at(row, 2) && byte_at(s, 3) == byte_at(row, 3) && byte_at(s, 4) == byte_at(row, 4)
        && byte_at(s, 5) == byte_at(row, 5) && byte_at(s, 6) == byte_at(row, 6) && byte_at(s, 7)
        == byte_at(row, 7));
}

/// The keys of rows stand in the order of the rows.
pub proof fn keys_are_first_words(rows: Seq<Seq<u8>>)
    ensures
        primaries(rows).len() == rows.len(),
        forall|i: int| 0 <= i < rows.len() ==> #[trigger] primaries(rows)[i] == word_at(rows[i], 0),
{
    assert forall|i: int| 0 <= i < rows.len() implies #[trigger] primaries(rows)[i] == word_at(
        rows[i],
        0,
    ) by {
        key_is_the_first_word(rows[i]);
    }
}

/// The bytes of a row are hashed whole and in order: as many field elements as
/// there are groups of eight bytes, each the number in its group.
pub proof fn whole_rows_are_hashed(bytes: Seq<u8>)
    ensures
        8 * packed_words(bytes).len() >= bytes.len(),
        8 * packed_words(bytes).len() < bytes.len() + 8,
        forall|i: int|
            0 <= i < packed_words(bytes).len() ==> #[trigger] packed_words(bytes)[i] == word_at(
                bytes,
                8 * i,
            ) % 0xFFFF_FFFF_0000_0001,
{
    assert forall|i: int| 0 <= i < packed_words(bytes).len() implies #[trigger] packed_words(
        bytes,
    )[i] == word_at(bytes, 8 * i) % 0xFFFF_FFFF_0000_0001 by {
        let s = chunk(bytes, i);
        let k = 8 * i;
        bytes_spell_the_number(s);
        assert(byte_at(s, 0) == byte_at(bytes, k) && byte_at(s, 1) == byte_at(bytes, k + 1)
            && byte_at(s, 2) == byte_at(bytes, k + 2) && byte_at(s, 3) == byte_at(bytes, k + 3)
            && byte_at(s, 4) == byte_at(bytes, k + 4) && byte_at(s, 5) == byte_at(bytes, k + 5)
            && byte_at(s, 6) == byte_at(bytes, k + 6) && byte_at(s, 7) == byte_at(bytes, k + 7));
        assert(word_at(s, 0) == word_at(bytes, k));
    }
}

/// A root spells its number in its first eight bytes, and is zero behind them.
pub proof fn roots_spell_their_number(lo: u64)
    ensures
        root_bytes(lo).len() == 32,
        word_at(root_bytes(lo), 0) == lo,
        forall|k: int| 8 <= k < 32 ==> #[trigger] root_bytes(lo)[k] == 0,
{
    words_are_spelled(lo);
    assert(root_bytes(lo).subrange(0, 8) =~= le_bytes(lo as nat, 8));
    word_inside(root_bytes(lo), 0, le_bytes(lo as nat, 8));
}

/// What is read of a root is the number that its first eight bytes spell.
pub proof fn roots_are_read_as_spelled(root: Seq<u8>)
    requires
        root.len() >= 8,
    ensures
        root_lo(root) == word_at(root, 0),
{
    let s = root.take(8);
    bytes_spell_the_number(s);
    assert(s == root.subrange(0, 8));
    word_inside(root, 0, s);
}

/// What is hashed of a column of values: the first `n` as field elements, and
/// zeros where there are fewer.
pub open spec fn hashed_values(n: nat, values: Seq<u64>) -> Seq<u64> {
    Seq::new(
        n,
        |i: int|
            if i < values.len() {
                (values[i] as int % 0xFFFF_FFFF_0000_0001) as u64
            } else {
                0
            },
    )
}

/// The commitment to a column is the first element of the hash of its values.
pub proof fn commitment_is_of_the_values(h: FieldHash, n: nat, values: Seq<u64>)
    ensures
        snap_lo(h, n, values) == h(hashed_values(n, values))[0],
{
    assert(crate::commitment::poseidon::padded(values, n) =~= hashed_values(n, values));
}

} // verus!
