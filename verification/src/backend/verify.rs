//! Sealing proofs into artifacts, and holding the public inputs that a proof
//! carries against those that its artifact records.

use vstd::prelude::*;

use crate::backend::classify::TAG_AGG;
use crate::backend::classify::TAG_DESC_SORT;
use crate::backend::classify::TAG_GROUP_BY;
use crate::backend::classify::TAG_JOIN;
use crate::backend::classify::TAG_SORT;
use crate::backend::plonky2::Plonky2Backend;
use crate::backend::plonky2::Plonky2CircuitHandle;
use crate::circuit::witness::WitnessTrace;
use crate::commitment::poseidon::commitment_lo;
use crate::commitment::poseidon::root_lo;
use crate::encoding::push_bytes;
use crate::outside::blake3_digest;
use crate::outside::blake3_hash;
use crate::outside::is_random_uuid;
use crate::proofs::artifacts::texts;
use crate::proofs::artifacts::DatasetBinding;
use crate::proofs::artifacts::ExternalAnchorStatus;
use crate::proofs::artifacts::ProofArtifact;
use crate::proofs::artifacts::ProofCapabilities;
use crate::proofs::artifacts::ProofScope;
use crate::proofs::artifacts::ProofSystemKind;
use crate::proofs::artifacts::PublicInputs;
use crate::proofs::artifacts::ResultCommitmentKind;
use crate::proofs::artifacts::VerificationResult;
use crate::text::decimal;
use crate::text::hex_word;
use crate::text::push_decimal;
use crate::text::push_hex_word;
use crate::types::BackendTag;
use crate::types::ProofId;
use crate::types::ZkDbError;
use crate::types::ZkResult;

verus! {

/// A public input of a proof; one that is not there counts as zero.
pub open spec fn pi(pis: Seq<u64>, i: int) -> u64 {
    if 0 <= i < pis.len() {
        pis[i]
    } else {
        0
    }
}

/// Reads a public input.
fn get(pis: &Vec<u64>, i: usize) -> (r: u64)
    ensures
        r == pi(pis@, i as int),
{
    if i < pis.len() {
        pis[i]
    } else {
        0
    }
}

/// At most the first 32 bytes of a proof.
pub open spec fn proof_prefix(proof_bytes: Seq<u8>) -> Seq<u8> {
    if proof_bytes.len() <= 32 {
        proof_bytes
    } else {
        proof_bytes.take(32)
    }
}

/// What an artifact records of a proof: the public inputs that belong to the
/// circuit are those that the proof carries, and the rest comes from the
/// witness.
pub open spec fn records(
    p: PublicInputs,
    tag: u8,
    w: WitnessTrace,
    proof_bytes: Seq<u8>,
    pis: Seq<u64>,
) -> bool {
    let agg = tag == TAG_AGG;
    let sort = tag == TAG_SORT || tag == TAG_DESC_SORT;
    let group = tag == TAG_GROUP_BY;
    let join = tag == TAG_JOIN;
    &&& p.snapshot_root == w.snapshot_root
    &&& p.query_hash == w.query_hash
    &&& p.result_commitment@ == blake3_digest(
        w.snapshot_root@ + w.query_hash@ + w.result_commitment@ + proof_prefix(proof_bytes),
    )
    &&& p.result_row_count == if agg && pis.len() > 3 {
        pis[3]
    } else {
        w.result_row_count
    }
    &&& p.result_sum == if sort {
        0
    } else {
        pi(pis, 2)
    }
    &&& p.result_commit_lo == if group {
        pi(pis, 6)
    } else if join {
        pi(pis, 5)
    } else {
        pi(pis, 4)
    }
    &&& p.group_output_lo == if group {
        w.group_output_lo
    } else {
        0
    }
    &&& p.join_right_snap_lo == if join {
        w.join_right_snap_lo
    } else {
        0
    }
    &&& p.join_unmatched_count == if join {
        pi(pis, 6)
    } else {
        0
    }
    &&& p.pred_op == if agg {
        pi(pis, 5)
    } else {
        0
    }
    &&& p.pred_val == if agg {
        pi(pis, 6)
    } else {
        0
    }
    &&& p.sort_secondary_snap_lo == if sort {
        pi(pis, 5)
    } else {
        0
    }
    &&& p.sort_secondary_hi_snap_lo == if sort {
        pi(pis, 6)
    } else {
        0
    }
    &&& p.group_vals_snap_lo == if group {
        pi(pis, 7)
    } else {
        0
    }
    &&& p.agg_n_real == if agg {
        pi(pis, 7)
    } else {
        0
    }
}

/// What the artifacts of this backend establish.
pub open spec fn plonky2_capabilities() -> ProofCapabilities {
    ProofCapabilities {
        proof_scope: ProofScope::SingleOperator,
        dataset_binding: DatasetBinding::Full,
        join_completeness_proved: true,
        group_output_decomposed: false,
        result_commitment_kind: ResultCommitmentKind::PoseidonProved,
    }
}

/// `a` is the artifact of a proof: it carries the proof, the tagged verification
/// key and the identifiers of the compiled plan, and records what the proof and
/// the witness say.
pub open spec fn sealed(
    a: ProofArtifact,
    handle: Plonky2CircuitHandle,
    w: WitnessTrace,
    raw_vk: Seq<u8>,
    proof_bytes: Seq<u8>,
    pis: Seq<u64>,
    created_at_ms: u64,
) -> bool {
    let tag = handle.circuit.spec_tag();
    &&& is_random_uuid(a.proof_id.0)
    &&& a.query_id == handle.query_id
    &&& a.snapshot_id == handle.snapshot_id
    &&& a.backend == BackendTag::Plonky2
    &&& a.proof_system == ProofSystemKind::Plonky2Snark
    &&& a.capabilities == plonky2_capabilities()
    &&& a.proof_bytes@ == proof_bytes
    &&& records(a.public_inputs, tag, w, proof_bytes, pis)
    &&& a.verification_key_bytes@ == seq![tag] + raw_vk
    &&& a.created_at_ms == created_at_ms
}

impl Plonky2Backend {
    /// Makes an artifact of a proof. `raw_vk` is the verification key of the
    /// proof system, to which the circuit's tag is prefixed; `public_values` are
    /// the public inputs that the proof carries, none where they could not be
    /// read.
    pub fn seal_proof(
        handle: &Plonky2CircuitHandle,
        witness: &WitnessTrace,
        raw_vk: &[u8],
        proof_bytes: Vec<u8>,
        public_values: &Vec<u64>,
        created_at_ms: u64,
    ) -> (r: ProofArtifact)
        ensures
            is_random_uuid(r.proof_id.0),
            r.query_id == handle.query_id,
            r.snapshot_id == handle.snapshot_id,
            r.backend == BackendTag::Plonky2,
            r.proof_system == ProofSystemKind::Plonky2Snark,
            r.capabilities == plonky2_capabilities(),
            r.proof_bytes@ == proof_bytes@,
            records(
                r.public_inputs,
                handle.circuit.spec_tag(),
                *witness,
                proof_bytes@,
                public_values@,
            ),
            r.verification_key_bytes@ == seq![handle.circuit.spec_tag()] + raw_vk@,
            r.created_at_ms == created_at_ms,
            sealed(
                r,
                *handle,
                *witness,
                raw_vk@,
                proof_bytes@,
                public_values@,
                created_at_ms,
            ),
    {
        let tag: u8 = handle.circuit.tag();
        let mut vk: Vec<u8> = Vec::new();
        vk.push(tag);
        push_bytes(&mut vk, raw_vk);
        assert(vk@ =~= seq![tag] + raw_vk@);
        let mut bound: Vec<u8> = Vec::new();
        push_bytes(&mut bound, &witness.snapshot_root);
        push_bytes(&mut bound, &witness.query_hash);
        push_bytes(&mut bound, &witness.result_commitment);
        let prefix: usize = if proof_bytes.len() <= 32 {
            proof_bytes.len()
        } else {
            32
        };
        push_bytes(&mut bound, vstd::slice::slice_subrange(proof_bytes.as_slice(), 0, prefix));
        assert(bound@ =~= witness.snapshot_root@ + witness.query_hash@ + witness.result_commitment@
            + proof_prefix(proof_bytes@));
        let result_commitment: [u8; 32] = blake3_hash(bound.as_slice());
        let agg: bool = tag == TAG_AGG;
        let sort: bool = tag == TAG_SORT || tag == TAG_DESC_SORT;
        let group: bool = tag == TAG_GROUP_BY;
        let join: bool = tag == TAG_JOIN;
        let public_inputs: PublicInputs = PublicInputs {
            snapshot_root: witness.snapshot_root,
            query_hash: witness.query_hash,
            result_commitment,
            result_row_count: if agg && public_values.len() > 3 {
                public_values[3]
            } else {
                witness.result_row_count
            },
            result_sum: if sort {
                0
            } else {
                get(public_values, 2)
            },
            result_commit_lo: if group {
                get(public_values, 6)
            } else if join {
                get(public_values, 5)
            } else {
                get(public_values, 4)
            },
            group_output_lo: if group {
                witness.group_output_lo
            } else {
                0
            },
            join_right_snap_lo: if join {
                witness.join_right_snap_lo
            } else {
                0
            },
            join_unmatched_count: if join {
                get(public_values, 6)
            } else {
                0
            },
            pred_op: if agg {
                get(public_values, 5)
            } else {
                0
            },
            pred_val: if agg {
                get(public_values, 6)
            } else {
                0
            },
            sort_secondary_snap_lo: if sort {
                get(public_values, 5)
            } else {
                0
            },
            sort_secondary_hi_snap_lo: if sort {
                get(public_values, 6)
            } else {
                0
            },
            group_vals_snap_lo: if group {
                get(public_values, 7)
            } else {
                0
            },
            agg_n_real: if agg {
                get(public_values, 7)
            } else {
                0
            },
        };
        ProofArtifact {
            proof_id: ProofId::new(),
            query_id: handle.query_id,
            snapshot_id: handle.snapshot_id,
            backend: BackendTag::Plonky2,
            proof_system: ProofSystemKind::Plonky2Snark,
            capabilities: ProofCapabilities {
                proof_scope: ProofScope::SingleOperator,
                dataset_binding: DatasetBinding::Full,
                join_completeness_proved: true,
                group_output_decomposed: false,
                result_commitment_kind: ResultCommitmentKind::PoseidonProved,
            },
            proof_bytes,
            public_inputs,
            verification_key_bytes: vk,
            created_at_ms,
        }
    }
}

/// The tag that an artifact's verification key starts with; an empty key stands
/// for the aggregation circuit.
pub open spec fn key_tag(vk: Seq<u8>) -> u8 {
    if vk.len() == 0 {
        TAG_AGG
    } else {
        vk[0]
    }
}

/// Two numbers in hexadecimal that should agree.
pub open spec fn hex_pair(label: Seq<char>, a: u64, middle: Seq<char>, b: u64) -> Seq<char> {
    label + hex_word(a) + middle + hex_word(b)
}

/// Two numbers in decimal that should agree.
pub open spec fn decimal_pair(label: Seq<char>, a: u64, middle: Seq<char>, b: u64) -> Seq<char> {
    label + decimal(a as nat) + middle + decimal(b as nat)
}

/// A number in hexadecimal with text around it.
pub open spec fn hex_note(before: Seq<char>, a: u64, after: Seq<char>) -> Seq<char> {
    before + hex_word(a) + after
}

/// A list of one text, where the condition holds.
pub open spec fn note_if(c: bool, m: Seq<char>) -> Seq<Seq<char>> {
    if c {
        seq![m]
    } else {
        Seq::empty()
    }
}

fn hex_pair_text(label: &str, a: u64, middle: &str, b: u64) -> (r: String)
    ensures
        r@ == hex_pair(label@, a, middle@, b),
{
    let mut m: String = label.to_owned();
    push_hex_word(&mut m, a);
    m.append(middle);
    push_hex_word(&mut m, b);
    m
}

fn decimal_pair_text(label: &str, a: u64, middle: &str, b: u64) -> (r: String)
    ensures
        r@ == decimal_pair(label@, a, middle@, b),
{
    let mut m: String = label.to_owned();
    push_decimal(&mut m, a);
    m.append(middle);
    push_decimal(&mut m, b);
    m
}

fn hex_note_text(before: &str, a: u64, after: &str) -> (r: String)
    ensures
        r@ == hex_note(before@, a, after@),
{
    let mut m: String = before.to_owned();
    push_hex_word(&mut m, a);
    m.append(after);
    m
}

/// Appends a text to a list of texts.
fn push_note(out: &mut Vec<String>, m: String)
    ensures
        texts(final(out)@) == texts(old(out)@) + seq![m@],
{
    out.push(m);
    assert(texts(out@) =~= texts(old(out)@) + seq![m@]);
}

/// The first disagreement of an aggregation proof with its artifact.
pub open spec fn agg_failure(pis: Seq<u64>, p: PublicInputs) -> Option<Seq<char>> {
    if pi(pis, 3) != p.result_row_count {
        Some(
            decimal_pair(
                "count mismatch: proof PI[3]="@,
                pi(pis, 3),
                " != artifact result_row_count="@,
                p.result_row_count,
            ),
        )
    } else if pi(pis, 2) != p.result_sum {
        Some(
            decimal_pair(
                "sum mismatch: proof PI[2]="@,
                pi(pis, 2),
                " != artifact result_sum="@,
                p.result_sum,
            ),
        )
    } else if p.result_commit_lo != 0 && pi(pis, 4) != p.result_commit_lo {
        Some(
            hex_pair(
                "result_commit_lo mismatch: proof PI[4]="@,
                pi(pis, 4),
                " != artifact result_commit_lo="@,
                p.result_commit_lo,
            ),
        )
    } else if pi(pis, 5) != p.pred_op {
        Some(
            decimal_pair(
                "pred_op mismatch: proof PI[5]="@,
                pi(pis, 5),
                " != artifact pred_op="@,
                p.pred_op,
            ),
        )
    } else if p.pred_op != 0 && pi(pis, 6) != p.pred_val {
        Some(
            decimal_pair(
                "pred_val mismatch: proof PI[6]="@,
                pi(pis, 6),
                " != artifact pred_val="@,
                p.pred_val,
            ),
        )
    } else if p.agg_n_real != 0 && pi(pis, 7) != p.agg_n_real {
        Some(
            decimal_pair(
                "agg n_real mismatch: proof PI[7]="@,
                pi(pis, 7),
                " != artifact agg_n_real="@,
                p.agg_n_real,
            ),
        )
    } else {
        None
    }
}

/// What cannot be held against an aggregation artifact.
pub open spec fn agg_warnings(pis: Seq<u64>, p: PublicInputs) -> Seq<Seq<char>> {
    note_if(
        p.result_commit_lo == 0,
        hex_note(
            "agg result_commit_lo not recorded in artifact (proof carries PI[4]="@,
            pi(pis, 4),
            "); tamper-detection for result commitment is limited on this artifact"@,
        ),
    ) + note_if(
        p.agg_n_real == 0,
        "agg_n_real not recorded in artifact (proof carries PI[7]="@ + decimal(pi(pis, 7) as nat)
            + "); this is a legacy artifact — padding-isolation guarantees are unknown."@,
    )
}

/// The first disagreement of a sort proof with its artifact.
pub open spec fn sort_failure(pis: Seq<u64>, p: PublicInputs) -> Option<Seq<char>> {
    if p.result_commit_lo != 0 && pi(pis, 4) != p.result_commit_lo {
        Some(
            hex_pair(
                "sort result_commit_lo mismatch: proof PI[4]="@,
                pi(pis, 4),
                " != artifact result_commit_lo="@,
                p.result_commit_lo,
            ),
        )
    } else if p.sort_secondary_snap_lo != 0 && pi(pis, 5) != p.sort_secondary_snap_lo {
        Some(
            hex_pair(
                "sort_secondary_snap_lo mismatch: proof PI[5]="@,
                pi(pis, 5),
                " != artifact.sort_secondary_snap_lo="@,
                p.sort_secondary_snap_lo,
            ),
        )
    } else if p.sort_secondary_hi_snap_lo != 0 && pi(pis, 6) != p.sort_secondary_hi_snap_lo {
        Some(
            hex_pair(
                "sort_secondary_hi_snap_lo mismatch: proof PI[6]="@,
                pi(pis, 6),
                " != artifact.sort_secondary_hi_snap_lo="@,
                p.sort_secondary_hi_snap_lo,
            ),
        )
    } else {
        None
    }
}

/// What cannot be held against a sort artifact.
pub open spec fn sort_warnings(pis: Seq<u64>, p: PublicInputs) -> Seq<Seq<char>> {
    note_if(
        p.result_commit_lo == 0,
        hex_note(
            "sort result_commit_lo not recorded in artifact (proof carries PI[4]="@,
            pi(pis, 4),
            "); tamper-detection for result commitment is limited on this artifact"@,
        ),
    ) + note_if(
        p.sort_secondary_snap_lo == 0,
        "sort_secondary_snap_lo is zero: sort proof is in key-only mode (no lo fingerprint). Row-payload binding is NOT enforced — a prover could reorder non-key column values without detection. Ensure WitnessBuilder populates the secondary columns."@,
    ) + note_if(
        p.sort_secondary_hi_snap_lo == 0 && p.sort_secondary_snap_lo != 0,
        "sort_secondary_hi_snap_lo is zero: artifact was produced by the older 64-bit fingerprint circuit. Payload collision resistance is ~2⁻⁶⁴ instead of ~2⁻¹²⁸. Re-prove with the updated circuit to obtain full 128-bit binding."@,
    )
}

/// The first disagreement of a join proof with its artifact.
pub open spec fn join_failure(pis: Seq<u64>, p: PublicInputs) -> Option<Seq<char>> {
    if p.join_right_snap_lo != 0 && pi(pis, 4) != p.join_right_snap_lo {
        Some(
            hex_pair(
                "join right_snap_lo mismatch: proof PI[4]="@,
                pi(pis, 4),
                " != artifact join_right_snap_lo="@,
                p.join_right_snap_lo,
            ),
        )
    } else if p.result_commit_lo != 0 && pi(pis, 5) != p.result_commit_lo {
        Some(
            hex_pair(
                "join result_commit_lo mismatch: proof PI[5]="@,
                pi(pis, 5),
                " != artifact result_commit_lo="@,
                p.result_commit_lo,
            ),
        )
    } else if pi(pis, 6) != p.join_unmatched_count {
        Some(
            decimal_pair(
                "join unmatched_count mismatch: proof PI[6]="@,
                pi(pis, 6),
                " != artifact join_unmatched_count="@,
                p.join_unmatched_count,
            ),
        )
    } else {
        None
    }
}

/// What cannot be held against a join artifact. A join proof never shows that
/// matches across positions are complete.
pub open spec fn join_warnings(pis: Seq<u64>, p: PublicInputs) -> Seq<Seq<char>> {
    note_if(
        p.join_right_snap_lo == 0,
        hex_note(
            "join right_snap_lo not recorded in artifact (proof carries PI[4]="@,
            pi(pis, 4),
            "); right-side dataset binding cannot be verified — right-table substitution attack possible"@,
        ),
    ) + note_if(
        p.result_commit_lo == 0,
        hex_note(
            "join result_commit_lo not recorded in artifact (proof carries PI[5]="@,
            pi(pis, 5),
            "); tamper-detection for result commitment is limited on this artifact"@,
        ),
    ) + seq![
        "join completeness is proved for aligned rows only: matches across positions can still be omitted, so relational completeness is not proved"@,
    ]
}

/// The first disagreement of a grouping proof with its artifact.
pub open spec fn group_failure(pis: Seq<u64>, p: PublicInputs) -> Option<Seq<char>> {
    if p.group_output_lo != 0 && pi(pis, 5) != p.group_output_lo {
        Some(
            hex_pair(
                "group_output_lo mismatch: proof PI[5]="@,
                pi(pis, 5),
                " != artifact group_output_lo="@,
                p.group_output_lo,
            ),
        )
    } else if p.result_commit_lo != 0 && pi(pis, 6) != p.result_commit_lo {
        Some(
            hex_pair(
                "groupby result_commit_lo mismatch: proof PI[6]="@,
                pi(pis, 6),
                " != artifact result_commit_lo="@,
                p.result_commit_lo,
            ),
        )
    } else if p.group_vals_snap_lo != 0 && pi(pis, 7) != p.group_vals_snap_lo {
        Some(
            hex_pair(
                "group_vals_snap_lo mismatch: proof PI[7]="@,
                pi(pis, 7),
                " != artifact group_vals_snap_lo="@,
                p.group_vals_snap_lo,
            ) + ". The aggregation value column does not match the committed dataset."@,
        )
    } else {
        None
    }
}

/// What cannot be held against a grouping artifact.
pub open spec fn group_warnings(pis: Seq<u64>, p: PublicInputs) -> Seq<Seq<char>> {
    note_if(
        p.group_output_lo == 0,
        hex_note(
            "group_output_lo not recorded in artifact (proof carries PI[5]="@,
            pi(pis, 5),
            "); per-group aggregate commitment cannot be verified"@,
        ),
    ) + note_if(
        p.result_commit_lo == 0,
        hex_note(
            "groupby result_commit_lo not recorded in artifact (proof carries PI[6]="@,
            pi(pis, 6),
            "); tamper-detection for result commitment is limited on this artifact"@,
        ),
    ) + note_if(
        p.group_vals_snap_lo == 0,
        hex_note(
            "group_vals_snap_lo not recorded in artifact (proof carries PI[7]="@,
            pi(pis, 7),
            "); value-column (SUM/AVG source) binding cannot be verified on this artifact. Reproving with the current circuit version will populate this field."@,
        ),
    )
}

/// The first disagreement of a proof with its artifact: snapshot and query
/// first, then what belongs to the circuit.
pub open spec fn pi_failure(tag: u8, pis: Seq<u64>, p: PublicInputs) -> Option<Seq<char>> {
    if pi(pis, 0) != root_lo(p.snapshot_root@) {
        Some(
            hex_pair(
                "snap_lo mismatch: proof PI[0]="@,
                pi(pis, 0),
                " != artifact snapshot_root[..8]="@,
                root_lo(p.snapshot_root@),
            ),
        )
    } else if pi(pis, 1) != root_lo(p.query_hash@) {
        Some(
            hex_pair(
                "qhash_lo mismatch: proof PI[1]="@,
                pi(pis, 1),
                " != artifact query_hash[..8]="@,
                root_lo(p.query_hash@),
            ),
        )
    } else if tag == TAG_AGG {
        agg_failure(pis, p)
    } else if tag == TAG_SORT || tag == TAG_DESC_SORT {
        sort_failure(pis, p)
    } else if tag == TAG_JOIN {
        join_failure(pis, p)
    } else if tag == TAG_GROUP_BY {
        group_failure(pis, p)
    } else {
        None
    }
}

/// What could not be held against an artifact that agrees with its proof.
pub open spec fn pi_warnings(tag: u8, pis: Seq<u64>, p: PublicInputs) -> Seq<Seq<char>> {
    if tag == TAG_AGG {
        agg_warnings(pis, p)
    } else if tag == TAG_SORT || tag == TAG_DESC_SORT {
        sort_warnings(pis, p)
    } else if tag == TAG_JOIN {
        join_warnings(pis, p)
    } else if tag == TAG_GROUP_BY {
        group_warnings(pis, p)
    } else {
        Seq::empty()
    }
}

/// An optional string holds an optional text.
pub open spec fn says(s: Option<String>, m: Option<Seq<char>>) -> bool {
    match s {
        Some(x) => m == Some(x@),
        None => m is None,
    }
}

/// Finds the first disagreement of an aggregation proof with its artifact.
fn find_agg_failure(pis: &Vec<u64>, p: &PublicInputs) -> (r: Option<String>)
    ensures
        says(r, agg_failure(pis@, *p)),
{
    let count: u64 = get(pis, 3);
    if count != p.result_row_count {
        return Some(
            decimal_pair_text(
                "count mismatch: proof PI[3]=",
                count,
                " != artifact result_row_count=",
                p.result_row_count,
            ),
        );
    }
    let sum: u64 = get(pis, 2);
    if sum != p.result_sum {
        return Some(
            decimal_pair_text(
                "sum mismatch: proof PI[2]=",
                sum,
                " != artifact result_sum=",
                p.result_sum,
            ),
        );
    }
    let commit: u64 = get(pis, 4);
    if p.result_commit_lo != 0 && commit != p.result_commit_lo {
        return Some(
            hex_pair_text(
                "result_commit_lo mismatch: proof PI[4]=",
                commit,
                " != artifact result_commit_lo=",
                p.result_commit_lo,
            ),
        );
    }
    let op: u64 = get(pis, 5);
    if op != p.pred_op {
        return Some(
            decimal_pair_text(
                "pred_op mismatch: proof PI[5]=",
                op,
                " != artifact pred_op=",
                p.pred_op,
            ),
        );
    }
    let val: u64 = get(pis, 6);
    if p.pred_op != 0 && val != p.pred_val {
        return Some(
            decimal_pair_text(
                "pred_val mismatch: proof PI[6]=",
                val,
                " != artifact pred_val=",
                p.pred_val,
            ),
        );
    }
    let n_real: u64 = get(pis, 7);
    if p.agg_n_real != 0 && n_real != p.agg_n_real {
        return Some(
            decimal_pair_text(
                "agg n_real mismatch: proof PI[7]=",
                n_real,
                " != artifact agg_n_real=",
                p.agg_n_real,
            ),
        );
    }
    None
}

/// Lists what cannot be held against an aggregation artifact.
fn list_agg_warnings(pis: &Vec<u64>, p: &PublicInputs) -> (r: Vec<String>)
    ensures
        texts(r@) == agg_warnings(pis@, *p),
{
    let mut r: Vec<String> = Vec::new();
    assert(texts(r@) =~= Seq::<Seq<char>>::empty());
    if p.result_commit_lo == 0 {
        push_note(
            &mut r,
            hex_note_text(
                "agg result_commit_lo not recorded in artifact (proof carries PI[4]=",
                get(pis, 4),
                "); tamper-detection for result commitment is limited on this artifact",
            ),
        );
    }
    if p.agg_n_real == 0 {
        let mut m: String = "agg_n_real not recorded in artifact (proof carries PI[7]=".to_owned();
        push_decimal(&mut m, get(pis, 7));
        m.append("); this is a legacy artifact — padding-isolation guarantees are unknown.");
        push_note(&mut r, m);
    }
    assert(texts(r@) =~= agg_warnings(pis@, *p));
    r
}

/// Finds the first disagreement of a sort proof with its artifact.
fn find_sort_failure(pis: &Vec<u64>, p: &PublicInputs) -> (r: Option<String>)
    ensures
        says(r, sort_failure(pis@, *p)),
{
    let commit: u64 = get(pis, 4);
    if p.result_commit_lo != 0 && commit != p.result_commit_lo {
        return Some(
            hex_pair_text(
                "sort result_commit_lo mismatch: proof PI[4]=",
                commit,
                " != artifact result_commit_lo=",
                p.result_commit_lo,
            ),
        );
    }
    let lo: u64 = get(pis, 5);
    if p.sort_secondary_snap_lo != 0 && lo != p.sort_secondary_snap_lo {
        return Some(
            hex_pair_text(
                "sort_secondary_snap_lo mismatch: proof PI[5]=",
                lo,
                " != artifact.sort_secondary_snap_lo=",
                p.sort_secondary_snap_lo,
            ),
        );
    }
    let hi: u64 = get(pis, 6);
    if p.sort_secondary_hi_snap_lo != 0 && hi != p.sort_secondary_hi_snap_lo {
        return Some(
            hex_pair_text(
                "sort_secondary_hi_snap_lo mismatch: proof PI[6]=",
                hi,
                " != artifact.sort_secondary_hi_snap_lo=",
                p.sort_secondary_hi_snap_lo,
            ),
        );
    }
    None
}

/// Lists what cannot be held against a sort artifact.
fn list_sort_warnings(pis: &Vec<u64>, p: &PublicInputs) -> (r: Vec<String>)
    ensures
        texts(r@) == sort_warnings(pis@, *p),
{
    let mut r: Vec<String> = Vec::new();
    assert(texts(r@) =~= Seq::<Seq<char>>::empty());
    if p.result_commit_lo == 0 {
        push_note(
            &mut r,
            hex_note_text(
                "sort result_commit_lo not recorded in artifact (proof carries PI[4]=",
                get(pis, 4),
                "); tamper-detection for result commitment is limited on this artifact",
            ),
        );
    }
    if p.sort_secondary_snap_lo == 0 {
        push_note(
            &mut r,
            "sort_secondary_snap_lo is zero: sort proof is in key-only mode (no lo fingerprint). Row-payload binding is NOT enforced — a prover could reorder non-key column values without detection. Ensure WitnessBuilder populates the secondary columns.".to_owned(),
        );
    }
    if p.sort_secondary_hi_snap_lo == 0 && p.sort_secondary_snap_lo != 0 {
        push_note(
            &mut r,
            "sort_secondary_hi_snap_lo is zero: artifact was produced by the older 64-bit fingerprint circuit. Payload collision resistance is ~2⁻⁶⁴ instead of ~2⁻¹²⁸. Re-prove with the updated circuit to obtain full 128-bit binding.".to_owned(),
        );
    }
    assert(texts(r@) =~= sort_warnings(pis@, *p));
    r
}

/// Finds the first disagreement of a join proof with its artifact.
fn find_join_failure(pis: &Vec<u64>, p: &PublicInputs) -> (r: Option<String>)
    ensures
        says(r, join_failure(pis@, *p)),
{
    let right: u64 = get(pis, 4);
    if p.join_right_snap_lo != 0 && right != p.join_right_snap_lo {
        return Some(
            hex_pair_text(
                "join right_snap_lo mismatch: proof PI[4]=",
                right,
                " != artifact join_right_snap_lo=",
                p.join_right_snap_lo,
            ),
        );
    }
    let commit: u64 = get(pis, 5);
    if p.result_commit_lo != 0 && commit != p.result_commit_lo {
        return Some(
            hex_pair_text(
                "join result_commit_lo mismatch: proof PI[5]=",
                commit,
                " != artifact result_commit_lo=",
                p.result_commit_lo,
            ),
        );
    }
    let unmatched: u64 = get(pis, 6);
    if unmatched != p.join_unmatched_count {
        return Some(
            decimal_pair_text(
                "join unmatched_count mismatch: proof PI[6]=",
                unmatched,
                " != artifact join_unmatched_count=",
                p.join_unmatched_count,
            ),
        );
    }
    None
}

/// Lists what cannot be held against a join artifact.
fn list_join_warnings(pis: &Vec<u64>, p: &PublicInputs) -> (r: Vec<String>)
    ensures
        texts(r@) == join_warnings(pis@, *p),
{
    let mut r: Vec<String> = Vec::new();
    assert(texts(r@) =~= Seq::<Seq<char>>::empty());
    if p.join_right_snap_lo == 0 {
        push_note(
            &mut r,
            hex_note_text(
                "join right_snap_lo not recorded in artifact (proof carries PI[4]=",
                get(pis, 4),
                "); right-side dataset binding cannot be verified — right-table substitution attack possible",
            ),
        );
    }
    if p.result_commit_lo == 0 {
        push_note(
            &mut r,
            hex_note_text(
                "join result_commit_lo not recorded in artifact (proof carries PI[5]=",
                get(pis, 5),
                "); tamper-detection for result commitment is limited on this artifact",
            ),
        );
    }
    push_note(
        &mut r,
        "join completeness is proved for aligned rows only: matches across positions can still be omitted, so relational completeness is not proved".to_owned(),
    );
    assert(texts(r@) =~= join_warnings(pis@, *p));
    r
}

/// Finds the first disagreement of a grouping proof with its artifact.
fn find_group_failure(pis: &Vec<u64>, p: &PublicInputs) -> (r: Option<String>)
    ensures
        says(r, group_failure(pis@, *p)),
{
    let output: u64 = get(pis, 5);
    if p.group_output_lo != 0 && output != p.group_output_lo {
        return Some(
            hex_pair_text(
                "group_output_lo mismatch: proof PI[5]=",
                output,
                " != artifact group_output_lo=",
                p.group_output_lo,
            ),
        );
    }
    let commit: u64 = get(pis, 6);
    if p.result_commit_lo != 0 && commit != p.result_commit_lo {
        return Some(
            hex_pair_text(
                "groupby result_commit_lo mismatch: proof PI[6]=",
                commit,
                " != artifact result_commit_lo=",
                p.result_commit_lo,
            ),
        );
    }
    let vals: u64 = get(pis, 7);
    if p.group_vals_snap_lo != 0 && vals != p.group_vals_snap_lo {
        let mut m: String = hex_pair_text(
            "group_vals_snap_lo mismatch: proof PI[7]=",
            vals,
            " != artifact group_vals_snap_lo=",
            p.group_vals_snap_lo,
        );
        m.append(". The aggregation value column does not match the committed dataset.");
        return Some(m);
    }
    None
}

/// Lists what cannot be held against a grouping artifact.
fn list_group_warnings(pis: &Vec<u64>, p: &PublicInputs) -> (r: Vec<String>)
    ensures
        texts(r@) == group_warnings(pis@, *p),
{
    let mut r: Vec<String> = Vec::new();
    assert(texts(r@) =~= Seq::<Seq<char>>::empty());
    if p.group_output_lo == 0 {
        push_note(
            &mut r,
            hex_note_text(
                "group_output_lo not recorded in artifact (proof carries PI[5]=",
                get(pis, 5),
                "); per-group aggregate commitment cannot be verified",
            ),
        );
    }
    if p.result_commit_lo == 0 {
        push_note(
            &mut r,
            hex_note_text(
                "groupby result_commit_lo not recorded in artifact (proof carries PI[6]=",
                get(pis, 6),
                "); tamper-detection for result commitment is limited on this artifact",
            ),
        );
    }
    if p.group_vals_snap_lo == 0 {
        push_note(
            &mut r,
            hex_note_text(
                "group_vals_snap_lo not recorded in artifact (proof carries PI[7]=",
                get(pis, 7),
                "); value-column (SUM/AVG source) binding cannot be verified on this artifact. Reproving with the current circuit version will populate this field.",
            ),
        );
    }
    assert(texts(r@) =~= group_warnings(pis@, *p));
    r
}

/// Finds the first disagreement of a proof with its artifact.
fn find_pi_failure(tag: u8, pis: &Vec<u64>, p: &PublicInputs) -> (r: Option<String>)
    ensures
        says(r, pi_failure(tag, pis@, *p)),
{
    let snap: u64 = get(pis, 0);
    let expected_snap: u64 = commitment_lo(&p.snapshot_root);
    if snap != expected_snap {
        return Some(
            hex_pair_text(
                "snap_lo mismatch: proof PI[0]=",
                snap,
                " != artifact snapshot_root[..8]=",
                expected_snap,
            ),
        );
    }
    let qhash: u64 = get(pis, 1);
    let expected_qhash: u64 = commitment_lo(&p.query_hash);
    if qhash != expected_qhash {
        return Some(
            hex_pair_text(
                "qhash_lo mismatch: proof PI[1]=",
                qhash,
                " != artifact query_hash[..8]=",
                expected_qhash,
            ),
        );
    }
    if tag == TAG_AGG {
        find_agg_failure(pis, p)
    } else if tag == TAG_SORT || tag == TAG_DESC_SORT {
        find_sort_failure(pis, p)
    } else if tag == TAG_JOIN {
        find_join_failure(pis, p)
    } else if tag == TAG_GROUP_BY {
        find_group_failure(pis, p)
    } else {
        None
    }
}

/// Lists what could not be held against an artifact.
fn list_pi_warnings(tag: u8, pis: &Vec<u64>, p: &PublicInputs) -> (r: Vec<String>)
    ensures
        texts(r@) == pi_warnings(tag, pis@, *p),
{
    if tag == TAG_AGG {
        list_agg_warnings(pis, p)
    } else if tag == TAG_SORT || tag == TAG_DESC_SORT {
        list_sort_warnings(pis, p)
    } else if tag == TAG_JOIN {
        list_join_warnings(pis, p)
    } else if tag == TAG_GROUP_BY {
        list_group_warnings(pis, p)
    } else {
        let r: Vec<String> = Vec::new();
        assert(texts(r@) =~= Seq::<Seq<char>>::empty());
        r
    }
}

/// Why an artifact is rejected, if it is: the proof system rejects the proof,
/// the proof's public inputs cannot be read, or they disagree with the artifact.
pub open spec fn rejection(
    a: ProofArtifact,
    checked: Result<(), String>,
    public_values: Result<Vec<u64>, String>,
) -> Option<Seq<char>> {
    match checked {
        Err(e) => Some(e@),
        Ok(_) => match public_values {
            Err(e) => Some("failed to deserialise proof for PI extraction: "@ + e@),
            Ok(pis) => pi_failure(key_tag(a.verification_key_bytes@), pis@, a.public_inputs),
        },
    }
}

/// `r` is the verdict on an artifact, given what the proof system says of the
/// proof and the public inputs that the proof carries.
pub open spec fn judged(
    a: ProofArtifact,
    checked: Result<(), String>,
    public_values: Result<Vec<u64>, String>,
    r: VerificationResult,
) -> bool {
    match rejection(a, checked, public_values) {
        Some(reason) => {
            &&& r.rejects(reason)
            &&& r.backend == BackendTag::Plonky2
            &&& r.proof_system == ProofSystemKind::Plonky2Snark
        },
        None => {
            let tag = key_tag(a.verification_key_bytes@);
            &&& r.accepts(a, pi_warnings(tag, public_values->Ok_0@, a.public_inputs))
            &&& r.completeness_proved == (tag != TAG_JOIN)
            &&& r.external_anchor_status == ExternalAnchorStatus::Unanchored
        },
    }
}

impl Plonky2Backend {
    /// The tag of the circuit that an artifact's proof is checked against.
    pub fn artifact_tag(artifact: &ProofArtifact) -> (r: u8)
        ensures
            r == key_tag(artifact.verification_key_bytes@),
    {
        if artifact.verification_key_bytes.len() == 0 {
            TAG_AGG
        } else {
            artifact.verification_key_bytes[0]
        }
    }

    /// Judges an artifact. `checked` is what the proof system says of the proof,
    /// and `public_values` are the public inputs that the proof carries.
    pub fn verify(
        &self,
        artifact: &ProofArtifact,
        checked: Result<(), String>,
        public_values: Result<Vec<u64>, String>,
    ) -> (r: VerificationResult)
        ensures
            r.is_valid <==> rejection(*artifact, checked, public_values) is None,
            !r.is_valid ==> {
                &&& r.rejects(rejection(*artifact, checked, public_values)->0)
                &&& r.backend == BackendTag::Plonky2
                &&& r.proof_system == ProofSystemKind::Plonky2Snark
            },
            r.is_valid ==> {
                let tag = key_tag(artifact.verification_key_bytes@);
                &&& r.accepts(
                    *artifact,
                    pi_warnings(tag, public_values->Ok_0@, artifact.public_inputs),
                )
                &&& r.completeness_proved == (tag != TAG_JOIN)
                &&& r.external_anchor_status == ExternalAnchorStatus::Unanchored
            },
            judged(*artifact, checked, public_values, r),
    {
        match checked {
            Ok(_) => {},
            Err(e) => {
                return VerificationResult::invalid_with_backend(
                    e,
                    BackendTag::Plonky2,
                    ProofSystemKind::Plonky2Snark,
                );
            },
        }
        let pis: Vec<u64> = match public_values {
            Ok(v) => v,
            Err(e) => {
                let mut m: String = "failed to deserialise proof for PI extraction: ".to_owned();
                m.append(e.as_str());
                return VerificationResult::invalid_with_backend(
                    m,
                    BackendTag::Plonky2,
                    ProofSystemKind::Plonky2Snark,
                );
            },
        };
        let tag: u8 = Self::artifact_tag(artifact);
        match find_pi_failure(tag, &pis, &artifact.public_inputs) {
            Some(m) => {
                return VerificationResult::invalid_with_backend(
                    m,
                    BackendTag::Plonky2,
                    ProofSystemKind::Plonky2Snark,
                );
            },
            None => {},
        }
        let warnings: Vec<String> = list_pi_warnings(tag, &pis, &artifact.public_inputs);
        VerificationResult::valid_with_warnings(
            artifact,
            warnings,
            tag != TAG_JOIN,
            ExternalAnchorStatus::Unanchored,
        )
    }

    /// Proofs are not folded yet.
    pub fn fold(&self, left: &ProofArtifact, right: &ProofArtifact) -> (r: ZkResult<ProofArtifact>)
        ensures
            r matches Err(e) && e is Proving && e.text()
                == "Plonky2 recursive fold not yet implemented"@,
    {
        Err(ZkDbError::Proving("Plonky2 recursive fold not yet implemented".to_owned()))
    }
}

} // verus!
