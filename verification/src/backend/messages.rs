//! What is said of artifacts that are not valid, or not fully checked.

use vstd::prelude::*;

use crate::backend::outcomes::leading_word;
use crate::backend::outcomes::root_word;
use crate::backend::plans::starts_with;
use crate::backend::verdicts::checked_tag;
use crate::backend::verdicts::nth;
use crate::backend::verdicts::one_if;
use crate::backend::verify::judged;
use crate::proofs::artifacts::texts;
use crate::proofs::artifacts::ProofArtifact;
use crate::proofs::artifacts::VerificationResult;
use crate::text::decimal;
use crate::text::hex_word;

verus! {

/// The verdict is that two numbers should agree and do not, both in decimal.
pub open spec fn told(
    r: VerificationResult,
    label: Seq<char>,
    carried: u64,
    middle: Seq<char>,
    recorded: u64,
) -> bool {
    &&& !r.is_valid
    &&& r.error matches Some(e) && e@ == label + decimal(carried as nat) + middle + decimal(
        recorded as nat,
    )
}

/// The verdict is that two numbers should agree and do not, both in hexadecimal.
pub open spec fn told_in_hex(
    r: VerificationResult,
    label: Seq<char>,
    carried: u64,
    middle: Seq<char>,
    recorded: u64,
) -> bool {
    &&& !r.is_valid
    &&& r.error matches Some(e) && e@ == label + hex_word(carried) + middle + hex_word(recorded)
}

/// Snapshot and query are checked first: where the proof is of another snapshot
/// or another query than the artifact says, the verdict says so, with both
/// numbers.
pub proof fn other_origin_is_told(
    a: ProofArtifact,
    values: Vec<u64>,
    r: VerificationResult,
    recorded: u64,
)
    requires
        judged(a, Ok(()), Ok(values), r),
    ensures
        nth(values@, 0) != recorded && recorded == leading_word(a.public_inputs.snapshot_root@)
            ==> told_in_hex(
            r,
            "snap_lo mismatch: proof PI[0]="@,
            nth(values@, 0),
            " != artifact snapshot_root[..8]="@,
            recorded,
        ),
        nth(values@, 0) == leading_word(a.public_inputs.snapshot_root@) && nth(values@, 1)
            != recorded && recorded == leading_word(a.public_inputs.query_hash@) ==> told_in_hex(
            r,
            "qhash_lo mismatch: proof PI[1]="@,
            nth(values@, 1),
            " != artifact query_hash[..8]="@,
            recorded,
        ),
{
    root_word(a.public_inputs.snapshot_root@);
    root_word(a.public_inputs.query_hash@);
}

/// The proof is of the snapshot and the query that the artifact says.
pub open spec fn same_origin(a: ProofArtifact, v: Seq<u64>) -> bool {
    &&& nth(v, 0) == leading_word(a.public_inputs.snapshot_root@)
    &&& nth(v, 1) == leading_word(a.public_inputs.query_hash@)
}

/// Where an aggregate artifact disagrees with its proof, the verdict names the
/// first disagreement of count, sum, result commitment, predicate and number of
/// rows.
#[verifier::rlimit(40)]
pub proof fn aggregate_disagreement_is_told(
    a: ProofArtifact,
    values: Vec<u64>,
    r: VerificationResult,
)
    requires
        judged(a, Ok(()), Ok(values), r),
        same_origin(a, values@),
        checked_tag(a.verification_key_bytes@) == 0,
    ensures
        ({
            let v = values@;
            let p = a.public_inputs;
            let count = nth(v, 3) == p.result_row_count;
            let sum = nth(v, 2) == p.result_sum;
            let commitment = p.result_commit_lo == 0 || nth(v, 4) == p.result_commit_lo;
            let op = nth(v, 5) == p.pred_op;
            let val = p.pred_op == 0 || nth(v, 6) == p.pred_val;
            let rows = p.agg_n_real == 0 || nth(v, 7) == p.agg_n_real;
            &&& !count ==> told(
                r,
                "count mismatch: proof PI[3]="@,
                nth(v, 3),
                " != artifact result_row_count="@,
                p.result_row_count,
            )
            &&& count && !sum ==> told(
                r,
                "sum mismatch: proof PI[2]="@,
                nth(v, 2),
                " != artifact result_sum="@,
                p.result_sum,
            )
            &&& count && sum && !commitment ==> told_in_hex(
                r,
                "result_commit_lo mismatch: proof PI[4]="@,
                nth(v, 4),
                " != artifact result_commit_lo="@,
                p.result_commit_lo,
            )
            &&& count && sum && commitment && !op ==> told(
                r,
                "pred_op mismatch: proof PI[5]="@,
                nth(v, 5),
                " != artifact pred_op="@,
                p.pred_op,
            )
            &&& count && sum && commitment && op && !val ==> told(
                r,
                "pred_val mismatch: proof PI[6]="@,
                nth(v, 6),
                " != artifact pred_val="@,
                p.pred_val,
            )
            &&& count && sum && commitment && op && val && !rows ==> told(
                r,
                "agg n_real mismatch: proof PI[7]="@,
                nth(v, 7),
                " != artifact agg_n_real="@,
                p.agg_n_real,
            )
        }),
{
    root_word(a.public_inputs.snapshot_root@);
    root_word(a.public_inputs.query_hash@);
}

/// Where a sort artifact disagrees with its proof, the verdict names the first
/// disagreement of result commitment and fingerprints.
pub proof fn sort_disagreement_is_told(a: ProofArtifact, values: Vec<u64>, r: VerificationResult)
    requires
        judged(a, Ok(()), Ok(values), r),
        same_origin(a, values@),
        checked_tag(a.verification_key_bytes@) == 1 || checked_tag(a.verification_key_bytes@) == 4,
    ensures
        ({
            let v = values@;
            let p = a.public_inputs;
            let commitment = p.result_commit_lo == 0 || nth(v, 4) == p.result_commit_lo;
            let low = p.sort_secondary_snap_lo == 0 || nth(v, 5) == p.sort_secondary_snap_lo;
            let high = p.sort_secondary_hi_snap_lo == 0 || nth(v, 6)
                == p.sort_secondary_hi_snap_lo;
            &&& !commitment ==> told_in_hex(
                r,
                "sort result_commit_lo mismatch: proof PI[4]="@,
                nth(v, 4),
                " != artifact result_commit_lo="@,
                p.result_commit_lo,
            )
            &&& commitment && !low ==> told_in_hex(
                r,
                "sort_secondary_snap_lo mismatch: proof PI[5]="@,
                nth(v, 5),
                " != artifact.sort_secondary_snap_lo="@,
                p.sort_secondary_snap_lo,
            )
            &&& commitment && low && !high ==> told_in_hex(
                r,
                "sort_secondary_hi_snap_lo mismatch: proof PI[6]="@,
                nth(v, 6),
                " != artifact.sort_secondary_hi_snap_lo="@,
                p.sort_secondary_hi_snap_lo,
            )
        }),
{
    root_word(a.public_inputs.snapshot_root@);
    root_word(a.public_inputs.query_hash@);
}

/// Where a join artifact disagrees with its proof, the verdict names the first
/// disagreement of right side, result commitment and unmatched rows.
pub proof fn join_disagreement_is_told(a: ProofArtifact, values: Vec<u64>, r: VerificationResult)
    requires
        judged(a, Ok(()), Ok(values), r),
        same_origin(a, values@),
        checked_tag(a.verification_key_bytes@) == 3,
    ensures
        ({
            let v = values@;
            let p = a.public_inputs;
            let right = p.join_right_snap_lo == 0 || nth(v, 4) == p.join_right_snap_lo;
            let commitment = p.result_commit_lo == 0 || nth(v, 5) == p.result_commit_lo;
            let unmatched = nth(v, 6) == p.join_unmatched_count;
            &&& !right ==> told_in_hex(
                r,
                "join right_snap_lo mismatch: proof PI[4]="@,
                nth(v, 4),
                " != artifact join_right_snap_lo="@,
                p.join_right_snap_lo,
            )
            &&& right && !commitment ==> told_in_hex(
                r,
                "join result_commit_lo mismatch: proof PI[5]="@,
                nth(v, 5),
                " != artifact result_commit_lo="@,
                p.result_commit_lo,
            )
            &&& right && commitment && !unmatched ==> told(
                r,
                "join unmatched_count mismatch: proof PI[6]="@,
                nth(v, 6),
                " != artifact join_unmatched_count="@,
                p.join_unmatched_count,
            )
        }),
{
    root_word(a.public_inputs.snapshot_root@);
    root_word(a.public_inputs.query_hash@);
}

/// Where a grouping artifact disagrees with its proof, the verdict names the first
/// disagreement of groups, result commitment and values.
pub proof fn group_disagreement_is_told(a: ProofArtifact, values: Vec<u64>, r: VerificationResult)
    requires
        judged(a, Ok(()), Ok(values), r),
        same_origin(a, values@),
        checked_tag(a.verification_key_bytes@) == 2,
    ensures
        ({
            let v = values@;
            let p = a.public_inputs;
            let groups = p.group_output_lo == 0 || nth(v, 5) == p.group_output_lo;
            let commitment = p.result_commit_lo == 0 || nth(v, 6) == p.result_commit_lo;
            let vals = p.group_vals_snap_lo == 0 || nth(v, 7) == p.group_vals_snap_lo;
            &&& !groups ==> told_in_hex(
                r,
                "group_output_lo mismatch: proof PI[5]="@,
                nth(v, 5),
                " != artifact group_output_lo="@,
                p.group_output_lo,
            )
            &&& groups && !commitment ==> told_in_hex(
                r,
                "groupby result_commit_lo mismatch: proof PI[6]="@,
                nth(v, 6),
                " != artifact result_commit_lo="@,
                p.result_commit_lo,
            )
            &&& groups && commitment && !vals ==> !r.is_valid && (r.error matches Some(e)
                && starts_with(
                e@,
                "group_vals_snap_lo mismatch: proof PI[7]="@ + hex_word(nth(v, 7))
                    + " != artifact group_vals_snap_lo="@ + hex_word(p.group_vals_snap_lo),
            ))
        }),
{
    root_word(a.public_inputs.snapshot_root@);
    root_word(a.public_inputs.query_hash@);
    let v = values@;
    let p = a.public_inputs;
    if r.error is Some {
        let e = r.error->0@;
        let t = "group_vals_snap_lo mismatch: proof PI[7]="@ + hex_word(nth(v, 7))
            + " != artifact group_vals_snap_lo="@ + hex_word(p.group_vals_snap_lo);
        if e == t + ". The aggregation value column does not match the committed dataset."@ {
            assert(e.subrange(0, t.len() as int) =~= t);
        }
    }
}

/// A warning starts with a text.
pub open spec fn warned(r: VerificationResult, i: int, t: Seq<char>) -> bool {
    0 <= i < r.warnings@.len() && starts_with(r.warnings@[i]@, t)
}

proof fn starts(t: Seq<char>, u: Seq<char>)
    ensures
        starts_with(t + u, t),
{
    assert((t + u).subrange(0, t.len() as int) =~= t);
}

/// Each warning names the commitment that the artifact does not record, with the
/// number that the proof carries.
#[verifier::rlimit(40)]
pub proof fn warnings_name_what_is_missing(
    a: ProofArtifact,
    values: Vec<u64>,
    r: VerificationResult,
)
    requires
        judged(a, Ok(()), Ok(values), r),
        r.is_valid,
    ensures
        ({
            let v = values@;
            let p = a.public_inputs;
            let tag = checked_tag(a.verification_key_bytes@);
            let commitment = one_if(p.result_commit_lo == 0);
            &&& tag == 0 && p.result_commit_lo == 0 ==> warned(
                r,
                0,
                "agg result_commit_lo not recorded in artifact (proof carries PI[4]="@ + hex_word(
                    nth(v, 4),
                ),
            )
            &&& tag == 0 && p.agg_n_real == 0 ==> warned(
                r,
                commitment,
                "agg_n_real not recorded in artifact (proof carries PI[7]="@ + decimal(
                    nth(v, 7) as nat,
                ),
            )
            &&& (tag == 1 || tag == 4) && p.result_commit_lo == 0 ==> warned(
                r,
                0,
                "sort result_commit_lo not recorded in artifact (proof carries PI[4]="@ + hex_word(
                    nth(v, 4),
                ),
            )
            &&& (tag == 1 || tag == 4) && p.sort_secondary_snap_lo == 0 ==> warned(
                r,
                commitment,
                "sort_secondary_snap_lo is zero"@,
            )
            &&& (tag == 1 || tag == 4) && p.sort_secondary_snap_lo != 0
                && p.sort_secondary_hi_snap_lo == 0 ==> warned(
                r,
                commitment,
                "sort_secondary_hi_snap_lo is zero"@,
            )
            &&& tag == 3 && p.join_right_snap_lo == 0 ==> warned(
                r,
                0,
                "join right_snap_lo not recorded in artifact (proof carries PI[4]="@ + hex_word(
                    nth(v, 4),
                ),
            )
            &&& tag == 3 && p.result_commit_lo == 0 ==> warned(
                r,
                one_if(p.join_right_snap_lo == 0),
                "join result_commit_lo not recorded in artifact (proof carries PI[5]="@ + hex_word(
                    nth(v, 5),
                ),
            )
            &&& tag == 3 ==> warned(
                r,
                one_if(p.join_right_snap_lo == 0) + commitment,
                "join completeness is proved for aligned rows only"@,
            )
            &&& tag == 2 && p.group_output_lo == 0 ==> warned(
                r,
                0,
                "group_output_lo not recorded in artifact (proof carries PI[5]="@ + hex_word(
                    nth(v, 5),
                ),
            )
            &&& tag == 2 && p.result_commit_lo == 0 ==> warned(
                r,
                one_if(p.group_output_lo == 0),
                "groupby result_commit_lo not recorded in artifact (proof carries PI[6]="@
                    + hex_word(nth(v, 6)),
            )
            &&& tag == 2 && p.group_vals_snap_lo == 0 ==> warned(
                r,
                one_if(p.group_output_lo == 0) + commitment,
                "group_vals_snap_lo not recorded in artifact (proof carries PI[7]="@ + hex_word(
                    nth(v, 7),
                ),
            )
        }),
{
    let v = values@;
    let p = a.public_inputs;
    let w = texts(r.warnings@);
    assert(w.len() == r.warnings@.len());
    assert forall|i: int| 0 <= i < r.warnings@.len() implies #[trigger] w[i] == r.warnings@[i]@ by {}
    starts(
        "agg result_commit_lo not recorded in artifact (proof carries PI[4]="@ + hex_word(
            nth(v, 4),
        ),
        "); tamper-detection for result commitment is limited on this artifact"@,
    );
    starts(
        "agg_n_real not recorded in artifact (proof carries PI[7]="@ + decimal(nth(v, 7) as nat),
        "); this is a legacy artifact — padding-isolation guarantees are unknown."@,
    );
    starts(
        "sort result_commit_lo not recorded in artifact (proof carries PI[4]="@ + hex_word(
            nth(v, 4),
        ),
        "); tamper-detection for result commitment is limited on this artifact"@,
    );
    starts(
        "join right_snap_lo not recorded in artifact (proof carries PI[4]="@ + hex_word(nth(v, 4)),
        "); right-side dataset binding cannot be verified — right-table substitution attack possible"@,
    );
    starts(
        "join result_commit_lo not recorded in artifact (proof carries PI[5]="@ + hex_word(
            nth(v, 5),
        ),
        "); tamper-detection for result commitment is limited on this artifact"@,
    );
    starts(
        "group_output_lo not recorded in artifact (proof carries PI[5]="@ + hex_word(nth(v, 5)),
        "); per-group aggregate commitment cannot be verified"@,
    );
    starts(
        "groupby result_commit_lo not recorded in artifact (proof carries PI[6]="@ + hex_word(
            nth(v, 6),
        ),
        "); tamper-detection for result commitment is limited on this artifact"@,
    );
    starts(
        "group_vals_snap_lo not recorded in artifact (proof carries PI[7]="@ + hex_word(nth(v, 7)),
        "); value-column (SUM/AVG source) binding cannot be verified on this artifact. Reproving with the current circuit version will populate this field."@,
    );
    fixed_warnings();
    let tag = checked_tag(a.verification_key_bytes@);
    let commitment = one_if(p.result_commit_lo == 0);
    if tag == 0 {
        assert(p.result_commit_lo == 0 ==> w[0] == r.warnings@[0]@);
        assert(p.agg_n_real == 0 ==> w[commitment] == r.warnings@[commitment]@);
    } else if tag == 1 || tag == 4 {
        assert(p.result_commit_lo == 0 ==> w[0] == r.warnings@[0]@);
        assert(p.sort_secondary_snap_lo == 0 || p.sort_secondary_hi_snap_lo == 0 ==> w[commitment]
            == r.warnings@[commitment]@);
    } else if tag == 3 {
        let k = one_if(p.join_right_snap_lo == 0);
        assert(p.join_right_snap_lo == 0 ==> w[0] == r.warnings@[0]@);
        assert(p.result_commit_lo == 0 ==> w[k] == r.warnings@[k]@);
        assert(w[k + commitment] == r.warnings@[k + commitment]@);
    } else if tag == 2 {
        let k = one_if(p.group_output_lo == 0);
        assert(p.group_output_lo == 0 ==> w[0] == r.warnings@[0]@);
        assert(p.result_commit_lo == 0 ==> w[k] == r.warnings@[k]@);
        assert(p.group_vals_snap_lo == 0 ==> w[k + commitment] == r.warnings@[k + commitment]@);
    }
}

/// How the warnings without a number start.
proof fn fixed_warnings()
    ensures
        starts_with(
            "sort_secondary_snap_lo is zero: sort proof is in key-only mode (no lo fingerprint). Row-payload binding is NOT enforced — a prover could reorder non-key column values without detection. Ensure WitnessBuilder populates the secondary columns."@,
            "sort_secondary_snap_lo is zero"@,
        ),
        starts_with(
            "sort_secondary_hi_snap_lo is zero: artifact was produced by the older 64-bit fingerprint circuit. Payload collision resistance is ~2⁻⁶⁴ instead of ~2⁻¹²⁸. Re-prove with the updated circuit to obtain full 128-bit binding."@,
            "sort_secondary_hi_snap_lo is zero"@,
        ),
        starts_with(
            "join completeness is proved for aligned rows only: matches across positions can still be omitted, so relational completeness is not proved"@,
            "join completeness is proved for aligned rows only"@,
        ),
{
    reveal_strlit("sort_secondary_snap_lo is zero");
    reveal_strlit("sort_secondary_hi_snap_lo is zero");
    reveal_strlit("join completeness is proved for aligned rows only");
    reveal_strlit(
        "sort_secondary_snap_lo is zero: sort proof is in key-only mode (no lo fingerprint). Row-payload binding is NOT enforced — a prover could reorder non-key column values without detection. Ensure WitnessBuilder populates the secondary columns.",
    );
    reveal_strlit(
        "sort_secondary_hi_snap_lo is zero: artifact was produced by the older 64-bit fingerprint circuit. Payload collision resistance is ~2⁻⁶⁴ instead of ~2⁻¹²⁸. Re-prove with the updated circuit to obtain full 128-bit binding.",
    );
    reveal_strlit(
        "join completeness is proved for aligned rows only: matches across positions can still be omitted, so relational completeness is not proved",
    );
    let a =
        "sort_secondary_snap_lo is zero: sort proof is in key-only mode (no lo fingerprint). Row-payload binding is NOT enforced — a prover could reorder non-key column values without detection. Ensure WitnessBuilder populates the secondary columns."@;
    let b =
        "sort_secondary_hi_snap_lo is zero: artifact was produced by the older 64-bit fingerprint circuit. Payload collision resistance is ~2⁻⁶⁴ instead of ~2⁻¹²⁸. Re-prove with the updated circuit to obtain full 128-bit binding."@;
    let c =
        "join completeness is proved for aligned rows only: matches across positions can still be omitted, so relational completeness is not proved"@;
    assert(a.subrange(0, 30) =~= "sort_secondary_snap_lo is zero"@);
    assert(b.subrange(0, 33) =~= "sort_secondary_hi_snap_lo is zero"@);
    assert(c.subrange(0, 49) =~= "join completeness is proved for aligned rows only"@);
}

} // verus!
