//! Recursive proof composition.
//!
//! A new attested run may fold the attested values of prior proof artifacts
//! into its accumulator without re-executing their computations. Each
//! artifact's receipt must verify against its declared program identity
//! through the execution engine before its value is used; the engine's
//! verdicts reach this module as inputs, and everything downstream of them
//! is verified here. A failed verdict aborts the whole composition.
//!
//! Two known limitations are left in place deliberately, pending a design
//! decision rather than a silent fix: nothing deduplicates artifacts, so
//! the same artifact folded in twice counts twice; and composition
//! re-supplies full input data at every step, which bounds how deep chains
//! can scale.

use vstd::prelude::*;
use crate::amount::Amount;
use crate::crypto::{b64_decoded, b64_decode};
use crate::errors::PipelineError;
use crate::product_footprint::ProductProof;

verus! {

/// One composition step: a prior artifact's attested value `pcf` folded
/// onto `acc`, guarded by the engine's verdict on its receipt.
pub open spec fn compose_step(acc: int, pcf: int, verified: bool) -> Result<int, PipelineError> {
    if !verified {
        Err(PipelineError::AssumptionVerificationError)
    } else if acc + pcf > u64::MAX {
        Err(PipelineError::ValueOverflowError)
    } else {
        Ok(acc + pcf)
    }
}

/// The whole composition: the artifacts' values folded in order onto `acc`,
/// stopping at the first failed verdict or overflow.
pub open spec fn compose_total(acc: int, pcfs: Seq<int>, verdicts: Seq<bool>) -> Result<
    int,
    PipelineError,
>
    recommends
        pcfs.len() == verdicts.len(),
    decreases pcfs.len(),
{
    if pcfs.len() == 0 {
        Ok(acc)
    } else {
        match compose_step(acc, pcfs[0], verdicts[0]) {
            Err(e) => Err(e),
            Ok(a) => compose_total(a, pcfs.drop_first(), verdicts.drop_first()),
        }
    }
}

/// The attested values of a sequence of amounts, as mathematical integers.
pub open spec fn amounts_int(s: Seq<Amount>) -> Seq<int> {
    s.map_values(|a: Amount| a.as_int())
}

/// Folds one verified prior value onto the accumulator.
pub fn fold_assumption(acc: Amount, pcf: Amount, verified: bool) -> (r: Result<
    Amount,
    PipelineError,
>)
    ensures
        match compose_step(acc.as_int(), pcf.as_int(), verified) {
            Ok(v) => r == Ok::<Amount, PipelineError>(Amount { micros: v as u64 }),
            Err(e) => r == Err::<Amount, PipelineError>(e),
        },
{
    if !verified {
        return Err(PipelineError::AssumptionVerificationError);
    }
    match acc.checked_add(pcf) {
        Some(a) => Ok(a),
        None => Err(PipelineError::ValueOverflowError),
    }
}

/// The whole composition over the engine's verdicts.
pub fn compose_assumptions(init: Amount, pcfs: &Vec<Amount>, verdicts: &Vec<bool>) -> (r: Result<
    Amount,
    PipelineError,
>)
    requires
        pcfs@.len() == verdicts@.len(),
    ensures
        match compose_total(init.as_int(), amounts_int(pcfs@), verdicts@) {
            Ok(v) => r == Ok::<Amount, PipelineError>(Amount { micros: v as u64 }),
            Err(e) => r == Err::<Amount, PipelineError>(e),
        },
{
    let n = pcfs.len();
    let mut acc = init;
    let mut i: usize = 0;
    proof {
        assert(amounts_int(pcfs@).skip(0) =~= amounts_int(pcfs@));
        assert(verdicts@.skip(0) =~= verdicts@);
    }
    while i < n
        invariant
            0 <= i <= n,
            n == pcfs@.len() == verdicts@.len(),
            compose_total(init.as_int(), amounts_int(pcfs@), verdicts@) == compose_total(
                acc.as_int(),
                amounts_int(pcfs@).skip(i as int),
                verdicts@.skip(i as int),
            ),
        decreases n - i,
    {
        proof {
            assert(amounts_int(pcfs@).skip(i as int)[0] == pcfs@[i as int].as_int());
            assert(amounts_int(pcfs@).skip(i as int).drop_first() =~= amounts_int(pcfs@).skip(
                i + 1,
            ));
            assert(verdicts@.skip(i as int)[0] == verdicts@[i as int]);
            assert(verdicts@.skip(i as int).drop_first() =~= verdicts@.skip(i + 1));
        }
        acc = match fold_assumption(acc, pcfs[i], verdicts[i]) {
            Ok(a) => a,
            Err(e) => {
                return Err(e);
            },
        };
        i = i + 1;
    }
    proof {
        assert(amounts_int(pcfs@).skip(n as int) =~= Seq::<int>::empty());
    }
    Ok(acc)
}

/// A successful composition of non-negative values stays in range.
pub proof fn lemma_compose_total_in_range(acc: int, pcfs: Seq<int>, verdicts: Seq<bool>)
    requires
        pcfs.len() == verdicts.len(),
        0 <= acc <= u64::MAX,
        forall|i: int| 0 <= i < pcfs.len() ==> 0 <= #[trigger] pcfs[i],
    ensures
        compose_total(acc, pcfs, verdicts) matches Ok(v) ==> 0 <= v <= u64::MAX,
    decreases pcfs.len(),
{
    if pcfs.len() > 0 && verdicts[0] && acc + pcfs[0] <= u64::MAX {
        assert forall|i: int| 0 <= i < pcfs.drop_first().len() implies 0 <= #[trigger] pcfs.drop_first()[i] by {
            assert(pcfs.drop_first()[i] == pcfs[i + 1]);
        }
        lemma_compose_total_in_range(acc + pcfs[0], pcfs.drop_first(), verdicts.drop_first());
    }
}

/// Recovers a prior artifact's receipt bytes from its transported base64
/// form. A blob that does not decode is treated as a tampered artifact.
pub fn resolve_artifact(artifact: &ProductProof) -> (r: Result<Vec<u8>, PipelineError>)
    ensures
        match b64_decoded(artifact.proofReceipt@) {
            Option::Some(bytes) => r matches Ok(v) && v@ == bytes,
            Option::None => r == Err::<Vec<u8>, PipelineError>(
                PipelineError::AssumptionVerificationError,
            ),
        },
{
    match b64_decode(artifact.proofReceipt.as_str()) {
        Some(v) => Ok(v),
        None => Err(PipelineError::AssumptionVerificationError),
    }
}

/// Composition is addition: when every verdict holds and nothing overflows,
/// the composed run's value is the initial value plus every artifact's
/// attested value; the value one artifact adds is exactly its own.
pub proof fn lemma_composition_adds(acc: int, pcfs: Seq<int>, verdicts: Seq<bool>, total: int)
    requires
        pcfs.len() == verdicts.len(),
        compose_total(acc, pcfs, verdicts) == Ok::<int, PipelineError>(total),
    ensures
        total == acc + sum_of(pcfs),
    decreases pcfs.len(),
{
    if pcfs.len() > 0 {
        let a1 = acc + pcfs[0];
        lemma_composition_adds(a1, pcfs.drop_first(), verdicts.drop_first(), total);
    }
}

/// The sum of a sequence of integers.
pub open spec fn sum_of(s: Seq<int>) -> int
    decreases s.len(),
{
    if s.len() == 0 {
        0
    } else {
        s[0] + sum_of(s.drop_first())
    }
}

/// Composing two individually verified artifacts in either order gives the
/// same result: the same sum when both fit, and the overflow error when not.
pub proof fn lemma_composition_commutes(acc: int, p: int, q: int)
    requires
        0 <= acc,
        0 <= p,
        0 <= q,
    ensures
        compose_total(acc, seq![p, q], seq![true, true]) == compose_total(
            acc,
            seq![q, p],
            seq![true, true],
        ),
{
    reveal_with_fuel(compose_total, 4);
    let pq = seq![p, q];
    let qp = seq![q, p];
    let vv = seq![true, true];
    assert(pq.drop_first() =~= seq![q]);
    assert(qp.drop_first() =~= seq![p]);
    assert(vv.drop_first() =~= seq![true]);
    assert(seq![q].drop_first() =~= Seq::<int>::empty());
    assert(seq![p].drop_first() =~= Seq::<int>::empty());
    assert(seq![true].drop_first() =~= Seq::<bool>::empty());
    if acc + p > u64::MAX || acc + q > u64::MAX || acc + p + q > u64::MAX {
        assert(compose_total(acc, pq, vv) == Err::<int, PipelineError>(
            PipelineError::ValueOverflowError,
        ));
        assert(compose_total(acc, qp, vv) == Err::<int, PipelineError>(
            PipelineError::ValueOverflowError,
        ));
    } else {
        assert(compose_total(acc, pq, vv) == Ok::<int, PipelineError>(acc + p + q));
        assert(compose_total(acc, qp, vv) == Ok::<int, PipelineError>(acc + q + p));
    }
}

/// A prior artifact whose receipt fails the engine's verification aborts
/// the whole composition: no value is ever folded past a failed verdict.
pub proof fn lemma_unverified_artifact_aborts(acc: int, pcfs: Seq<int>, verdicts: Seq<bool>, k: int)
    requires
        pcfs.len() == verdicts.len(),
        0 <= k < verdicts.len(),
        !verdicts[k],
    ensures
        compose_total(acc, pcfs, verdicts) is Err,
    decreases pcfs.len(),
{
    if verdicts[0] {
        if acc + pcfs[0] <= u64::MAX {
            assert(k > 0);
            assert(verdicts.drop_first()[k - 1] == verdicts[k]);
            lemma_unverified_artifact_aborts(
                acc + pcfs[0],
                pcfs.drop_first(),
                verdicts.drop_first(),
                k - 1,
            );
        }
    }
}

} // verus!
