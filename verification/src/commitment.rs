//! The sensor-data integrity check that runs inside the attested boundary.
//!
//! A sensor record binds a serialized payload to a commitment: the base64
//! SHA-256 digest of the payload text followed by the salt. The attested run
//! recomputes every commitment of a record that belongs to a processed
//! transport leg; one mismatch aborts the whole run, so a forged or
//! corrupted reading can never yield a valid proof. The records that pass
//! are forwarded as provenance triples for the host-side signature check.

use vstd::prelude::*;
use crate::crypto::{b64_encode, b64_of, hash, sha256_utf8};
use crate::errors::PipelineError;
use crate::product_footprint::{LegReference, TCE};
use crate::proofing_document::TceSensorData;
use crate::sig_container::SignatureContainer;

verus! {

/// The commitment text binding a serialized sensor payload and a salt.
pub open spec fn commitment_of(payload: Seq<char>, salt: Seq<char>) -> Seq<char> {
    b64_of(sha256_utf8(payload + salt))
}

/// Whether a record's stored commitment is the one its payload and salt
/// produce.
pub open spec fn commitment_matches(rec: TceSensorData) -> bool {
    rec.commitment@ == commitment_of(rec.sensorData@, rec.salt@)
}

/// The provenance triple a passing record forwards.
pub open spec fn container_of(rec: TceSensorData) -> SignatureContainer {
    SignatureContainer {
        commitment: rec.commitment,
        signature: rec.signedSensorData,
        pub_key: rec.sensorkey,
    }
}

/// Whether a chain element's sensor records take part in the integrity
/// check: the element is a transport leg with a distance record.
pub open spec fn is_checked_tce(tce: TCE) -> bool {
    match tce.leg {
        LegReference::Transport(_) => tce.distance is Some,
        LegReference::Hub(_) => false,
    }
}

/// The scan of all records for one chain element: each record with the
/// element's id must carry a matching commitment, and forwards its triple.
pub open spec fn record_scan(tce: TCE, records: Seq<TceSensorData>) -> Result<
    Seq<SignatureContainer>,
    PipelineError,
>
    decreases records.len(),
{
    if records.len() == 0 {
        Ok(Seq::empty())
    } else if records[0].tceId@ == tce.tceId@ {
        if commitment_matches(records[0]) {
            match record_scan(tce, records.drop_first()) {
                Ok(s) => Ok(seq![container_of(records[0])] + s),
                Err(e) => Err(e),
            }
        } else {
            Err(PipelineError::CommitmentMismatchError)
        }
    } else {
        record_scan(tce, records.drop_first())
    }
}

/// The evidence one chain element contributes: its record scan when it is a
/// checked element, nothing otherwise.
pub open spec fn tce_evidence(tce: TCE, records: Seq<TceSensorData>) -> Result<
    Seq<SignatureContainer>,
    PipelineError,
> {
    if is_checked_tce(tce) {
        record_scan(tce, records)
    } else {
        Ok(Seq::empty())
    }
}

/// The evidence of a whole chain, element by element in order.
pub open spec fn evidence_of(tces: Seq<TCE>, records: Seq<TceSensorData>) -> Result<
    Seq<SignatureContainer>,
    PipelineError,
>
    decreases tces.len(),
{
    if tces.len() == 0 {
        Ok(Seq::empty())
    } else {
        match tce_evidence(tces[0], records) {
            Err(e) => Err(e),
            Ok(s1) => match evidence_of(tces.drop_first(), records) {
                Err(e) => Err(e),
                Ok(s2) => Ok(s1 + s2),
            },
        }
    }
}

/// Computes the commitment of a serialized payload under a salt.
pub fn compute_commitment(payload: &str, salt: &str) -> (r: String)
    ensures
        r@ == commitment_of(payload@, salt@),
{
    let mut cat = payload.to_owned();
    cat.append(salt);
    let digest = hash(cat.as_str());
    b64_encode(digest.as_slice())
}

/// The integrity check of one record.
pub fn check_commitment(rec: &TceSensorData) -> (r: bool)
    ensures
        r == commitment_matches(*rec),
{
    let expected = compute_commitment(rec.sensorData.as_str(), rec.salt.as_str());
    expected == rec.commitment
}

fn collect_for_tce(tce: &TCE, records: &Vec<TceSensorData>, acc: &mut Vec<SignatureContainer>) -> (r:
    Result<(), PipelineError>)
    ensures
        match tce_evidence(*tce, records@) {
            Ok(s) => r == Ok::<(), PipelineError>(()) && final(acc)@ == old(acc)@ + s,
            Err(e) => r == Err::<(), PipelineError>(e),
        },
{
    let checked = match &tce.leg {
        LegReference::Transport(_) => tce.distance.is_some(),
        LegReference::Hub(_) => false,
    };
    if !checked {
        proof {
            assert(old(acc)@ + Seq::<SignatureContainer>::empty() =~= old(acc)@);
        }
        return Ok(());
    }
    let n = records.len();
    let mut j: usize = 0;
    let ghost mut built = Seq::<SignatureContainer>::empty();
    proof {
        assert(records@.skip(0) =~= records@);
        assert(old(acc)@ + built =~= old(acc)@);
    }
    while j < n
        invariant
            0 <= j <= n,
            n == records@.len(),
            is_checked_tce(*tce),
            acc@ == old(acc)@ + built,
            record_scan(*tce, records@) == (match record_scan(*tce, records@.skip(j as int)) {
                Ok(s) => Ok::<Seq<SignatureContainer>, PipelineError>(built + s),
                Err(e) => Err::<Seq<SignatureContainer>, PipelineError>(e),
            }),
        decreases n - j,
    {
        proof {
            assert(records@.skip(j as int)[0] == records@[j as int]);
            assert(records@.skip(j as int).drop_first() =~= records@.skip(j + 1));
        }
        let rec = &records[j];
        if rec.tceId == tce.tceId {
            if !check_commitment(rec) {
                return Err(PipelineError::CommitmentMismatchError);
            }
            acc.push(
                SignatureContainer {
                    commitment: rec.commitment.clone(),
                    signature: rec.signedSensorData.clone(),
                    pub_key: rec.sensorkey.clone(),
                },
            );
            proof {
                let c = container_of(records@[j as int]);
                let prev = built;
                built = prev.push(c);
                assert(acc@ =~= old(acc)@ + built);
                match record_scan(*tce, records@.skip(j + 1)) {
                    Ok(s2) => {
                        assert(prev + (seq![c] + s2) =~= built + s2);
                    },
                    Err(_) => {},
                }
            }
        }
        j = j + 1;
    }
    proof {
        assert(records@.skip(n as int) =~= Seq::<TceSensorData>::empty());
        assert(built + Seq::<SignatureContainer>::empty() =~= built);
    }
    Ok(())
}

/// The whole integrity check of an attested run: every sensor record that
/// belongs to a checked chain element must carry a matching commitment; the
/// passing records' provenance triples come back in chain order.
pub fn collect_sensor_evidence(tces: &Vec<TCE>, records: &Vec<TceSensorData>) -> (r: Result<
    Vec<SignatureContainer>,
    PipelineError,
>)
    ensures
        match evidence_of(tces@, records@) {
            Ok(s) => r matches Ok(v) && v@ == s,
            Err(e) => r == Err::<Vec<SignatureContainer>, PipelineError>(e),
        },
{
    let n = tces.len();
    let mut acc: Vec<SignatureContainer> = Vec::new();
    let mut i: usize = 0;
    proof {
        assert(tces@.skip(0) =~= tces@);
    }
    while i < n
        invariant
            0 <= i <= n,
            n == tces@.len(),
            evidence_of(tces@, records@) == (match evidence_of(tces@.skip(i as int), records@) {
                Ok(s) => Ok::<Seq<SignatureContainer>, PipelineError>(acc@ + s),
                Err(e) => Err::<Seq<SignatureContainer>, PipelineError>(e),
            }),
        decreases n - i,
    {
        proof {
            assert(tces@.skip(i as int)[0] == tces@[i as int]);
            assert(tces@.skip(i as int).drop_first() =~= tces@.skip(i + 1));
        }
        let ghost acc0 = acc@;
        match collect_for_tce(&tces[i], records, &mut acc) {
            Ok(_) => {},
            Err(e) => {
                return Err(e);
            },
        }
        proof {
            if let Ok(s1) = tce_evidence(tces@[i as int], records@) {
                assert(acc@ =~= acc0 + s1);
                match evidence_of(tces@.skip(i + 1), records@) {
                    Ok(s2) => {
                        assert((acc0 + s1) + s2 =~= acc0 + (s1 + s2));
                    },
                    Err(_) => {},
                }
            }
        }
        i = i + 1;
    }
    proof {
        assert(tces@.skip(n as int) =~= Seq::<TCE>::empty());
        assert(acc@ + Seq::<SignatureContainer>::empty() =~= acc@);
    }
    Ok(acc)
}

/// A run without sensor records forwards no evidence and cannot fail the
/// integrity check.
pub proof fn lemma_evidence_of_no_records(tces: Seq<TCE>)
    ensures
        evidence_of(tces, Seq::empty()) == Ok::<Seq<SignatureContainer>, PipelineError>(
            Seq::empty(),
        ),
    decreases tces.len(),
{
    if tces.len() > 0 {
        lemma_evidence_of_no_records(tces.drop_first());
        assert(Seq::<SignatureContainer>::empty() + Seq::<SignatureContainer>::empty()
            =~= Seq::<SignatureContainer>::empty());
    }
}

/// One tampered record sinks the run: if any record that belongs to a
/// checked chain element carries a commitment other than the one recomputed
/// from its payload and salt, the scan ends in the commitment-mismatch
/// error and forwards no evidence.
pub proof fn lemma_mismatch_rejected(tce: TCE, records: Seq<TceSensorData>, k: int)
    requires
        is_checked_tce(tce),
        0 <= k < records.len(),
        records[k].tceId@ == tce.tceId@,
        !commitment_matches(records[k]),
    ensures
        tce_evidence(tce, records) == Err::<Seq<SignatureContainer>, PipelineError>(
            PipelineError::CommitmentMismatchError,
        ),
    decreases records.len(),
{
    if records[0].tceId@ == tce.tceId@ {
        if commitment_matches(records[0]) {
            assert(k > 0);
            assert(records.drop_first()[k - 1] == records[k]);
            lemma_mismatch_rejected(tce, records.drop_first(), k - 1);
        }
    } else {
        assert(k > 0);
        assert(records.drop_first()[k - 1] == records[k]);
        lemma_mismatch_rejected(tce, records.drop_first(), k - 1);
    }
}

} // verus!
