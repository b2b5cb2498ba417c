//! Host orchestration and the attested run's whole logic.
//!
//! The host drives one message at a time through the state machine
//! `Received -> Parsed -> AssumptionsResolved -> Proving -> Verified ->
//! Published`, dropping the message on any failure. The attested run itself
//! is [`run_attested_logic`]: composition of prior proofs, the emission
//! calculation, and the sensor-data integrity check, in that order; the
//! engine's receipt verdicts and the prior attested values reach it as
//! inputs. What only the engine can do — produce and verify receipts, and
//! decode journals — stays with the engine's host binding.

use vstd::prelude::*;
use crate::amount::Amount;
use crate::commitment::evidence_of;
use crate::composition::{
    amounts_int,
    compose_assumptions,
    compose_total,
    lemma_compose_total_in_range,
};
use crate::crypto::{b64_encode, b64_of};
use crate::emissions::{calculate_emissions, emissions_total};
use crate::errors::PipelineError;
use crate::product_footprint::ProductProof;
use crate::proofing_document::ProofingDocument;
use crate::sig_container::SignatureContainer;

verus! {

/// What one attested run produces from its document and the engine's
/// verdicts on the prior proofs: the attested total and the forwarded
/// provenance evidence, or the error that aborts the run.
pub open spec fn attested_output(
    doc: ProofingDocument,
    prior_pcfs: Seq<int>,
    prior_verdicts: Seq<bool>,
) -> Result<(int, Seq<SignatureContainer>), PipelineError> {
    match compose_total(0, prior_pcfs, prior_verdicts) {
        Err(e) => Err(e),
        Ok(base) => if doc.productFootprint.extensions@.len() == 0 {
            Err(PipelineError::SchemaError)
        } else {
            let tces = doc.productFootprint.extensions@[0].data.tces@;
            match emissions_total(tces, doc.tocData@, doc.hocData@, base) {
                Err(e) => Err(e),
                Ok(total) => {
                    let records = match doc.signedSensorData {
                        Option::Some(rs) => rs@,
                        Option::None => Seq::empty(),
                    };
                    match evidence_of(tces, records) {
                        Err(e) => Err(e),
                        Ok(evi) => Ok((total, evi)),
                    }
                },
            }
        },
    }
}

/// The whole logic of one attested run. Prior proofs come as their attested
/// values paired with the engine's verdict on each receipt; composition
/// runs first, then the emission calculation over the footprint's first
/// extension, then the integrity check of the sensor records.
pub fn run_attested_logic(
    doc: &ProofingDocument,
    prior_pcfs: &Vec<Amount>,
    prior_verdicts: &Vec<bool>,
) -> (r: Result<(Amount, Vec<SignatureContainer>), PipelineError>)
    requires
        prior_pcfs@.len() == prior_verdicts@.len(),
    ensures
        match attested_output(*doc, amounts_int(prior_pcfs@), prior_verdicts@) {
            Ok(out) => r matches Ok(p) && p.0.as_int() == out.0 && p.1@ == out.1,
            Err(e) => r == Err::<(Amount, Vec<SignatureContainer>), PipelineError>(e),
        },
{
    proof {
        assert forall|i: int| 0 <= i < amounts_int(prior_pcfs@).len() implies 0 <= #[trigger] amounts_int(
            prior_pcfs@,
        )[i] by {
            assert(amounts_int(prior_pcfs@)[i] == prior_pcfs@[i].as_int());
        }
        lemma_compose_total_in_range(0, amounts_int(prior_pcfs@), prior_verdicts@);
    }
    let base = match compose_assumptions(Amount::zero(), prior_pcfs, prior_verdicts) {
        Ok(a) => a,
        Err(e) => {
            return Err(e);
        },
    };
    if doc.productFootprint.extensions.len() == 0 {
        return Err(PipelineError::SchemaError);
    }
    let ext = &doc.productFootprint.extensions[0];
    let total = match calculate_emissions(&ext.data.tces, &doc.tocData, &doc.hocData, base) {
        Ok(a) => a,
        Err(e) => {
            return Err(e);
        },
    };
    let evidence = match &doc.signedSensorData {
        Some(records) => match crate::commitment::collect_sensor_evidence(
            &ext.data.tces,
            records,
        ) {
            Ok(v) => v,
            Err(e) => {
                return Err(e);
            },
        },
        None => {
            proof {
                crate::commitment::lemma_evidence_of_no_records(ext.data.tces@);
            }
            Vec::new()
        },
    };
    Ok((total, evidence))
}

/// Takes the prior proofs out of a document before submission, leaving the
/// document itself otherwise untouched.
pub fn split_proofs(doc: &mut ProofingDocument) -> (r: Vec<ProductProof>)
    ensures
        r@ == old(doc).proof@,
        final(doc).proof@ == Seq::<ProductProof>::empty(),
        final(doc).productFootprint == old(doc).productFootprint,
        final(doc).tocData == old(doc).tocData,
        final(doc).hocData == old(doc).hocData,
        final(doc).signedSensorData == old(doc).signedSensorData,
{
    let mut taken: Vec<ProductProof> = Vec::new();
    std::mem::swap(&mut taken, &mut doc.proof);
    taken
}

/// Packages one run's outcome as the exported proof artifact: the receipt
/// bytes go out in base64, the program identity as the given hex digest.
pub fn package_artifact(
    footprint_id: String,
    receipt_bytes: &Vec<u8>,
    image_id_hex: String,
    pcf: Amount,
    proof_reference: String,
) -> (r: ProductProof)
    ensures
        r.productFootprintId == footprint_id,
        r.proofReceipt@ == b64_of(receipt_bytes@),
        r.pcf == pcf,
        r.proofReference == proof_reference,
        r.imageId == image_id_hex,
{
    let encoded = b64_encode(receipt_bytes.as_slice());
    ProductProof {
        productFootprintId: footprint_id,
        proofReceipt: encoded,
        pcf,
        proofReference: proof_reference,
        imageId: image_id_hex,
    }
}

/// Composition is addition at the level of whole runs: a run that folds in
/// one verified artifact with attested value `a` attests exactly `a` more
/// than the same run standalone, and forwards the same evidence.
pub proof fn lemma_composition_is_addition(doc: ProofingDocument, a: int)
    requires
        0 <= a,
    ensures
        attested_output(doc, Seq::empty(), Seq::empty()) matches Ok(o0) ==> (attested_output(
            doc,
            seq![a],
            seq![true],
        ) matches Ok(o1) ==> o1.0 == a + o0.0 && o1.1 == o0.1),
{
    reveal_with_fuel(compose_total, 3);
    assert(compose_total(0, Seq::empty(), Seq::empty()) == Ok::<int, PipelineError>(0));
    assert(seq![a].drop_first() =~= Seq::<int>::empty());
    assert(seq![true].drop_first() =~= Seq::<bool>::empty());
    let standalone = attested_output(doc, Seq::empty(), Seq::empty());
    let composed = attested_output(doc, seq![a], seq![true]);
    match (standalone, composed) {
        (Ok(o0), Ok(o1)) => {
            assert(compose_total(0, seq![a], seq![true]) == Ok::<int, PipelineError>(a));
            let tces = doc.productFootprint.extensions@[0].data.tces@;
            crate::emissions::lemma_emissions_shift(
                tces,
                doc.tocData@,
                doc.hocData@,
                0,
                a,
                o0.0,
                o1.0,
            );
        },
        _ => {},
    }
}

/// The host's processing states for one inbound message.
#[derive(Clone, Copy, Debug, PartialEq, Eq, Structural)]
pub enum PipelineState {
    Received,
    Parsed,
    AssumptionsResolved,
    Proving,
    Verified,
    Published,
    Dropped,
}

/// What can happen to a message while it is processed.
#[derive(Clone, Copy, Debug, PartialEq, Eq, Structural)]
pub enum PipelineEvent {
    ParseOk,
    ParseFailed,
    AssumptionsOk,
    AssumptionsFailed,
    ProvingStarted,
    EngineFailed,
    ReceiptVerified,
    ReceiptInvalid,
    ArtifactPublished,
}

/// The transition relation of the host pipeline: the five forward steps in
/// order, and every failure — or ill-fitting event — dropping the message.
pub open spec fn next_state(s: PipelineState, e: PipelineEvent) -> PipelineState {
    match (s, e) {
        (PipelineState::Received, PipelineEvent::ParseOk) => PipelineState::Parsed,
        (PipelineState::Parsed, PipelineEvent::AssumptionsOk) => PipelineState::AssumptionsResolved,
        (
            PipelineState::AssumptionsResolved,
            PipelineEvent::ProvingStarted,
        ) => PipelineState::Proving,
        (PipelineState::Proving, PipelineEvent::ReceiptVerified) => PipelineState::Verified,
        (PipelineState::Verified, PipelineEvent::ArtifactPublished) => PipelineState::Published,
        _ => PipelineState::Dropped,
    }
}

/// A state from which no event moves the message any further.
pub open spec fn is_terminal(s: PipelineState) -> bool {
    s == PipelineState::Published || s == PipelineState::Dropped
}

/// Advances the pipeline by one event.
pub fn advance(s: PipelineState, e: PipelineEvent) -> (r: PipelineState)
    ensures
        r == next_state(s, e),
{
    match (s, e) {
        (PipelineState::Received, PipelineEvent::ParseOk) => PipelineState::Parsed,
        (PipelineState::Parsed, PipelineEvent::AssumptionsOk) => PipelineState::AssumptionsResolved,
        (
            PipelineState::AssumptionsResolved,
            PipelineEvent::ProvingStarted,
        ) => PipelineState::Proving,
        (PipelineState::Proving, PipelineEvent::ReceiptVerified) => PipelineState::Verified,
        (PipelineState::Verified, PipelineEvent::ArtifactPublished) => PipelineState::Published,
        _ => PipelineState::Dropped,
    }
}

/// Runtime switches for what would otherwise hide behind compile-time
/// conditions: debug output of published artifacts, and benchmarking
/// collection.
#[derive(Clone, Copy, Debug, PartialEq, Eq, Structural)]
pub struct PipelineConfig {
    pub debug_output: bool,
    pub collect_run_data: bool,
}

impl Default for PipelineConfig {
    /// Both switches off: the production configuration.
    fn default() -> (r: Self)
        ensures
            !r.debug_output,
            !r.collect_run_data,
    {
        PipelineConfig { debug_output: false, collect_run_data: false }
    }
}

} // verus!
