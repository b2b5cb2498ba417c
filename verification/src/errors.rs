//! The protocol's error taxonomy.

use vstd::prelude::*;

verus! {

/// Everything that can stop a run or drop a message, across the attested
/// computation and the host pipeline.
#[derive(Clone, Copy, Debug, PartialEq, Eq, Structural)]
pub enum PipelineError {
    /// The inbound payload did not parse into a proving document; the message
    /// is dropped without output.
    SchemaError,
    /// A chain element references a TOC or HOC id that is absent from the
    /// supplied tables; fatal to the run.
    LookupError,
    /// An emission-intensity string does not begin with a readable decimal
    /// factor; fatal to the run.
    FactorParseError,
    /// A transport-leg chain element carries no distance record; fatal.
    MissingDistanceError,
    /// A sensor record's stored commitment differs from the recomputed hash;
    /// fatal, the attested run must not produce output for tampered data.
    CommitmentMismatchError,
    /// A signature over a commitment does not validate against the stated
    /// public key. Checked on the host, so per record this only excludes the
    /// record from forwarded provenance metadata.
    SignatureInvalidError,
    /// A prior proof artifact supplied for composition failed verification;
    /// fatal, a tampered artifact must never be folded in.
    AssumptionVerificationError,
    /// The execution engine could not complete the run; the message is
    /// dropped.
    EngineFailure,
    /// The receipt returned by the engine failed to verify against the known
    /// program digest; nothing is published.
    SelfVerificationFailure,
    /// A quantity left the representable fixed-point range; fatal.
    ValueOverflowError,
}

} // verus!
