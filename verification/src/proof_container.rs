//! A prior proof as the attested run receives it for composition.

use vstd::prelude::*;

verus! {

/// The program identity (hex digest) and public-output bytes (journal) of a
/// previously attested run. The receipt blob itself stays with the engine;
/// the attested run re-verifies the journal against the digest through the
/// engine before trusting the value decoded from it.
#[derive(Debug, Clone)]
pub struct ProofContainer {
    pub image_id: String,
    pub journal: Vec<u8>,
}

} // verus!
