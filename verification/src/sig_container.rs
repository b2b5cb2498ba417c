//! The provenance triple forwarded out of an attested run.

use vstd::prelude::*;

verus! {

/// A commitment, the signature over it, and the signer's PEM public key,
/// as the attested run forwards them for the host-side provenance check.
#[derive(Debug, Clone)]
pub struct SignatureContainer {
    pub commitment: String,
    pub signature: String,
    pub pub_key: String,
}

} // verus!
