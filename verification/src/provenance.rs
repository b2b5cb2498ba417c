//! The host-side provenance check.
//!
//! This crate runs the signature check on the host, before submission: only
//! the cheaper integrity check runs inside the attested boundary, and
//! authenticity trust is delegated to the host operator. A triple whose
//! signature does not validate is excluded from the forwarded provenance
//! metadata; it does not stop the computation.

use vstd::prelude::*;
use crate::crypto::{rsa_sig_valid, verify_signature};
use crate::sig_container::SignatureContainer;

verus! {

/// Whether a forwarded provenance triple carries a valid signature over its
/// commitment.
pub open spec fn container_sig_valid(c: SignatureContainer) -> bool {
    rsa_sig_valid(c.pub_key@, c.commitment@, c.signature@)
}

/// The triples whose signatures validate, in their given order.
pub open spec fn screened(cs: Seq<SignatureContainer>) -> Seq<SignatureContainer>
    decreases cs.len(),
{
    if cs.len() == 0 {
        Seq::empty()
    } else {
        let rest = screened(cs.drop_first());
        if container_sig_valid(cs[0]) {
            seq![cs[0]] + rest
        } else {
            rest
        }
    }
}

/// The signature check of one triple.
pub fn check_container(c: &SignatureContainer) -> (r: bool)
    ensures
        r == container_sig_valid(*c),
{
    verify_signature(c.commitment.as_str(), c.signature.as_str(), c.pub_key.as_str())
}

/// Screens the forwarded provenance triples: keeps exactly those whose
/// signature validates against the stated public key.
pub fn screen_provenance(containers: &Vec<SignatureContainer>) -> (r: Vec<SignatureContainer>)
    ensures
        r@ == screened(containers@),
{
    let n = containers.len();
    let mut kept: Vec<SignatureContainer> = Vec::new();
    let mut i: usize = 0;
    proof {
        assert(containers@.skip(0) =~= containers@);
    }
    while i < n
        invariant
            0 <= i <= n,
            n == containers@.len(),
            screened(containers@) == kept@ + screened(containers@.skip(i as int)),
        decreases n - i,
    {
        proof {
            assert(containers@.skip(i as int)[0] == containers@[i as int]);
            assert(containers@.skip(i as int).drop_first() =~= containers@.skip(i + 1));
        }
        let ghost kept0 = kept@;
        let c = &containers[i];
        if check_container(c) {
            kept.push(
                SignatureContainer {
                    commitment: c.commitment.clone(),
                    signature: c.signature.clone(),
                    pub_key: c.pub_key.clone(),
                },
            );
            proof {
                assert(kept@ =~= kept0 + seq![containers@[i as int]]);
                assert((kept0 + seq![containers@[i as int]]) + screened(containers@.skip(i + 1))
                    =~= kept0 + (seq![containers@[i as int]] + screened(containers@.skip(i + 1))));
            }
        }
        i = i + 1;
    }
    proof {
        assert(containers@.skip(n as int) =~= Seq::<SignatureContainer>::empty());
        assert(kept@ + Seq::<SignatureContainer>::empty() =~= kept@);
    }
    kept
}

} // verus!
