//! The product footprint and its transport chain, plus the proof artifact
//! that one pipeline run exports.

use vstd::prelude::*;
use crate::amount::Amount;

verus! {

/// Distances of one transport leg: the actual driven distance, and
/// optionally the great-circle and shortest-feasible distances.
#[derive(Debug, Clone, Copy, PartialEq, Eq, Structural)]
pub struct Distance {
    pub actual: Amount,
    pub gcd: Option<Amount>,
    pub sfd: Option<Amount>,
}

/// Which operation category a chain element draws its emission factor from:
/// exactly one of a transport leg (TOC reference) or a hub visit (HOC
/// reference).
#[derive(Debug, Clone, PartialEq, Eq)]
pub enum LegReference {
    Transport(String),
    Hub(String),
}

/// One leg of a shipment's journey: a transport chain element.
#[derive(Debug, Clone)]
pub struct TCE {
    pub tceId: String,
    pub prevTceIds: Vec<String>,
    pub leg: LegReference,
    pub shipmentId: String,
    pub mass: Amount,
    pub co2eWTW: Option<Amount>,
    pub co2eTTW: Option<Amount>,
    pub transportActivity: Option<Amount>,
    pub distance: Option<Distance>,
}

/// The exported unit of trust: one attested run's receipt, the program
/// identity it was produced under (a hex digest), and the attested PCF value.
#[derive(Debug, Clone)]
pub struct ProductProof {
    pub productFootprintId: String,
    pub proofReceipt: String,
    pub pcf: Amount,
    pub proofReference: String,
    pub imageId: String,
}

#[derive(Debug, Clone)]
pub struct Extension {
    pub specVersion: String,
    pub dataSchema: String,
    pub data: ExtensionData,
}

#[derive(Debug, Clone)]
pub struct ExtensionData {
    pub mass: Amount,
    pub shipmentId: String,
    pub tces: Vec<TCE>,
}

#[derive(Debug, Clone)]
pub struct ProofExtension {
    pub specVersion: String,
    pub dataSchema: String,
    pub author: String,
    pub data: ProofExtensionData,
}

#[derive(Debug, Clone)]
pub struct ProofExtensionData {
    pub mass: Amount,
    pub shipmentId: String,
    pub pcfProofs: Vec<ProductProof>,
}

#[derive(Debug, Clone)]
pub struct ProductFootprint {
    pub id: String,
    pub specVersion: String,
    pub version: i32,
    pub created: String,
    pub status: String,
    pub companyName: String,
    pub companyIds: Vec<String>,
    pub productDescription: String,
    pub productIds: Vec<String>,
    pub productCategoryCpc: i32,
    pub productNameCompany: String,
    pub pcf: Option<Amount>,
    pub comment: String,
    pub extensions: Vec<Extension>,
}

pub fn default_spec_version() -> (r: String)
    ensures
        r@ == "2.0.0"@,
{
    String::from_str("2.0.0")
}

pub fn default_status() -> (r: String)
    ensures
        r@ == "Active"@,
{
    String::from_str("Active")
}

pub fn default_comment() -> (r: String)
    ensures
        r@ == ""@,
{
    proof {
        reveal_strlit("");
    }
    String::new()
}

} // verus!
