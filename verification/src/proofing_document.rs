//! The unit submitted for attested execution: one footprint with its chain,
//! the factor tables it references, sensor commitments, and prior proofs.

use vstd::prelude::*;
use crate::hoc_toc_data::{HocData, TocData};
use crate::product_footprint::{Distance, ProductFootprint, ProductProof};

verus! {

/// A sensor-data commitment bound to one chain element.
///
/// `sensorData` holds the sensor payload in its serialized form, exactly as
/// it was hashed: the commitment is the base64 SHA-256 digest of that text
/// followed by the salt, and `signedSensorData` is an RSA signature over the
/// commitment, verifiable with the PEM public key in `sensorkey`.
#[derive(Debug, Clone)]
pub struct TceSensorData {
    pub tceId: String,
    pub sensorkey: String,
    pub signedSensorData: String,
    pub sensorData: String,
    pub commitment: String,
    pub salt: String,
}

/// The structured shape of a sensor payload before serialization.
#[derive(Debug, Clone, Copy, PartialEq, Eq, Structural)]
pub struct SensorData {
    pub distance: Distance,
}

/// Everything one attested run consumes.
#[derive(Debug, Clone)]
pub struct ProofingDocument {
    pub productFootprint: ProductFootprint,
    pub tocData: Vec<TocData>,
    pub hocData: Vec<HocData>,
    pub signedSensorData: Option<Vec<TceSensorData>>,
    pub proof: Vec<ProductProof>,
}

} // verus!
