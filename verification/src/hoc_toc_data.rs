//! Emission-factor lookup records: transport operation categories (TOC) and
//! hub operation categories (HOC), keyed by opaque string ids.

use vstd::prelude::*;

verus! {

#[derive(Debug, Clone, Copy, PartialEq, Eq, Structural, Hash)]
pub enum CertificationEnum {
    Iso14083_2023,
    Iso14001,
    EcoTransitCert,
    GleCv2,
    GleCv3,
    GleCv3_1,
}

#[derive(Debug, Clone, Copy, PartialEq, Eq, Structural, Hash)]
pub enum TransportMode {
    Road,
    Air,
    Sea,
    Rail,
}

/// Share of one energy carrier in a category's mix.
#[derive(Debug, Clone, PartialEq, Eq, Hash)]
pub struct EnergyCarriers {
    pub energyCarrier: String,
    pub relativeShare: String,
    pub emissionFactorWTW: String,
    pub emissionFactorTTW: String,
}

/// A transport operation category: the emission intensity of one way of
/// moving goods. The intensity strings carry a leading decimal factor and a
/// trailing unit, e.g. `"2.5 kgCO2e/tkm"`.
#[derive(Debug, Clone, PartialEq, Eq, Hash)]
pub struct TocData {
    pub tocId: String,
    pub certifications: Vec<CertificationEnum>,
    pub description: String,
    pub mode: TransportMode,
    pub loadFactor: String,
    pub emptyDistanceFactor: String,
    pub temperatureControl: String,
    pub truckLoadingSequence: String,
    pub airShippingOption: Option<String>,
    pub flightLength: Option<String>,
    pub energyCarriers: Vec<EnergyCarriers>,
    pub co2eIntensityWTW: String,
    pub co2eIntensityTTW: String,
    pub transportActivityUnit: String,
}

/// A hub operation category: the emission intensity of one kind of handling
/// at a fixed site, e.g. `"1.0 kgCO2e/t"`.
#[derive(Debug, Clone, PartialEq, Eq, Hash)]
pub struct HocData {
    pub hocId: String,
    pub passhubType: String,
    pub energyCarriers: Vec<EnergyCarriers>,
    pub co2eIntensityWTW: String,
    pub co2eIntensityTTW: String,
    pub hubActivityUnit: String,
}

} // verus!
