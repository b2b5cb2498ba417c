#![allow(non_snake_case)]
//! A verifiable Product Carbon Footprint (PCF) proving service.
//!
//! The crate implements the protocol core of a pipeline that computes the
//! carbon footprint of a shipment chain and attests the computation through an
//! external zero-knowledge execution engine:
//!
//! * the deterministic emission calculation over transport-chain elements and
//!   emission-factor tables ([`emissions`]),
//! * the sensor-data integrity scheme (salted hash commitments) and the
//!   provenance check (RSA signatures over commitments) ([`commitment`],
//!   [`provenance`]),
//! * the recursive composition of previously attested proof artifacts
//!   ([`composition`]),
//! * the host-side orchestration state machine ([`pipeline`]),
//! * and the transported form of a proof artifact ([`codec`]).
//!
//! Protocol-wide conventions:
//!
//! * The canonical unit of all PCF values is kilograms of CO2 equivalent.
//! * Every quantity (mass, distance, emission factor, PCF) is a non-negative
//!   fixed-point decimal with six fractional digits, held in an [`amount::Amount`].
//!   This makes the emission calculation bit-reproducible across independent
//!   re-executions, which the protocol requires of anything that runs inside
//!   the attested boundary.
//! * The provenance (signature) check runs on the host before submission, so
//!   only the integrity check runs inside the attested boundary; authenticity
//!   trust is therefore delegated to the host operator. Records that fail the
//!   host-side check are excluded from the forwarded provenance metadata and
//!   do not stop the computation.

pub mod amount;
pub mod errors;
pub mod hoc_toc_data;
pub mod product_footprint;
pub mod proofing_document;
pub mod sig_container;
pub mod proof_container;
pub mod crypto;
pub mod emissions;
pub mod commitment;
pub mod provenance;
pub mod composition;
pub mod pipeline;
pub mod metrics;
pub mod codec;
