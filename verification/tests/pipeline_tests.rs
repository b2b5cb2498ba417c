use proving_service::amount::{Amount, MICROS_PER_UNIT};
use proving_service::commitment::compute_commitment;
use proving_service::errors::PipelineError;
use proving_service::hoc_toc_data::{HocData, TocData, TransportMode};
use proving_service::pipeline::{
    advance, package_artifact, run_attested_logic, split_proofs, PipelineConfig, PipelineEvent,
    PipelineState,
};
use proving_service::product_footprint::{
    default_comment, default_spec_version, default_status, Distance, Extension, ExtensionData,
    LegReference, ProductFootprint, ProductProof, TCE,
};
use proving_service::proofing_document::{ProofingDocument, TceSensorData};

fn toc(id: &str, wtw: &str) -> TocData {
    TocData {
        tocId: String::from(id),
        certifications: Vec::new(),
        description: String::from("None"),
        mode: TransportMode::Road,
        loadFactor: String::from("1"),
        emptyDistanceFactor: String::from("1"),
        temperatureControl: String::from("None"),
        truckLoadingSequence: String::from("None"),
        airShippingOption: None,
        flightLength: None,
        energyCarriers: Vec::new(),
        co2eIntensityWTW: String::from(wtw),
        co2eIntensityTTW: String::from("None"),
        transportActivityUnit: String::from("None"),
    }
}

fn hoc(id: &str, wtw: &str) -> HocData {
    HocData {
        hocId: String::from(id),
        passhubType: String::from("None"),
        energyCarriers: Vec::new(),
        co2eIntensityWTW: String::from(wtw),
        co2eIntensityTTW: String::from("None"),
        hubActivityUnit: String::from("None"),
    }
}

fn document() -> ProofingDocument {
    let tces = vec![
        TCE {
            tceId: String::from("tce-1"),
            prevTceIds: Vec::new(),
            leg: LegReference::Transport(String::from("toc-1")),
            shipmentId: String::from("ship-1"),
            mass: Amount::from_micros(100 * MICROS_PER_UNIT),
            co2eWTW: None,
            co2eTTW: None,
            transportActivity: None,
            distance: Some(Distance {
                actual: Amount::from_micros(10 * MICROS_PER_UNIT),
                gcd: None,
                sfd: None,
            }),
        },
        TCE {
            tceId: String::from("tce-2"),
            prevTceIds: vec![String::from("tce-1")],
            leg: LegReference::Hub(String::from("hoc-1")),
            shipmentId: String::from("ship-1"),
            mass: Amount::from_micros(50 * MICROS_PER_UNIT),
            co2eWTW: None,
            co2eTTW: None,
            transportActivity: None,
            distance: None,
        },
    ];
    let footprint = ProductFootprint {
        id: String::from("pf-1"),
        specVersion: default_spec_version(),
        version: 0,
        created: String::from("2024-01-01T00:00:00Z"),
        status: default_status(),
        companyName: String::from("Example Logistics"),
        companyIds: Vec::new(),
        productDescription: String::from("shipment"),
        productIds: Vec::new(),
        productCategoryCpc: 0,
        productNameCompany: String::from("shipment"),
        pcf: None,
        comment: default_comment(),
        extensions: vec![Extension {
            specVersion: default_spec_version(),
            dataSchema: String::from("None"),
            data: ExtensionData {
                mass: Amount::from_micros(100 * MICROS_PER_UNIT),
                shipmentId: String::from("ship-1"),
                tces,
            },
        }],
    };
    let payload = "{\"distance\":{\"actual\":10.0}}";
    let salt = "c2FsdA==";
    let records = vec![TceSensorData {
        tceId: String::from("tce-1"),
        sensorkey: String::from("sensor-key-pem"),
        signedSensorData: String::from("signature-b64"),
        sensorData: String::from(payload),
        commitment: compute_commitment(payload, salt),
        salt: String::from(salt),
    }];
    ProofingDocument {
        productFootprint: footprint,
        tocData: vec![toc("toc-1", "2.5 kgCO2e/tkm")],
        hocData: vec![hoc("hoc-1", "1.0 kgCO2e/t")],
        signedSensorData: Some(records),
        proof: Vec::new(),
    }
}

#[test]
fn attested_run_computes_and_forwards_evidence() {
    let doc = document();
    let (total, evidence) = run_attested_logic(&doc, &Vec::new(), &Vec::new()).unwrap();
    assert_eq!(total.as_micros(), 2550 * MICROS_PER_UNIT);
    assert_eq!(evidence.len(), 1);
    assert_eq!(evidence[0].pub_key, "sensor-key-pem");
}

#[test]
fn composing_one_artifact_adds_its_value() {
    let doc = document();
    let prior = vec![Amount::from_micros(450 * MICROS_PER_UNIT)];
    let (total, _) = run_attested_logic(&doc, &prior, &vec![true]).unwrap();
    assert_eq!(total.as_micros(), 3000 * MICROS_PER_UNIT);
}

#[test]
fn failed_verdict_aborts_the_attested_run() {
    let doc = document();
    let prior = vec![Amount::from_micros(450 * MICROS_PER_UNIT)];
    let r = run_attested_logic(&doc, &prior, &vec![false]);
    assert_eq!(r.unwrap_err(), PipelineError::AssumptionVerificationError);
}

#[test]
fn tampered_sensor_record_aborts_the_attested_run() {
    let mut doc = document();
    if let Some(records) = doc.signedSensorData.as_mut() {
        records[0].salt = String::from("b3RoZXI=");
    }
    let r = run_attested_logic(&doc, &Vec::new(), &Vec::new());
    assert_eq!(r.unwrap_err(), PipelineError::CommitmentMismatchError);
}

#[test]
fn document_without_extension_is_a_schema_error() {
    let mut doc = document();
    doc.productFootprint.extensions = Vec::new();
    let r = run_attested_logic(&doc, &Vec::new(), &Vec::new());
    assert_eq!(r.unwrap_err(), PipelineError::SchemaError);
}

#[test]
fn split_proofs_empties_the_document() {
    let mut doc = document();
    doc.proof.push(ProductProof {
        productFootprintId: String::from("pf-0"),
        proofReceipt: String::from("aGk="),
        pcf: Amount::from_micros(450 * MICROS_PER_UNIT),
        proofReference: String::from("123"),
        imageId: String::from("00ff"),
    });
    let taken = split_proofs(&mut doc);
    assert_eq!(taken.len(), 1);
    assert_eq!(taken[0].productFootprintId, "pf-0");
    assert!(doc.proof.is_empty());
    assert_eq!(doc.productFootprint.id, "pf-1");
}

#[test]
fn packaged_artifact_carries_the_run() {
    let receipt: Vec<u8> = vec![104, 105];
    let artifact = package_artifact(
        String::from("pf-1"),
        &receipt,
        String::from("00ff00ff"),
        Amount::from_micros(2550 * MICROS_PER_UNIT),
        String::from("123"),
    );
    assert_eq!(artifact.productFootprintId, "pf-1");
    assert_eq!(artifact.proofReceipt, "aGk=");
    assert_eq!(artifact.pcf.as_micros(), 2550 * MICROS_PER_UNIT);
    assert_eq!(artifact.proofReference, "123");
    assert_eq!(artifact.imageId, "00ff00ff");
}

#[test]
fn pipeline_walks_its_states_in_order() {
    let mut s = PipelineState::Received;
    s = advance(s, PipelineEvent::ParseOk);
    assert_eq!(s, PipelineState::Parsed);
    s = advance(s, PipelineEvent::AssumptionsOk);
    assert_eq!(s, PipelineState::AssumptionsResolved);
    s = advance(s, PipelineEvent::ProvingStarted);
    assert_eq!(s, PipelineState::Proving);
    s = advance(s, PipelineEvent::ReceiptVerified);
    assert_eq!(s, PipelineState::Verified);
    s = advance(s, PipelineEvent::ArtifactPublished);
    assert_eq!(s, PipelineState::Published);
}

#[test]
fn every_failure_drops_the_message() {
    assert_eq!(
        advance(PipelineState::Received, PipelineEvent::ParseFailed),
        PipelineState::Dropped
    );
    assert_eq!(
        advance(PipelineState::Parsed, PipelineEvent::AssumptionsFailed),
        PipelineState::Dropped
    );
    assert_eq!(
        advance(PipelineState::Proving, PipelineEvent::EngineFailed),
        PipelineState::Dropped
    );
    assert_eq!(
        advance(PipelineState::Proving, PipelineEvent::ReceiptInvalid),
        PipelineState::Dropped
    );
}

#[test]
fn default_strings_match_the_record_shape() {
    assert_eq!(default_spec_version(), "2.0.0");
    assert_eq!(default_status(), "Active");
    assert_eq!(default_comment(), "");
}

#[test]
fn default_config_is_production() {
    let c = PipelineConfig::default();
    assert!(!c.debug_output);
    assert!(!c.collect_run_data);
}
