use proving_service::amount::{Amount, MICROS_PER_UNIT};
use proving_service::emissions::{
    calculate_emissions, emission_factor_hoc, emission_factor_toc, parse_factor, tce_emissions,
};
use proving_service::errors::PipelineError;
use proving_service::hoc_toc_data::{HocData, TocData, TransportMode};
use proving_service::product_footprint::{Distance, LegReference, TCE};

fn toc(id: &str, wtw: &str) -> TocData {
    TocData {
        tocId: String::from(id),
        certifications: Vec::new(),
        description: String::from("None"),
        mode: TransportMode::Road,
        loadFactor: String::from("1"),
        emptyDistanceFactor: String::from("1"),
        temperatureControl: String::from("None"),
        truckLoadingSequence: String::from("None"),
        airShippingOption: None,
        flightLength: None,
        energyCarriers: Vec::new(),
        co2eIntensityWTW: String::from(wtw),
        co2eIntensityTTW: String::from("None"),
        transportActivityUnit: String::from("None"),
    }
}

fn hoc(id: &str, wtw: &str) -> HocData {
    HocData {
        hocId: String::from(id),
        passhubType: String::from("None"),
        energyCarriers: Vec::new(),
        co2eIntensityWTW: String::from(wtw),
        co2eIntensityTTW: String::from("None"),
        hubActivityUnit: String::from("None"),
    }
}

fn transport_tce(id: &str, toc_id: &str, mass_micros: u64, dist_micros: u64) -> TCE {
    TCE {
        tceId: String::from(id),
        prevTceIds: Vec::new(),
        leg: LegReference::Transport(String::from(toc_id)),
        shipmentId: String::from("ship-1"),
        mass: Amount::from_micros(mass_micros),
        co2eWTW: None,
        co2eTTW: None,
        transportActivity: None,
        distance: Some(Distance {
            actual: Amount::from_micros(dist_micros),
            gcd: None,
            sfd: None,
        }),
    }
}

fn hub_tce(id: &str, hoc_id: &str, mass_micros: u64) -> TCE {
    TCE {
        tceId: String::from(id),
        prevTceIds: Vec::new(),
        leg: LegReference::Hub(String::from(hoc_id)),
        shipmentId: String::from("ship-1"),
        mass: Amount::from_micros(mass_micros),
        co2eWTW: None,
        co2eTTW: None,
        transportActivity: None,
        distance: None,
    }
}

#[test]
fn transport_only_scenario() {
    // TOC factor "2.5 kgCO2e/tkm", mass 100.0, distance 10.0 => 2500.0
    let tocs = vec![toc("toc-1", "2.5 kgCO2e/tkm")];
    let hocs: Vec<HocData> = Vec::new();
    let tces = vec![transport_tce("tce-1", "toc-1", 100 * MICROS_PER_UNIT, 10 * MICROS_PER_UNIT)];
    let total = calculate_emissions(&tces, &tocs, &hocs, Amount::zero()).unwrap();
    assert_eq!(total.as_micros(), 2500 * MICROS_PER_UNIT);
}

#[test]
fn hub_only_scenario() {
    // HOC factor "1.0 kgCO2e/t", mass 50.0 => 50.0
    let tocs: Vec<TocData> = Vec::new();
    let hocs = vec![hoc("hoc-1", "1.0 kgCO2e/t")];
    let tces = vec![hub_tce("tce-2", "hoc-1", 50 * MICROS_PER_UNIT)];
    let total = calculate_emissions(&tces, &tocs, &hocs, Amount::zero()).unwrap();
    assert_eq!(total.as_micros(), 50 * MICROS_PER_UNIT);
}

#[test]
fn mixed_scenario() {
    // Both elements in one footprint => 2550.0
    let tocs = vec![toc("toc-1", "2.5 kgCO2e/tkm")];
    let hocs = vec![hoc("hoc-1", "1.0 kgCO2e/t")];
    let tces = vec![
        transport_tce("tce-1", "toc-1", 100 * MICROS_PER_UNIT, 10 * MICROS_PER_UNIT),
        hub_tce("tce-2", "hoc-1", 50 * MICROS_PER_UNIT),
    ];
    let total = calculate_emissions(&tces, &tocs, &hocs, Amount::zero()).unwrap();
    assert_eq!(total.as_micros(), 2550 * MICROS_PER_UNIT);
}

#[test]
fn determinism_repeated_runs() {
    let tocs = vec![toc("toc-1", "2.5 kgCO2e/tkm"), toc("toc-2", "0.75 kg")];
    let hocs = vec![hoc("hoc-1", "1.0 kgCO2e/t")];
    let tces = vec![
        transport_tce("tce-1", "toc-1", 123_456_789, 9_876_543),
        transport_tce("tce-2", "toc-2", 55_500_000, 1_000_001),
        hub_tce("tce-3", "hoc-1", 50 * MICROS_PER_UNIT),
    ];
    let first = calculate_emissions(&tces, &tocs, &hocs, Amount::zero()).unwrap();
    let second = calculate_emissions(&tces, &tocs, &hocs, Amount::zero()).unwrap();
    assert_eq!(first.as_micros(), second.as_micros());
}

#[test]
fn unknown_toc_id_raises_lookup_error() {
    let tocs = vec![toc("toc-1", "2.5 kgCO2e/tkm")];
    let hocs: Vec<HocData> = Vec::new();
    let tces = vec![transport_tce("tce-1", "toc-absent", MICROS_PER_UNIT, MICROS_PER_UNIT)];
    let r = calculate_emissions(&tces, &tocs, &hocs, Amount::zero());
    assert_eq!(r, Err(PipelineError::LookupError));
}

#[test]
fn unknown_hoc_id_raises_lookup_error() {
    let hocs = vec![hoc("hoc-1", "1.0 kgCO2e/t")];
    let r = emission_factor_hoc(&hocs, &String::from("hoc-2"));
    assert_eq!(r, Err(PipelineError::LookupError));
}

#[test]
fn malformed_factor_is_rejected() {
    let tocs = vec![toc("toc-1", "cheap kgCO2e/tkm")];
    let hocs: Vec<HocData> = Vec::new();
    let tces = vec![transport_tce("tce-1", "toc-1", MICROS_PER_UNIT, MICROS_PER_UNIT)];
    let r = calculate_emissions(&tces, &tocs, &hocs, Amount::zero());
    assert_eq!(r, Err(PipelineError::FactorParseError));
}

#[test]
fn missing_distance_is_rejected() {
    let tocs = vec![toc("toc-1", "2.5 kgCO2e/tkm")];
    let hocs: Vec<HocData> = Vec::new();
    let mut tce = transport_tce("tce-1", "toc-1", MICROS_PER_UNIT, MICROS_PER_UNIT);
    tce.distance = None;
    let r = tce_emissions(&tce, &tocs, &hocs);
    assert_eq!(r, Err(PipelineError::MissingDistanceError));
}

#[test]
fn factor_takes_first_token_only() {
    let f = parse_factor(&String::from("2.5 kgCO2e/tkm")).unwrap();
    assert_eq!(f.as_micros(), 2_500_000);
    let g = emission_factor_toc(&vec![toc("t", "0.001 x y z")], &String::from("t")).unwrap();
    assert_eq!(g.as_micros(), 1_000);
}

#[test]
fn factor_lookup_takes_first_match() {
    let tocs = vec![toc("t", "1.5 kg"), toc("t", "9.0 kg")];
    let f = emission_factor_toc(&tocs, &String::from("t")).unwrap();
    assert_eq!(f.as_micros(), 1_500_000);
}

#[test]
fn empty_chain_returns_initial_accumulator() {
    let total = calculate_emissions(
        &Vec::new(),
        &Vec::new(),
        &Vec::new(),
        Amount::from_micros(42),
    )
    .unwrap();
    assert_eq!(total.as_micros(), 42);
}

#[test]
fn accumulator_overflow_is_an_error() {
    let tocs = vec![toc("toc-1", "1.0 kg")];
    let hocs: Vec<HocData> = Vec::new();
    let tces = vec![transport_tce("tce-1", "toc-1", u64::MAX, 2 * MICROS_PER_UNIT)];
    let r = calculate_emissions(&tces, &tocs, &hocs, Amount::zero());
    assert_eq!(r, Err(PipelineError::ValueOverflowError));
}
