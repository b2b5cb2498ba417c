use proving_service::amount::{Amount, MICROS_PER_UNIT};
use proving_service::codec::{decode_artifact, encode_artifact};
use proving_service::product_footprint::ProductProof;

fn artifact() -> ProductProof {
    ProductProof {
        productFootprintId: String::from("pf-1"),
        proofReceipt: String::from("aGVsbG8="),
        pcf: Amount::from_micros(2550 * MICROS_PER_UNIT),
        proofReference: String::from("123"),
        imageId: String::from("00ff00ff"),
    }
}

#[test]
fn encoding_is_the_documented_json() {
    let text = encode_artifact(&artifact());
    assert_eq!(
        text,
        "{\"productFootprintId\":\"pf-1\",\"proofReceipt\":\"aGVsbG8=\",\
         \"proofReference\":\"123\",\"pcf\":2550.0,\"imageId\":\"00ff00ff\"}"
    );
}

#[test]
fn encoding_is_wellformed_json() {
    let text = encode_artifact(&artifact());
    let v: serde_json::Value = serde_json::from_str(&text).expect("not valid JSON");
    assert_eq!(v["productFootprintId"], "pf-1");
    assert_eq!(v["proofReceipt"], "aGVsbG8=");
    assert_eq!(v["proofReference"], "123");
    assert_eq!(v["pcf"], 2550.0);
    assert_eq!(v["imageId"], "00ff00ff");
}

#[test]
fn round_trip_reproduces_every_field() {
    let p = artifact();
    let text = encode_artifact(&p);
    let q = decode_artifact(&text).expect("decoding failed");
    assert_eq!(q.productFootprintId, p.productFootprintId);
    assert_eq!(q.proofReceipt, p.proofReceipt);
    assert_eq!(q.proofReference, p.proofReference);
    assert_eq!(q.pcf.as_micros(), p.pcf.as_micros());
    assert_eq!(q.imageId, p.imageId);
}

#[test]
fn round_trip_keeps_fractional_pcf_exact() {
    let mut p = artifact();
    p.pcf = Amount::from_micros(123_456_789); // 123.456789
    let q = decode_artifact(&encode_artifact(&p)).unwrap();
    assert_eq!(q.pcf.as_micros(), 123_456_789);
}

#[test]
fn decoding_a_written_form_by_hand() {
    let text = "{\"productFootprintId\":\"x\",\"proofReceipt\":\"\",\
                \"proofReference\":\"r\",\"pcf\":0.5,\"imageId\":\"aa\"}";
    let p = decode_artifact(text).unwrap();
    assert_eq!(p.productFootprintId, "x");
    assert_eq!(p.proofReceipt, "");
    assert_eq!(p.pcf.as_micros(), 500_000);
    assert_eq!(p.imageId, "aa");
}

#[test]
fn malformed_texts_are_rejected() {
    assert!(decode_artifact("").is_none());
    assert!(decode_artifact("{}").is_none());
    assert!(decode_artifact("{\"productFootprintId\":\"x\"}").is_none());
    // fields out of order
    assert!(decode_artifact(
        "{\"proofReceipt\":\"\",\"productFootprintId\":\"x\",\
         \"proofReference\":\"r\",\"pcf\":0.5,\"imageId\":\"aa\"}"
    )
    .is_none());
    // unreadable number
    assert!(decode_artifact(
        "{\"productFootprintId\":\"x\",\"proofReceipt\":\"\",\
         \"proofReference\":\"r\",\"pcf\":abc,\"imageId\":\"aa\"}"
    )
    .is_none());
    // trailing text
    let mut good = String::from(
        "{\"productFootprintId\":\"x\",\"proofReceipt\":\"\",\
         \"proofReference\":\"r\",\"pcf\":0.5,\"imageId\":\"aa\"}",
    );
    good.push(' ');
    assert!(decode_artifact(&good).is_none());
}
