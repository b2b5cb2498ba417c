use base64::Engine;
use proving_service::crypto::verify_signature;
use proving_service::provenance::{check_container, screen_provenance};
use proving_service::sig_container::SignatureContainer;
use rsa::pkcs8::EncodePublicKey;
use rsa::pkcs1v15::Pkcs1v15Sign;
use rsa::{RsaPrivateKey, RsaPublicKey};
use sha2::Digest;

fn key_pair() -> (RsaPrivateKey, String) {
    let mut rng = rand::rngs::OsRng;
    let private_key = RsaPrivateKey::new(&mut rng, 1024).expect("key generation failed");
    let public_key = RsaPublicKey::from(&private_key);
    let pem = public_key
        .to_public_key_pem(rsa::pkcs8::LineEnding::LF)
        .expect("PEM encoding failed");
    (private_key, pem)
}

fn sign(private_key: &RsaPrivateKey, payload: &str) -> String {
    let digest = sha2::Sha256::digest(payload.as_bytes());
    let signature = private_key
        .sign(Pkcs1v15Sign::new::<sha2::Sha256>(), &digest)
        .expect("signing failed");
    base64::engine::general_purpose::STANDARD.encode(signature)
}

#[test]
fn valid_signature_verifies() {
    let (private_key, pem) = key_pair();
    let commitment = "commitment-text";
    let signature = sign(&private_key, commitment);
    assert!(verify_signature(commitment, &signature, &pem));
}

#[test]
fn signature_over_other_payload_is_rejected() {
    let (private_key, pem) = key_pair();
    let signature = sign(&private_key, "commitment-text");
    assert!(!verify_signature("another-commitment", &signature, &pem));
}

#[test]
fn garbage_key_or_signature_is_rejected() {
    let (private_key, pem) = key_pair();
    let signature = sign(&private_key, "commitment-text");
    assert!(!verify_signature("commitment-text", &signature, "not a pem key"));
    assert!(!verify_signature("commitment-text", "!!!not-base64!!!", &pem));
}

#[test]
fn screening_keeps_only_validating_triples() {
    let (private_key, pem) = key_pair();
    let good = SignatureContainer {
        commitment: String::from("c-1"),
        signature: sign(&private_key, "c-1"),
        pub_key: pem.clone(),
    };
    let forged = SignatureContainer {
        commitment: String::from("c-2"),
        signature: sign(&private_key, "c-1"),
        pub_key: pem.clone(),
    };
    assert!(check_container(&good));
    assert!(!check_container(&forged));
    let kept = screen_provenance(&vec![forged, good.clone()]);
    assert_eq!(kept.len(), 1);
    assert_eq!(kept[0].commitment, good.commitment);
}
