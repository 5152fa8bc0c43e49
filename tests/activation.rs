use base64::Engine;
use p384::ecdsa::signature::DigestSigner;
use p384::ecdsa::{Signature, SigningKey, VerifyingKey};
use sha2::Digest;
use software_licensor_static_rust_lib::activation::{
    accept_envelope, all_product_ids, start_session, apply_pubkey_repo, build_request, ecdsa_key_expired, failure_error, prepare_activation,
    rotate_ecdh_key, store_response, verify_response, Session,
};
use software_licensor_static_rust_lib::codec::{open_payload, seal_payload, SymmetricAlgorithm};
use software_licensor_static_rust_lib::error::{Error, LicensingError};
use software_licensor_static_rust_lib::model::{ActivationResponse, EcdhKey, EcdsaKey, KeyFile, PersistedLicenseState};

fn ids(v: &[&str]) -> Vec<String> {
    v.iter().map(|s| s.to_string()).collect()
}

fn ecdh(id: &str) -> EcdhKey {
    EcdhKey { ecdh_key_id: id.to_string(), ecdh_public_key: vec![4u8; 97] }
}

fn server_signing_key() -> SigningKey {
    SigningKey::from_slice(&[11u8; 48]).unwrap()
}

fn ecdsa_key(expiration: u64) -> EcdsaKey {
    let vk = VerifyingKey::from(&server_signing_key());
    EcdsaKey {
        ecdsa_key_id: "sig-1".to_string(),
        ecdsa_public_key: vk.to_encoded_point(false).as_bytes().to_vec(),
        expiration,
    }
}

fn response_with(key_files: &[&str], errors: &[&str]) -> ActivationResponse {
    ActivationResponse {
        customer_first_name: "".to_string(),
        customer_last_name: "".to_string(),
        customer_email: "".to_string(),
        key_files: key_files
            .iter()
            .map(|id| {
                (
                    id.to_string(),
                    KeyFile {
                        product_id: id.to_string(),
                        product_version: "".to_string(),
                        license_code: "".to_string(),
                        license_type: "".to_string(),
                        machine_id: "".to_string(),
                        timestamp: 0,
                        expiration_timestamp: 0,
                        check_back_timestamp: 0,
                        message: "".to_string(),
                        message_code: 1,
                        post_expiration_error_code: 0,
                    },
                )
            })
            .collect(),
        key_file_signatures: vec![],
        licensing_errors: errors.iter().map(|id| (id.to_string(), 8)).collect(),
    }
}

#[test]
fn activation_covers_cached_products_once() {
    let mut state = PersistedLicenseState::empty();
    state.license_activation_response = Some(response_with(&["b", "c"], &["c", "d"]));
    let mut all = all_product_ids(&state, &ids(&["a", "b", "a"]));
    all.sort();
    assert_eq!(all, ids(&["a", "b", "c", "d"]));
}

#[test]
fn activation_without_products_is_no_license() {
    let mut state = PersistedLicenseState::empty();
    match prepare_activation(&mut state, "CODE", &vec![]) {
        Err(Error::LicensingError(LicensingError::NoLicenseFound(code))) => assert_eq!(code, ""),
        other => panic!("unexpected {:?}", other),
    }
    assert_eq!(state.license_code, "CODE");
    let ids = prepare_activation(&mut state, "CODE2", &ids(&["p"])).unwrap();
    assert_eq!(ids, vec!["p".to_string()]);
    assert_eq!(state.license_code, "CODE2");
}

#[test]
fn failure_bodies_are_codes_or_text() {
    match failure_error("8", "LC") {
        Error::LicensingError(LicensingError::TrialEnded(code)) => assert_eq!(code, "LC"),
        other => panic!("unexpected {:?}", other),
    }
    assert!(matches!(failure_error("+256", "LC"), Error::LicensingError(LicensingError::MachineDeactivated(_))));
    assert!(matches!(failure_error("4", "LC"), Error::LicensingError(LicensingError::MachineLimitReached(_))));
    assert!(matches!(
        failure_error("1000", "LC"),
        Error::LicensingError(LicensingError::UnknownError((1000, _)))
    ));
    match failure_error("Internal server error", "LC") {
        Error::ApiError(text) => assert_eq!(text, "Internal server error"),
        other => panic!("unexpected {:?}", other),
    }
    assert!(matches!(failure_error("4294967296", "LC"), Error::ApiError(_)));
    assert!(matches!(failure_error("", "LC"), Error::ApiError(_)));
    assert!(matches!(failure_error("+", "LC"), Error::ApiError(_)));
    assert!(matches!(failure_error("-4", "LC"), Error::ApiError(_)));
}

fn signed_header(body: &[u8]) -> Vec<u8> {
    let sig: Signature = server_signing_key().sign_digest(sha2::Sha384::new_with_prefix(body));
    base64::prelude::BASE64_STANDARD_NO_PAD.encode(sig.to_der().as_bytes()).into_bytes()
}

#[test]
fn signed_response_is_accepted() {
    let mut state = PersistedLicenseState::empty();
    state.server_ecdsa_key = Some(ecdsa_key(100));
    let body = b"response body".to_vec();
    let header = signed_header(&body);
    assert!(verify_response(&state, Some(&header), &body).is_ok());
}

#[test]
fn altered_or_unsigned_response_is_refused() {
    let mut state = PersistedLicenseState::empty();
    state.server_ecdsa_key = Some(ecdsa_key(100));
    let body = b"response body".to_vec();
    let header = signed_header(&body);
    let mut altered = body.clone();
    altered[0] ^= 1;
    assert!(matches!(verify_response(&state, Some(&header), &altered), Err(Error::ApiError(_))));
    assert!(matches!(verify_response(&state, None, &body), Err(Error::ApiError(_))));
    assert!(matches!(verify_response(&state, Some(b"***"), &body), Err(Error::ApiError(_))));
    let padded = base64::prelude::BASE64_STANDARD.encode(b"x").into_bytes();
    assert!(matches!(verify_response(&state, Some(&padded), &body), Err(Error::ApiError(_))));
    let empty = PersistedLicenseState::empty();
    assert!(matches!(verify_response(&empty, Some(&header), &body), Err(Error::ApiError(_))));
}

#[test]
fn key_rotation_replaces_the_next_key() {
    let mut state = PersistedLicenseState::empty();
    state.next_server_ecdh_key = Some(ecdh("old"));
    assert!(matches!(rotate_ecdh_key(&mut state, None), Err(Error::OptionError(_))));
    assert_eq!(state.next_server_ecdh_key.as_ref().unwrap().ecdh_key_id, "old");
    rotate_ecdh_key(&mut state, Some(ecdh("new"))).unwrap();
    assert_eq!(state.next_server_ecdh_key.as_ref().unwrap().ecdh_key_id, "new");
    store_response(&mut state, response_with(&["x"], &[]));
    assert_eq!(state.license_activation_response.unwrap().key_files[0].0, "x");
}

#[test]
fn pubkey_repository_picks_key_by_low_bits() {
    let keys = vec![ecdh("k0"), ecdh("k1"), ecdh("k2"), ecdh("k3")];
    let mut state = PersistedLicenseState::empty();
    apply_pubkey_repo(&mut state, Some(ecdsa_key(50)), keys, true, 6).unwrap();
    assert_eq!(state.next_server_ecdh_key.as_ref().unwrap().ecdh_key_id, "k2");
    assert_eq!(state.server_ecdsa_key.as_ref().unwrap().expiration, 50);

    let keys = vec![ecdh("k0"), ecdh("k1")];
    apply_pubkey_repo(&mut state, Some(ecdsa_key(60)), keys, false, 1).unwrap();
    assert_eq!(state.next_server_ecdh_key.as_ref().unwrap().ecdh_key_id, "k2");
    assert_eq!(state.server_ecdsa_key.as_ref().unwrap().expiration, 60);

    assert!(matches!(apply_pubkey_repo(&mut state, None, vec![ecdh("k0")], true, 0), Err(Error::ApiError(_))));
    assert!(matches!(apply_pubkey_repo(&mut state, Some(ecdsa_key(70)), vec![], true, 0), Err(Error::ApiError(_))));
    assert_eq!(state.server_ecdsa_key.as_ref().unwrap().expiration, 60);
}

#[test]
fn signing_key_expiry() {
    let mut state = PersistedLicenseState::empty();
    assert!(matches!(ecdsa_key_expired(&state, 10), Err(Error::OptionError(_))));
    state.server_ecdsa_key = Some(ecdsa_key(10));
    assert_eq!(ecdsa_key_expired(&state, 10).unwrap(), false);
    assert_eq!(ecdsa_key_expired(&state, 11).unwrap(), true);
}

#[test]
fn request_envelope_carries_the_sealed_payload() {
    let mut state = PersistedLicenseState::empty();
    let session = Session {
        algorithm: SymmetricAlgorithm::ChaCha20Poly1305,
        key: vec![1u8; 32],
        salt: vec![2u8; 48],
        nonce: vec![3u8; 12],
        client_public_key: vec![4u8; 97],
    };
    assert!(matches!(build_request(&state, &session, "store", b"inner", 77), Err(Error::OptionError(_))));
    state.next_server_ecdh_key = Some(ecdh("k9"));
    state.server_ecdsa_key = Some(ecdsa_key(100));
    let env = build_request(&state, &session, "store", b"inner", 77).unwrap();
    assert_eq!(env.symmetric_algorithm, "chacha20-poly1305");
    assert_eq!(env.client_id, "store");
    assert_eq!(env.server_ecdsa_key_id, "sig-1");
    assert_eq!(env.timestamp, 77);
    assert_eq!(env.decryption_info.server_ecdh_key_id, "k9");
    assert_eq!(env.decryption_info.ecdh_info, b"Software Licensor Authentication v2".to_vec());
    assert_eq!(env.decryption_info.ecdh_salt, vec![2u8; 48]);
    assert_eq!(env.decryption_info.client_ecdh_pubkey, vec![4u8; 97]);
    assert_eq!(&env.data[..12], &[3u8; 12]);
    assert_eq!(open_payload(session.algorithm, &session.key, &env.data).unwrap(), b"inner".to_vec());
}

#[test]
fn envelope_rotates_the_key_then_decrypts() {
    let session = Session {
        algorithm: SymmetricAlgorithm::Aes256Gcm,
        key: vec![1u8; 32],
        salt: vec![2u8; 48],
        nonce: vec![3u8; 12],
        client_public_key: vec![4u8; 97],
    };
    let mut state = PersistedLicenseState::empty();
    state.next_server_ecdh_key = Some(ecdh("old"));
    let data = seal_payload(session.algorithm, &session.key, &[8u8; 12], b"payload").unwrap();
    assert!(matches!(accept_envelope(&mut state, &session, None, &data), Err(Error::OptionError(_))));
    assert_eq!(state.next_server_ecdh_key.as_ref().unwrap().ecdh_key_id, "old");
    assert_eq!(accept_envelope(&mut state, &session, Some(ecdh("new")), &data).unwrap(), b"payload".to_vec());
    assert_eq!(state.next_server_ecdh_key.as_ref().unwrap().ecdh_key_id, "new");
    let mut bad = data.clone();
    bad[20] ^= 4;
    assert!(matches!(accept_envelope(&mut state, &session, Some(ecdh("newer")), &bad), Err(Error::CryptoError(_))));
    assert_eq!(state.next_server_ecdh_key.as_ref().unwrap().ecdh_key_id, "newer");
}

#[test]
fn session_key_matches_the_server_side() {
    let server_secret = p384::SecretKey::from_slice(&[21u8; 48]).unwrap();
    let server_public = server_secret.public_key();
    let client_secret = [33u8; 48];
    let mut state = PersistedLicenseState::empty();
    let salt = [5u8; 48];
    let nonce = [6u8; 12];
    assert!(matches!(
        start_session(&state, SymmetricAlgorithm::Aes256Gcm, &client_secret, &salt, &nonce),
        Err(Error::OptionError(_))
    ));
    state.next_server_ecdh_key = Some(EcdhKey {
        ecdh_key_id: "k".to_string(),
        ecdh_public_key: server_public.to_sec1_bytes().to_vec(),
    });
    let session = start_session(&state, SymmetricAlgorithm::Aes256Gcm, &client_secret, &salt, &nonce).unwrap();
    assert_eq!(session.key.len(), 32);
    assert_eq!(session.client_public_key.len(), 97);
    assert_eq!(session.client_public_key[0], 4);
    assert_eq!(session.salt, salt.to_vec());
    assert_eq!(session.nonce, nonce.to_vec());

    let client_public = p384::PublicKey::from_sec1_bytes(&session.client_public_key).unwrap();
    let shared = p384::ecdh::diffie_hellman(server_secret.to_nonzero_scalar(), client_public.as_affine());
    let mut expected = [0u8; 32];
    shared
        .extract::<sha2::Sha384>(Some(&salt))
        .expand(b"Software Licensor Authentication v2", &mut expected)
        .unwrap();
    assert_eq!(session.key, expected.to_vec());
    assert_ne!(session.key, client_secret[..32].to_vec());

    state.next_server_ecdh_key.as_mut().unwrap().ecdh_public_key = vec![4u8; 97];
    assert!(matches!(
        start_session(&state, SymmetricAlgorithm::Aes256Gcm, &client_secret, &salt, &nonce),
        Err(Error::CryptoError(_))
    ));
    state.next_server_ecdh_key.as_mut().unwrap().ecdh_public_key = server_public.to_sec1_bytes().to_vec();
    assert!(matches!(
        start_session(&state, SymmetricAlgorithm::Aes256Gcm, &[0u8; 48], &salt, &nonce),
        Err(Error::CryptoError(_))
    ));
}
