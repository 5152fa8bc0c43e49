use software_licensor_static_rust_lib::error::LicensingError;
use software_licensor_static_rust_lib::model::{ActivationResponse, KeyFile, PersistedLicenseState};
use software_licensor_static_rust_lib::selection::{get_latest_key_file, remove_key_files};

fn key_file(product_id: &str, expiration: u64, check_back: u64, message_code: u32) -> KeyFile {
    KeyFile {
        product_id: product_id.to_string(),
        product_version: "1.0".to_string(),
        license_code: "A".to_string(),
        license_type: "trial".to_string(),
        machine_id: "A".to_string(),
        timestamp: 0,
        expiration_timestamp: expiration,
        check_back_timestamp: check_back,
        message: "".to_string(),
        message_code,
        post_expiration_error_code: 0,
    }
}

fn empty_response() -> ActivationResponse {
    ActivationResponse {
        customer_first_name: "".to_string(),
        customer_last_name: "".to_string(),
        customer_email: "".to_string(),
        key_files: Vec::new(),
        key_file_signatures: Vec::new(),
        licensing_errors: Vec::new(),
    }
}

fn state_with(response: ActivationResponse) -> PersistedLicenseState {
    let mut state = PersistedLicenseState::empty();
    state.license_code = "LICENSE-CODE-0001".to_string();
    state.license_activation_response = Some(response);
    state
}

fn ids(v: &[&str]) -> Vec<String> {
    v.iter().map(|s| s.to_string()).collect()
}

#[test]
fn key_file_ordering() {
    let mut license_response = empty_response();
    let expired_product_id = "expired_product_id".to_string();
    let recent_but_inactive_product_id = "recent_product_id_but_inactive".to_string();
    let newest_product_id = "newest_product_id".to_string();
    let product_ids: Vec<String> = vec![
        expired_product_id.clone(),
        recent_but_inactive_product_id.clone(),
        newest_product_id.clone(),
    ];
    license_response.key_files.push((product_ids[0].clone(), key_file(&product_ids[0], 5000, 3000, 8)));
    license_response.key_files.push((product_ids[1].clone(), key_file(&product_ids[1], 8000, 6000, 8)));
    license_response.key_files.push((product_ids[2].clone(), key_file(&product_ids[2], 6000, 5000, 1)));
    license_response.key_file_signatures.push((product_ids[0].clone(), vec![5u8; 96]));
    license_response.key_file_signatures.push((product_ids[1].clone(), vec![5u8; 96]));
    license_response.key_file_signatures.push((product_ids[2].clone(), vec![5u8; 96]));
    let data_storage = state_with(license_response);

    let newest_key_file = get_latest_key_file(&data_storage, &product_ids.clone()).expect("Possibly lacking file read permissions").0;
    assert_eq!("newest_product_id", newest_key_file.product_id);
    let newest_key_file = get_latest_key_file(&data_storage, &product_ids.clone()).expect("Possibly lacking file read permissions").0;
    assert_eq!("newest_product_id", newest_key_file.product_id);
}

#[test]
fn selection_ignores_the_order_of_candidates() {
    let files = [
        ("expired", 5000, 3000, 8),
        ("recent-inactive", 8000, 6000, 8),
        ("newest", 6000, 5000, 1),
    ];
    let orders = [[0, 1, 2], [2, 1, 0], [1, 2, 0], [1, 0, 2]];
    for order in orders.iter() {
        let mut resp = empty_response();
        for &i in order.iter() {
            let (id, e, c, m) = files[i];
            resp.key_files.push((id.to_string(), key_file(id, e, c, m)));
            resp.key_file_signatures.push((id.to_string(), vec![5u8; 96]));
        }
        let state = state_with(resp);
        for id_order in orders.iter() {
            let requested: Vec<String> = id_order.iter().map(|&i| files[i].0.to_string()).collect();
            let (kf, sig) = get_latest_key_file(&state, &requested).unwrap();
            assert_eq!(kf.product_id, "newest");
            assert_eq!(sig, vec![5u8; 96]);
        }
    }
}

#[test]
fn without_an_active_key_file_the_latest_check_back_wins() {
    let mut resp = empty_response();
    for (id, c) in [("a", 100u64), ("b", 900), ("c", 400)] {
        resp.key_files.push((id.to_string(), key_file(id, 10_000, c, 16)));
        resp.key_file_signatures.push((id.to_string(), vec![5u8; 96]));
    }
    let state = state_with(resp);
    let (kf, _) = get_latest_key_file(&state, &ids(&["c", "a", "b"])).unwrap();
    assert_eq!(kf.product_id, "b");
    let (kf, _) = get_latest_key_file(&state, &ids(&["a", "c"])).unwrap();
    assert_eq!(kf.product_id, "c");
}

#[test]
fn among_active_key_files_the_latest_check_back_wins() {
    let mut resp = empty_response();
    for (id, c, m) in [("a", 100u64, 1u32), ("b", 900, 8), ("c", 400, 1)] {
        resp.key_files.push((id.to_string(), key_file(id, 10_000, c, m)));
        resp.key_file_signatures.push((id.to_string(), vec![5u8; 96]));
    }
    let state = state_with(resp);
    let (kf, _) = get_latest_key_file(&state, &ids(&["a", "b", "c"])).unwrap();
    assert_eq!(kf.product_id, "c");
}

#[test]
fn only_requested_products_are_considered() {
    let mut resp = empty_response();
    resp.key_files.push(("other".to_string(), key_file("other", 10_000, 9_000, 1)));
    resp.key_file_signatures.push(("other".to_string(), vec![5u8; 96]));
    resp.key_files.push(("mine".to_string(), key_file("mine", 10_000, 100, 8)));
    resp.key_file_signatures.push(("mine".to_string(), vec![5u8; 96]));
    let state = state_with(resp);
    let (kf, _) = get_latest_key_file(&state, &ids(&["mine"])).unwrap();
    assert_eq!(kf.product_id, "mine");
}

fn error_state(errors: &[(&str, u32)]) -> PersistedLicenseState {
    let mut resp = empty_response();
    for (id, code) in errors {
        resp.licensing_errors.push((id.to_string(), *code));
    }
    state_with(resp)
}

#[test]
fn machine_limit_comes_before_trial_ended_in_any_order() {
    let permutations: [[(&str, u32); 3]; 3] = [
        [("A", 8), ("B", 4), ("C", 32)],
        [("C", 32), ("A", 8), ("B", 4)],
        [("B", 4), ("C", 32), ("A", 8)],
    ];
    for errors in permutations.iter() {
        let state = error_state(errors);
        match get_latest_key_file(&state, &ids(&["A", "B", "C"])) {
            Err(LicensingError::MachineLimitReached(code)) => assert_eq!(code, "LICENSE-CODE-0001"),
            other => panic!("unexpected {:?}", other),
        }
    }
}

#[test]
fn inactive_license_comes_before_trial_ended() {
    let state = error_state(&[("A", 8), ("B", 16)]);
    assert!(matches!(
        get_latest_key_file(&state, &ids(&["A", "B"])),
        Err(LicensingError::LicenseNoLongerActive(_))
    ));
    let state = error_state(&[("A", 32), ("B", 8)]);
    assert!(matches!(get_latest_key_file(&state, &ids(&["A", "B"])), Err(LicensingError::TrialEnded(_))));
}

#[test]
fn other_errors_report_the_first_cached_code() {
    let state = error_state(&[("A", 32), ("B", 64)]);
    assert!(matches!(
        get_latest_key_file(&state, &ids(&["B", "A"])),
        Err(LicensingError::IncorrectOfflineCode(_))
    ));
    let state = error_state(&[("A", 1024)]);
    match get_latest_key_file(&state, &ids(&["A"])) {
        Err(LicensingError::UnknownError((1024, code))) => assert_eq!(code, "LICENSE-CODE-0001"),
        other => panic!("unexpected {:?}", other),
    }
}

#[test]
fn errors_of_other_products_are_ignored() {
    let state = error_state(&[("X", 4)]);
    match get_latest_key_file(&state, &ids(&["A"])) {
        Err(LicensingError::NoLicenseFound(code)) => assert_eq!(code, "LICENSE-CODE-0001"),
        other => panic!("unexpected {:?}", other),
    }
}

#[test]
fn no_cached_response_means_no_license() {
    let state = PersistedLicenseState::empty();
    match get_latest_key_file(&state, &ids(&["A"])) {
        Err(LicensingError::NoLicenseFound(code)) => assert_eq!(code, ""),
        other => panic!("unexpected {:?}", other),
    }
}

#[test]
fn missing_or_malformed_signature_means_no_license() {
    let mut resp = empty_response();
    resp.key_files.push(("a".to_string(), key_file("a", 10, 10, 1)));
    let state = state_with(resp);
    assert!(matches!(get_latest_key_file(&state, &ids(&["a"])), Err(LicensingError::NoLicenseFound(_))));

    let mut resp = empty_response();
    resp.key_files.push(("a".to_string(), key_file("a", 10, 10, 1)));
    resp.key_file_signatures.push(("a".to_string(), vec![5u8; 95]));
    let state = state_with(resp);
    assert!(matches!(get_latest_key_file(&state, &ids(&["a"])), Err(LicensingError::NoLicenseFound(_))));

    let mut resp = empty_response();
    resp.key_files.push(("a".to_string(), key_file("a", 10, 10, 1)));
    resp.key_file_signatures.push(("a".to_string(), vec![0u8; 96]));
    let state = state_with(resp);
    assert!(matches!(get_latest_key_file(&state, &ids(&["a"])), Err(LicensingError::NoLicenseFound(_))));
}

#[test]
fn removing_key_files_keeps_other_products() {
    let mut resp = empty_response();
    resp.key_files.push(("a".to_string(), key_file("a", 10, 10, 1)));
    resp.key_files.push(("b".to_string(), key_file("b", 10, 10, 1)));
    resp.key_file_signatures.push(("a".to_string(), vec![5u8; 96]));
    resp.key_file_signatures.push(("b".to_string(), vec![5u8; 96]));
    resp.licensing_errors.push(("a".to_string(), 8));
    resp.licensing_errors.push(("c".to_string(), 8));
    let mut state = state_with(resp);
    remove_key_files(&mut state, &ids(&["a", "c"]));
    let resp = state.license_activation_response.as_ref().unwrap();
    assert_eq!(resp.key_files.len(), 1);
    assert_eq!(resp.key_files[0].0, "b");
    assert_eq!(resp.key_file_signatures.len(), 1);
    assert_eq!(resp.key_file_signatures[0].0, "b");
    assert!(resp.licensing_errors.is_empty());
    assert_eq!(state.license_code, "LICENSE-CODE-0001");
}
