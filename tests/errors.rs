use software_licensor_static_rust_lib::error::{Error, LicensingError, OptionErrors};
use software_licensor_static_rust_lib::license_data::LicenseData;

#[test]
fn codes_map_to_conditions_and_back() {
    let expected = [
        (2u32, "NoLicenseFound"),
        (4, "MachineLimitReached"),
        (8, "TrialEnded"),
        (16, "LicenseNoLongerActive"),
        (32, "IncorrectOfflineCode"),
        (64, "OfflineCodesNotAllowed"),
        (128, "InvalidLicenseCode"),
        (256, "MachineDeactivated"),
        (512, "InvalidLicenseType"),
        (1, "UnknownError"),
        (3, "UnknownError"),
        (1024, "UnknownError"),
    ];
    for (code, name) in expected {
        let e = LicensingError::from((code, "LC".to_string()));
        assert!(format!("{:?}", e).starts_with(name), "{} -> {:?}", code, e);
        assert_eq!(e.get_error_code(), code);
        assert_eq!(e.get_license_code(), "LC");
        assert_eq!(e.get_error_and_license_codes(), (code, "LC".to_string()));
    }
}

#[test]
fn licensing_error_converts_into_error() {
    let e: Error = LicensingError::TrialEnded("LC".to_string()).into();
    assert!(matches!(e, Error::LicensingError(LicensingError::TrialEnded(_))));
}

#[test]
fn absent_value_is_an_option_error() {
    let some: Option<u32> = Some(5);
    assert_eq!(*some.unwrap_or_err("missing").unwrap(), 5);
    let none: Option<u32> = None;
    match none.unwrap_or_err("missing") {
        Err(Error::OptionError(m)) => assert_eq!(m, "missing"),
        other => panic!("unexpected {:?}", other),
    }
}

#[test]
fn license_data_constructors() {
    let e = LicenseData::error("boom");
    assert_eq!(e.result_code, -1);
    assert_eq!(e.error_message, "boom");
    assert_eq!(e.customer_first_name, "Error");
    assert_eq!(e.license_code, "Error");
    let l = LicenseData::licensing_error(4, "LC");
    assert_eq!(l.result_code, 4);
    assert_eq!(l.license_code, "LC");
    assert_eq!(l.customer_email, "");
}

#[test]
fn error_messages() {
    assert_eq!(Error::LicensingError(LicensingError::TrialEnded("LC".to_string())).message(), "8");
    assert_eq!(Error::LicensingError(LicensingError::InvalidLicenseType("LC".to_string())).message(), "512");
    assert_eq!(Error::LicensingError(LicensingError::UnknownError((4096, "LC".to_string()))).message(), "4096");
    assert_eq!(Error::ApiError("bad".to_string()).message(), "bad");
    assert_eq!(Error::IoError.message(), "There was an IO error");
    assert_eq!(Error::SystemTimeError.message(), "There was an error getting the current time");
}

#[test]
fn outcomes_become_records() {
    let ok = LicenseData::licensing_error(1, "LC");
    let r = LicenseData::from_outcome(Ok(ok));
    assert_eq!(r.result_code, 1);
    assert_eq!(r.license_code, "LC");
    let r = LicenseData::from_outcome(Err(Error::LicensingError(LicensingError::MachineLimitReached("LC".to_string()))));
    assert_eq!(r.result_code, 4);
    assert_eq!(r.license_code, "LC");
    assert_eq!(r.error_message, "");
    let r = LicenseData::from_outcome(Err(Error::ApiError("server down".to_string())));
    assert_eq!(r.result_code, -1);
    assert_eq!(r.error_message, "server down");
    assert_eq!(r.license_code, "Error");
    let r = LicenseData::from_outcome(Err(Error::IoError));
    assert_eq!(r.error_message, "There was an IO error");
}
