use vstd::prelude::*;
use crate::error::{error_text, Error};
use crate::model::{ActivationResponse, KeyFile, PersistedLicenseState};

verus! {

/// The answer handed back to the host application.
///
/// `result_code` is 1 for an active license, a licensing error code for a
/// known negative state, and -1 for a failure that is not a licensing one.
#[derive(Clone, Debug)]
pub struct LicenseData {
    pub result_code: i32,
    pub customer_first_name: String,
    pub customer_last_name: String,
    pub customer_email: String,
    pub license_type: String,
    pub version: String,
    pub error_message: String,
    pub license_code: String,
}

/// Whether `d` reports key file `kf` with `code`, and the customer of the
/// cached response of `state`.
pub open spec fn reports(d: LicenseData, state: PersistedLicenseState, kf: KeyFile, code: i32) -> bool {
    &&& d.result_code == code
    &&& d.license_type@ == kf.license_type@
    &&& d.version@ == kf.product_version@
    &&& d.license_code@ == kf.license_code@
    &&& d.error_message@.len() == 0
    &&& match state.license_activation_response {
        Some(resp) => {
            &&& d.customer_first_name@ == resp.customer_first_name@
            &&& d.customer_last_name@ == resp.customer_last_name@
            &&& d.customer_email@ == resp.customer_email@
        },
        None => {
            &&& d.customer_first_name@.len() == 0
            &&& d.customer_last_name@.len() == 0
            &&& d.customer_email@.len() == 0
        },
    }
}

impl LicenseData {
    pub fn new(
        int_result: i32,
        first_name: &str,
        last_name: &str,
        email: &str,
        license_type: &str,
        version: &str,
        error_message: &str,
        license_code: &str,
    ) -> (r: LicenseData)
        ensures
            r.result_code == int_result,
            r.customer_first_name@ == first_name@,
            r.customer_last_name@ == last_name@,
            r.customer_email@ == email@,
            r.license_type@ == license_type@,
            r.version@ == version@,
            r.error_message@ == error_message@,
            r.license_code@ == license_code@,
    {
        LicenseData {
            result_code: int_result,
            customer_first_name: first_name.to_owned(),
            customer_last_name: last_name.to_owned(),
            customer_email: email.to_owned(),
            license_type: license_type.to_owned(),
            version: version.to_owned(),
            error_message: error_message.to_owned(),
            license_code: license_code.to_owned(),
        }
    }

    /// A failure that is not a licensing condition.
    pub fn error(message: &str) -> (r: LicenseData)
        ensures
            r.result_code == -1,
            r.error_message@ == message@,
            r.customer_first_name@ == "Error"@,
            r.customer_last_name@ == "Error"@,
            r.customer_email@ == "Error"@,
            r.license_type@ == "Error"@,
            r.version@ == "Error"@,
            r.license_code@ == "Error"@,
    {
        LicenseData::new(-1, "Error", "Error", "Error", "Error", "Error", message, "Error")
    }

    /// The details of a key file and its response, with a status code.
    pub fn from_key_file_and_license_response(
        key_file: &KeyFile,
        license_response: &ActivationResponse,
        status_code: i32,
    ) -> (r: LicenseData)
        ensures
            r.result_code == status_code,
            r.customer_first_name@ == license_response.customer_first_name@,
            r.customer_last_name@ == license_response.customer_last_name@,
            r.customer_email@ == license_response.customer_email@,
            r.license_type@ == key_file.license_type@,
            r.version@ == key_file.product_version@,
            r.error_message@.len() == 0,
            r.license_code@ == key_file.license_code@,
    {
        let r = LicenseData::new(
            status_code,
            license_response.customer_first_name.as_str(),
            license_response.customer_last_name.as_str(),
            license_response.customer_email.as_str(),
            key_file.license_type.as_str(),
            key_file.product_version.as_str(),
            "",
            key_file.license_code.as_str(),
        );
        proof {
            reveal_strlit("");
        }
        r
    }

    /// A licensing condition, with the license code it concerns.
    pub fn licensing_error(code: i32, license_code: &str) -> (r: LicenseData)
        ensures
            r.result_code == code,
            r.customer_first_name@.len() == 0,
            r.customer_last_name@.len() == 0,
            r.customer_email@.len() == 0,
            r.license_type@.len() == 0,
            r.version@.len() == 0,
            r.error_message@.len() == 0,
            r.license_code@ == license_code@,
    {
        let r = LicenseData::new(code, "", "", "", "", "", "", license_code);
        proof {
            reveal_strlit("");
        }
        r
    }

    /// The details of a key file with a status code, and the customer of
    /// the cached response of `state`.
    pub fn for_key_file(state: &PersistedLicenseState, key_file: &KeyFile, status_code: i32) -> (r: LicenseData)
        ensures
            reports(r, *state, *key_file, status_code),
    {
        match &state.license_activation_response {
            Some(resp) => LicenseData::from_key_file_and_license_response(key_file, resp, status_code),
            None => {
                let r = LicenseData::new(
                    status_code,
                    "",
                    "",
                    "",
                    key_file.license_type.as_str(),
                    key_file.product_version.as_str(),
                    "",
                    key_file.license_code.as_str(),
                );
                proof {
                    reveal_strlit("");
                }
                r
            },
        }
    }

    /// The record handed back for the outcome of a check: the result itself,
    /// a licensing condition as its code and license code, or any other
    /// failure as an error record carrying the error's text.
    pub fn from_outcome(outcome: Result<LicenseData, Error>) -> (r: LicenseData)
        ensures
            match outcome {
                Ok(d) => r == d,
                Err(Error::LicensingError(v)) => {
                    &&& r.result_code == #[verifier::truncate] (v.code() as i32)
                    &&& r.license_code@ == v.license()@
                    &&& r.customer_first_name@.len() == 0
                    &&& r.customer_last_name@.len() == 0
                    &&& r.customer_email@.len() == 0
                    &&& r.license_type@.len() == 0
                    &&& r.version@.len() == 0
                    &&& r.error_message@.len() == 0
                },
                Err(e) => {
                    &&& r.result_code == -1
                    &&& r.error_message@ == error_text(e)
                    &&& r.customer_first_name@ == "Error"@
                    &&& r.customer_last_name@ == "Error"@
                    &&& r.customer_email@ == "Error"@
                    &&& r.license_type@ == "Error"@
                    &&& r.version@ == "Error"@
                    &&& r.license_code@ == "Error"@
                },
            },
    {
        match outcome {
            Ok(d) => d,
            Err(Error::LicensingError(v)) => {
                let code = v.get_error_code();
                let license_code = v.get_license_code();
                LicenseData::licensing_error(#[verifier::truncate] (code as i32), license_code.as_str())
            },
            Err(e) => {
                let message = e.message();
                LicenseData::error(message.as_str())
            },
        }
    }
}

} // verus!
