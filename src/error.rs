use vstd::prelude::*;

verus! {

/// A licensing condition reported by the server or derived from the cache.
/// Each variant carries the license code it concerns.
#[derive(Debug)]
pub enum LicensingError {
    NoLicenseFound(String),
    MachineLimitReached(String),
    TrialEnded(String),
    LicenseNoLongerActive(String),
    IncorrectOfflineCode(String),
    OfflineCodesNotAllowed(String),
    InvalidLicenseCode(String),
    MachineDeactivated(String),
    InvalidLicenseType(String),
    UnknownError((u32, String)),
}

pub const NO_LICENSE_FOUND: u32 = 2;
pub const MACHINE_LIMIT_REACHED: u32 = 4;
pub const TRIAL_ENDED: u32 = 8;
pub const LICENSE_NO_LONGER_ACTIVE: u32 = 16;
pub const INCORRECT_OFFLINE_CODE: u32 = 32;
pub const OFFLINE_CODES_NOT_ALLOWED: u32 = 64;
pub const INVALID_LICENSE_CODE: u32 = 128;
pub const MACHINE_DEACTIVATED: u32 = 256;
pub const INVALID_LICENSE_TYPE: u32 = 512;

/// The licensing error that a raw error code stands for.
pub open spec fn licensing_error_from(code: u32, license_code: String) -> LicensingError {
    if code == NO_LICENSE_FOUND {
        LicensingError::NoLicenseFound(license_code)
    } else if code == MACHINE_LIMIT_REACHED {
        LicensingError::MachineLimitReached(license_code)
    } else if code == TRIAL_ENDED {
        LicensingError::TrialEnded(license_code)
    } else if code == LICENSE_NO_LONGER_ACTIVE {
        LicensingError::LicenseNoLongerActive(license_code)
    } else if code == INCORRECT_OFFLINE_CODE {
        LicensingError::IncorrectOfflineCode(license_code)
    } else if code == OFFLINE_CODES_NOT_ALLOWED {
        LicensingError::OfflineCodesNotAllowed(license_code)
    } else if code == INVALID_LICENSE_CODE {
        LicensingError::InvalidLicenseCode(license_code)
    } else if code == MACHINE_DEACTIVATED {
        LicensingError::MachineDeactivated(license_code)
    } else if code == INVALID_LICENSE_TYPE {
        LicensingError::InvalidLicenseType(license_code)
    } else {
        LicensingError::UnknownError((code, license_code))
    }
}

impl LicensingError {
    /// The error code of this condition.
    pub open spec fn code(&self) -> u32 {
        match self {
            LicensingError::NoLicenseFound(_) => NO_LICENSE_FOUND,
            LicensingError::MachineLimitReached(_) => MACHINE_LIMIT_REACHED,
            LicensingError::TrialEnded(_) => TRIAL_ENDED,
            LicensingError::LicenseNoLongerActive(_) => LICENSE_NO_LONGER_ACTIVE,
            LicensingError::IncorrectOfflineCode(_) => INCORRECT_OFFLINE_CODE,
            LicensingError::OfflineCodesNotAllowed(_) => OFFLINE_CODES_NOT_ALLOWED,
            LicensingError::InvalidLicenseCode(_) => INVALID_LICENSE_CODE,
            LicensingError::MachineDeactivated(_) => MACHINE_DEACTIVATED,
            LicensingError::InvalidLicenseType(_) => INVALID_LICENSE_TYPE,
            LicensingError::UnknownError((c, _)) => *c,
        }
    }

    /// The license code this condition concerns.
    pub open spec fn license(&self) -> String {
        match self {
            LicensingError::NoLicenseFound(l) => *l,
            LicensingError::MachineLimitReached(l) => *l,
            LicensingError::TrialEnded(l) => *l,
            LicensingError::LicenseNoLongerActive(l) => *l,
            LicensingError::IncorrectOfflineCode(l) => *l,
            LicensingError::OfflineCodesNotAllowed(l) => *l,
            LicensingError::InvalidLicenseCode(l) => *l,
            LicensingError::MachineDeactivated(l) => *l,
            LicensingError::InvalidLicenseType(l) => *l,
            LicensingError::UnknownError((_, l)) => *l,
        }
    }

    /// Builds the condition for a raw error code.
    pub fn from_code(code: u32, license_code: String) -> (r: LicensingError)
        ensures
            r == licensing_error_from(code, license_code),
    {
        if code == NO_LICENSE_FOUND {
            LicensingError::NoLicenseFound(license_code)
        } else if code == MACHINE_LIMIT_REACHED {
            LicensingError::MachineLimitReached(license_code)
        } else if code == TRIAL_ENDED {
            LicensingError::TrialEnded(license_code)
        } else if code == LICENSE_NO_LONGER_ACTIVE {
            LicensingError::LicenseNoLongerActive(license_code)
        } else if code == INCORRECT_OFFLINE_CODE {
            LicensingError::IncorrectOfflineCode(license_code)
        } else if code == OFFLINE_CODES_NOT_ALLOWED {
            LicensingError::OfflineCodesNotAllowed(license_code)
        } else if code == INVALID_LICENSE_CODE {
            LicensingError::InvalidLicenseCode(license_code)
        } else if code == MACHINE_DEACTIVATED {
            LicensingError::MachineDeactivated(license_code)
        } else if code == INVALID_LICENSE_TYPE {
            LicensingError::InvalidLicenseType(license_code)
        } else {
            LicensingError::UnknownError((code, license_code))
        }
    }

    /// The error code of this condition.
    pub fn get_error_code(&self) -> (r: u32)
        ensures
            r == self.code(),
    {
        match self {
            LicensingError::NoLicenseFound(_) => NO_LICENSE_FOUND,
            LicensingError::MachineLimitReached(_) => MACHINE_LIMIT_REACHED,
            LicensingError::TrialEnded(_) => TRIAL_ENDED,
            LicensingError::LicenseNoLongerActive(_) => LICENSE_NO_LONGER_ACTIVE,
            LicensingError::IncorrectOfflineCode(_) => INCORRECT_OFFLINE_CODE,
            LicensingError::OfflineCodesNotAllowed(_) => OFFLINE_CODES_NOT_ALLOWED,
            LicensingError::InvalidLicenseCode(_) => INVALID_LICENSE_CODE,
            LicensingError::MachineDeactivated(_) => MACHINE_DEACTIVATED,
            LicensingError::InvalidLicenseType(_) => INVALID_LICENSE_TYPE,
            LicensingError::UnknownError((c, _)) => *c,
        }
    }

    /// The license code this condition concerns.
    pub fn get_license_code(&self) -> (r: String)
        ensures
            r == self.license(),
    {
        match self {
            LicensingError::NoLicenseFound(l) => l.clone(),
            LicensingError::MachineLimitReached(l) => l.clone(),
            LicensingError::TrialEnded(l) => l.clone(),
            LicensingError::LicenseNoLongerActive(l) => l.clone(),
            LicensingError::IncorrectOfflineCode(l) => l.clone(),
            LicensingError::OfflineCodesNotAllowed(l) => l.clone(),
            LicensingError::InvalidLicenseCode(l) => l.clone(),
            LicensingError::MachineDeactivated(l) => l.clone(),
            LicensingError::InvalidLicenseType(l) => l.clone(),
            LicensingError::UnknownError((_, l)) => l.clone(),
        }
    }

    /// The error code together with the license code.
    pub fn get_error_and_license_codes(&self) -> (r: (u32, String))
        ensures
            r.0 == self.code(),
            r.1 == self.license(),
    {
        (self.get_error_code(), self.get_license_code())
    }
}

impl From<(u32, String)> for LicensingError {
    fn from(v: (u32, String)) -> (r: LicensingError) {
        let (code, license_code) = v;
        LicensingError::from_code(code, license_code)
    }
}

impl vstd::std_specs::convert::FromSpecImpl<(u32, String)> for LicensingError {
    open spec fn obeys_from_spec() -> bool {
        true
    }

    open spec fn from_spec(v: (u32, String)) -> LicensingError {
        licensing_error_from(v.0, v.1)
    }
}

/// The error taxonomy of the library.
#[derive(Debug)]
pub enum Error {
    /// A licensing condition, with the license code it concerns.
    LicensingError(LicensingError),
    /// A transport or protocol failure: a bad signature, an undecodable
    /// message, or a failure reported by the server as text.
    ApiError(String),
    /// Local storage could not be read or written.
    IoError,
    /// Data that must be present was absent.
    OptionError(String),
    /// Key agreement or authenticated encryption failed.
    CryptoError(String),
    /// The server could not be reached.
    NetworkError(String),
    /// The clock could not be read.
    SystemTimeError,
}

impl From<LicensingError> for Error {
    fn from(v: LicensingError) -> (r: Error) {
        Error::LicensingError(v)
    }
}

impl vstd::std_specs::convert::FromSpecImpl<LicensingError> for Error {
    open spec fn obeys_from_spec() -> bool {
        true
    }

    open spec fn from_spec(v: LicensingError) -> Error {
        Error::LicensingError(v)
    }
}

/// The character of a decimal digit.
pub open spec fn digit_char(d: nat) -> char {
    if d == 0 { '0' }
    else if d == 1 { '1' }
    else if d == 2 { '2' }
    else if d == 3 { '3' }
    else if d == 4 { '4' }
    else if d == 5 { '5' }
    else if d == 6 { '6' }
    else if d == 7 { '7' }
    else if d == 8 { '8' }
    else { '9' }
}

/// The decimal representation of `n`, without sign or leading zeros.
pub open spec fn decimal_digits(n: nat) -> Seq<char>
    decreases n,
{
    if n < 10 {
        seq![digit_char(n)]
    } else {
        decimal_digits(n / 10).push(digit_char(n % 10))
    }
}

/// Relies on `u32::to_string` (its `Display`): the decimal digits, without
/// sign or leading zeros.
#[verifier::external_body]
fn decimal_text(n: u32) -> (r: String)
    ensures
        r@ == decimal_digits(n as nat),
{
    n.to_string()
}

/// The text an error is reported with.
pub open spec fn error_text(e: Error) -> Seq<char> {
    match e {
        Error::LicensingError(v) => decimal_digits(v.code() as nat),
        Error::ApiError(s) => s@,
        Error::IoError => "There was an IO error"@,
        Error::OptionError(s) => s@,
        Error::CryptoError(s) => s@,
        Error::NetworkError(s) => s@,
        Error::SystemTimeError => "There was an error getting the current time"@,
    }
}

impl Error {
    /// The text of the error: the error code of a licensing condition, the
    /// message of the others.
    pub fn message(&self) -> (r: String)
        ensures
            r@ == error_text(*self),
    {
        match self {
            Error::LicensingError(v) => decimal_text(v.get_error_code()),
            Error::ApiError(s) => s.clone(),
            Error::IoError => "There was an IO error".to_owned(),
            Error::OptionError(s) => s.clone(),
            Error::CryptoError(s) => s.clone(),
            Error::NetworkError(s) => s.clone(),
            Error::SystemTimeError => "There was an error getting the current time".to_owned(),
        }
    }
}

/// Whether an error is the `NoLicenseFound` condition for the given license code.
pub open spec fn is_no_license_found(e: Error, license_code: Seq<char>) -> bool {
    match e {
        Error::LicensingError(LicensingError::NoLicenseFound(l)) => l@ == license_code,
        _ => false,
    }
}

/// Access to an optional value that reports its absence as an error.
pub trait OptionErrors<T: Sized> {
    fn unwrap_or_err(&self, error_message: &str) -> (r: Result<&T, Error>);
}

impl<T: Sized> OptionErrors<T> for Option<T> {
    fn unwrap_or_err(&self, error_message: &str) -> (r: Result<&T, Error>)
        ensures
            match *self {
                Some(v) => r == Ok::<&T, Error>(&v),
                None => match r {
                    Err(Error::OptionError(m)) => m@ == error_message@,
                    _ => false,
                },
            },
    {
        match self {
            Some(v) => Ok(v),
            None => Err(Error::OptionError(error_message.to_owned())),
        }
    }
}

} // verus!
