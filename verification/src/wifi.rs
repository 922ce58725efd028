//! WiFi provisioning decisions: which saved credentials count, the
//! authentication a password calls for, and the station and setup access
//! point settings, checked against the capacities of the driver's
//! configuration fields.

use vstd::prelude::*;
use vstd::string::*;

verus! {

/// Capacity, in bytes, of the driver's SSID field.
pub const SSID_CAPACITY: usize = 32;

/// Capacity, in bytes, of the driver's password field.
pub const PASSWORD_CAPACITY: usize = 64;

/// Most stations that the setup access point admits at once.
pub const AP_MAX_CONNECTIONS: u16 = 4;

/// Whether the saved password is to be read after reading the SSID: only
/// when an SSID that is not empty was read.
pub fn needs_password(ssid: &Option<String>) -> (read: bool)
    ensures
        read == (*ssid matches Some(s) && s@.len() > 0),
{
    match ssid {
        Some(s) => !s.as_str().is_empty(),
        None => false,
    }
}

/// The saved home-WiFi credentials, from what was read for the `ssid` and
/// `pass` keys (`None` where nothing could be read): none unless an SSID that
/// is not empty was read; a password that could not be read counts as empty.
pub fn stored_credentials(ssid: Option<String>, pass: Option<String>) -> (creds: Option<
    (String, String),
>)
    ensures
        creds is Some <==> (ssid matches Some(s) && s@.len() > 0),
        creds matches Some((s, p)) ==> ssid == Some(s) && (pass matches Some(q) ==> p == q) && (
        pass is None ==> p@.len() == 0),
{
    match ssid {
        Some(s) => {
            if s.as_str().is_empty() {
                None
            } else {
                let p = match pass {
                    Some(q) => q,
                    None => String::new(),
                };
                Some((s, p))
            }
        },
        None => None,
    }
}

/// How a network is secured.
#[derive(PartialEq, Eq, Structural, Clone, Copy, Debug)]
pub enum AuthMode {
    /// No password.
    Open,
    /// WPA2 with a pre-shared key.
    Wpa2Personal,
}

/// The authentication for a password: open when it is empty, else WPA2.
pub open spec fn spec_auth_for(pass: Seq<char>) -> AuthMode {
    if pass.len() == 0 {
        AuthMode::Open
    } else {
        AuthMode::Wpa2Personal
    }
}

/// The authentication for a password: open when it is empty, else WPA2.
pub fn auth_for(pass: &str) -> (auth: AuthMode)
    ensures
        auth == spec_auth_for(pass@),
{
    if pass.is_empty() {
        AuthMode::Open
    } else {
        AuthMode::Wpa2Personal
    }
}

/// Credentials that do not fit the driver's configuration.
#[derive(PartialEq, Eq, Structural, Clone, Copy, Debug)]
pub enum WifiError {
    SsidTooLong,
    PasswordTooLong,
    ApSsidTooLong,
    ApPasswordTooLong,
}

impl WifiError {
    /// The error's message.
    pub fn message(&self) -> (msg: &'static str)
        ensures
            msg@ == match *self {
                WifiError::SsidTooLong => "ssid too long"@,
                WifiError::PasswordTooLong => "password too long"@,
                WifiError::ApSsidTooLong => "ap ssid too long"@,
                WifiError::ApPasswordTooLong => "ap password too long"@,
            },
    {
        match self {
            WifiError::SsidTooLong => "ssid too long",
            WifiError::PasswordTooLong => "password too long",
            WifiError::ApSsidTooLong => "ap ssid too long",
            WifiError::ApPasswordTooLong => "ap password too long",
        }
    }
}

/// Settings for joining a network as a station.
pub struct StationSettings {
    pub ssid: String,
    pub password: String,
    pub auth: AuthMode,
}

/// Settings for the setup access point.
pub struct AccessPointSettings {
    pub ssid: String,
    pub password: String,
    pub auth: AuthMode,
    pub max_connections: u16,
}

/// The settings for joining `ssid` with `pass`: the SSID must fit in
/// `SSID_CAPACITY` bytes, then the password in `PASSWORD_CAPACITY` bytes.
pub fn station_settings(ssid: &str, pass: &str) -> (res: Result<StationSettings, WifiError>)
    ensures
        res matches Err(e) ==> e == (if ssid.spec_bytes().len() > SSID_CAPACITY {
            WifiError::SsidTooLong
        } else {
            WifiError::PasswordTooLong
        }),
        res is Ok <==> ssid.spec_bytes().len() <= SSID_CAPACITY && pass.spec_bytes().len()
            <= PASSWORD_CAPACITY,
        res matches Ok(st) ==> st.ssid@ == ssid@ && st.password@ == pass@ && st.auth
            == spec_auth_for(pass@),
{
    let auth = auth_for(pass);
    if ssid.as_bytes().len() > SSID_CAPACITY {
        return Err(WifiError::SsidTooLong);
    }
    if pass.as_bytes().len() > PASSWORD_CAPACITY {
        return Err(WifiError::PasswordTooLong);
    }
    Ok(
        StationSettings {
            ssid: <String as StringExecFns>::from_str(ssid),
            password: <String as StringExecFns>::from_str(pass),
            auth,
        },
    )
}

/// The settings for the setup access point named `ssid` with password `pass`
/// (open when it is empty), admitting `AP_MAX_CONNECTIONS` stations; the SSID
/// must fit in `SSID_CAPACITY` bytes, then the password in
/// `PASSWORD_CAPACITY` bytes.
pub fn access_point_settings(ssid: &str, pass: &str) -> (res: Result<
    AccessPointSettings,
    WifiError,
>)
    ensures
        res matches Err(e) ==> e == (if ssid.spec_bytes().len() > SSID_CAPACITY {
            WifiError::ApSsidTooLong
        } else {
            WifiError::ApPasswordTooLong
        }),
        res is Ok <==> ssid.spec_bytes().len() <= SSID_CAPACITY && pass.spec_bytes().len()
            <= PASSWORD_CAPACITY,
        res matches Ok(ap) ==> ap.ssid@ == ssid@ && ap.password@ == pass@ && ap.auth
            == spec_auth_for(pass@) && ap.max_connections == AP_MAX_CONNECTIONS,
{
    let auth = auth_for(pass);
    if ssid.as_bytes().len() > SSID_CAPACITY {
        return Err(WifiError::ApSsidTooLong);
    }
    if pass.as_bytes().len() > PASSWORD_CAPACITY {
        return Err(WifiError::ApPasswordTooLong);
    }
    Ok(
        AccessPointSettings {
            ssid: <String as StringExecFns>::from_str(ssid),
            password: <String as StringExecFns>::from_str(pass),
            auth,
            max_connections: AP_MAX_CONNECTIONS,
        },
    )
}

/// What the device runs as after boot.
#[derive(PartialEq, Eq, Structural, Clone, Copy, Debug)]
pub enum WifiMode {
    /// Joined the home network: advertise and serve the status page.
    Station,
    /// Serve the setup page from the device's own access point.
    SetupAp,
}

/// The mode after trying the saved credentials: `None` when none were saved,
/// else whether joining the home network succeeded. The device falls back to
/// the setup access point unless it joined.
pub fn boot_mode(joined: Option<bool>) -> (mode: WifiMode)
    ensures
        mode == (if joined == Some(true) {
            WifiMode::Station
        } else {
            WifiMode::SetupAp
        }),
{
    match joined {
        Some(true) => WifiMode::Station,
        _ => WifiMode::SetupAp,
    }
}

/// A network is open exactly when its password is empty: every password that
/// is not empty, of whatever length, gets WPA2.
pub proof fn lemma_open_exactly_when_no_password(pass: Seq<char>)
    ensures
        (spec_auth_for(pass) == AuthMode::Open) <==> pass.len() == 0,
        (spec_auth_for(pass) == AuthMode::Wpa2Personal) <==> pass.len() > 0,
{
}

} // verus!
