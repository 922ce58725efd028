use esprinkler::wifi::{
    access_point_settings, boot_mode, needs_password, WifiMode, auth_for, station_settings, stored_credentials, AuthMode, WifiError,
    AP_MAX_CONNECTIONS,
};

#[test]
fn credentials_need_an_ssid() {
    assert!(stored_credentials(None, Some("pw".to_string())).is_none());
    assert!(stored_credentials(Some(String::new()), Some("pw".to_string())).is_none());
}

#[test]
fn credentials_with_and_without_password() {
    assert_eq!(
        stored_credentials(Some("home".to_string()), Some("pw".to_string())),
        Some(("home".to_string(), "pw".to_string()))
    );
    assert_eq!(
        stored_credentials(Some("home".to_string()), None),
        Some(("home".to_string(), String::new()))
    );
}

#[test]
fn auth_by_password() {
    assert_eq!(auth_for(""), AuthMode::Open);
    assert_eq!(auth_for("sprinkler"), AuthMode::Wpa2Personal);
}

#[test]
fn station_settings_ok() {
    let st = station_settings("home", "secret").ok().unwrap();
    assert_eq!(st.ssid, "home");
    assert_eq!(st.password, "secret");
    assert_eq!(st.auth, AuthMode::Wpa2Personal);
    let open = station_settings("cafe", "").ok().unwrap();
    assert_eq!(open.auth, AuthMode::Open);
}

#[test]
fn station_settings_limits() {
    let ssid32 = "s".repeat(32);
    let pass64 = "p".repeat(64);
    assert!(station_settings(&ssid32, &pass64).is_ok());
    assert_eq!(station_settings(&"s".repeat(33), "x").err(), Some(WifiError::SsidTooLong));
    assert_eq!(station_settings("s", &"p".repeat(65)).err(), Some(WifiError::PasswordTooLong));
    assert_eq!(
        station_settings(&"s".repeat(33), &"p".repeat(65)).err(),
        Some(WifiError::SsidTooLong)
    );
    // the limits count bytes: sixteen two-byte characters fill the SSID
    assert!(station_settings(&"\u{e9}".repeat(16), "").is_ok());
    assert_eq!(station_settings(&"\u{e9}".repeat(17), "").err(), Some(WifiError::SsidTooLong));
}

#[test]
fn access_point_settings_default_ap() {
    let ap = access_point_settings("ESPrinkler-Setup", "sprinkler").ok().unwrap();
    assert_eq!(ap.ssid, "ESPrinkler-Setup");
    assert_eq!(ap.password, "sprinkler");
    assert_eq!(ap.auth, AuthMode::Wpa2Personal);
    assert_eq!(ap.max_connections, AP_MAX_CONNECTIONS);
    assert_eq!(AP_MAX_CONNECTIONS, 4);
    assert_eq!(access_point_settings("open", "").ok().unwrap().auth, AuthMode::Open);
}

#[test]
fn access_point_settings_limits() {
    assert_eq!(access_point_settings(&"s".repeat(33), "").err(), Some(WifiError::ApSsidTooLong));
    assert_eq!(
        access_point_settings("s", &"p".repeat(65)).err(),
        Some(WifiError::ApPasswordTooLong)
    );
}

#[test]
fn wifi_error_messages() {
    assert_eq!(WifiError::SsidTooLong.message(), "ssid too long");
    assert_eq!(WifiError::PasswordTooLong.message(), "password too long");
    assert_eq!(WifiError::ApSsidTooLong.message(), "ap ssid too long");
    assert_eq!(WifiError::ApPasswordTooLong.message(), "ap password too long");
}

#[test]
fn boot_falls_back_to_setup_ap() {
    assert_eq!(boot_mode(Some(true)), WifiMode::Station);
    assert_eq!(boot_mode(Some(false)), WifiMode::SetupAp);
    assert_eq!(boot_mode(None), WifiMode::SetupAp);
}

#[test]
fn password_read_only_after_ssid() {
    assert!(needs_password(&Some("home".to_string())));
    assert!(!needs_password(&Some(String::new())));
    assert!(!needs_password(&None));
}
