use esprinkler::config::{default_pulse_ms, load_from, Ap, Mdns, Raw, Valve};

#[test]
fn defaults_match_documented_config() {
    let ap = Ap::default();
    assert_eq!(ap.ssid, "ESPrinkler-Setup");
    assert_eq!(ap.password, "sprinkler");
    let m = Mdns::default();
    assert_eq!(m.hostname, "esprinkler");
    assert_eq!(m.service, "_sprinkler");
    assert_eq!(default_pulse_ms(), 80);
}

#[test]
fn unparsable_config_uses_defaults() {
    let cfg = load_from(None);
    assert_eq!(cfg.ap.ssid, "ESPrinkler-Setup");
    assert_eq!(cfg.ap.password, "sprinkler");
    assert_eq!(cfg.mdns.hostname, "esprinkler");
    assert_eq!(cfg.mdns.service, "_sprinkler");
    assert!(cfg.valves.is_empty());
}

#[test]
fn parsed_config_is_kept() {
    let raw = Raw {
        ap: Ap { ssid: "Setup".to_string(), password: String::new() },
        mdns: Mdns { hostname: "garden".to_string(), service: "_garden".to_string() },
        valve: vec![Valve {
            name: "Zone 1".to_string(),
            kind: "ac".to_string(),
            pin: Some(4),
            active_low: false,
            open_pin: None,
            close_pin: None,
            pulse_ms: 80,
        }],
    };
    let cfg = load_from(Some(raw));
    assert_eq!(cfg.ap.ssid, "Setup");
    assert_eq!(cfg.ap.password, "");
    assert_eq!(cfg.mdns.hostname, "garden");
    assert_eq!(cfg.mdns.service, "_garden");
    assert_eq!(cfg.valves.len(), 1);
    assert_eq!(cfg.valves[0].name, "Zone 1");
    assert_eq!(cfg.valves[0].pin, Some(4));
}
