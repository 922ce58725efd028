use esprinkler::config::Valve;
use esprinkler::pages::{
    root_page, save_request, setup_page, status_page, valve_names, SaveReply, SETUP_HTML,
};

#[test]
fn setup_page_is_the_setup_form() {
    let page = setup_page();
    assert_eq!(page, SETUP_HTML);
    assert!(page.starts_with("<!doctype html>"));
    assert!(page.contains("<form method=post action=/save>"));
    assert!(page.contains("<input name=ssid required>"));
    assert!(page.contains("<input name=password type=password>"));
    assert!(page.contains("<title>ESPrinkler setup</title>"));
}

#[test]
fn status_page_lists_valves() {
    let names = vec!["Zone 1".to_string(), "Zone 2".to_string()];
    let page = status_page(&names);
    let expected = "<!doctype html><html><head><meta name=viewport content='width=device-width,initial-scale=1'><title>ESPrinkler</title><style>body{font-family:sans-serif;max-width:28rem;margin:2rem auto;padding:0 1rem}</style></head><body><h1>ESPrinkler</h1><p>Connected. 2 valve(s):</p><ul><li>Valve 1: Zone 1</li><li>Valve 2: Zone 2</li></ul><p><em>Manual control &amp; schedules coming soon.</em></p></body></html>";
    assert_eq!(page, expected);
}

#[test]
fn status_page_without_valves() {
    let page = status_page(&[]);
    assert!(page.contains("<p>Connected. 0 valve(s):</p><ul></ul>"));
}

#[test]
fn status_page_counts_past_nine() {
    let names: Vec<String> = (1..=12).map(|i| format!("v{}", i)).collect();
    let page = status_page(&names);
    assert!(page.contains("Connected. 12 valve(s):"));
    assert!(page.contains("<li>Valve 10: v10</li><li>Valve 11: v11</li><li>Valve 12: v12</li></ul>"));
}

#[test]
fn root_page_by_mode() {
    let names = vec!["Lawn".to_string()];
    assert_eq!(root_page(false, &names), setup_page());
    assert_eq!(root_page(true, &names), status_page(&names));
}

#[test]
fn valve_names_in_order() {
    let valve = |name: &str| Valve {
        name: name.to_string(),
        kind: "ac".to_string(),
        pin: Some(4),
        active_low: false,
        open_pin: None,
        close_pin: None,
        pulse_ms: 80,
    };
    let names = valve_names(&vec![valve("A"), valve("B")]);
    assert_eq!(names, vec!["A".to_string(), "B".to_string()]);
}

#[test]
fn save_request_accepts_form() {
    match save_request(b"ssid=Home+Net&password=secret%21") {
        SaveReply::Accepted { ssid, password, body } => {
            assert_eq!(ssid, "Home Net");
            assert_eq!(password, "secret!");
            assert_eq!(body.as_bytes(), b"Saved. Rebooting to join your WiFi\xE2\x80\xA6");
        }
        SaveReply::Rejected { .. } => panic!("form was refused"),
    }
}

#[test]
fn save_request_open_network() {
    match save_request(b"ssid=Cafe&password=") {
        SaveReply::Accepted { ssid, password, .. } => {
            assert_eq!(ssid, "Cafe");
            assert_eq!(password, "");
        }
        SaveReply::Rejected { .. } => panic!("form was refused"),
    }
}

#[test]
fn save_request_rejects_missing_ssid() {
    for body in [&b"password=x"[..], b"ssid=&password=x", b""] {
        match save_request(body) {
            SaveReply::Rejected { status, body } => {
                assert_eq!(status, 400);
                assert_eq!(body, "Missing SSID");
            }
            SaveReply::Accepted { .. } => panic!("form without SSID was accepted"),
        }
    }
}

#[test]
fn save_request_invalid_utf8_body_is_empty() {
    match save_request(b"ssid=a\xff&password=b") {
        SaveReply::Rejected { status, .. } => assert_eq!(status, 400),
        SaveReply::Accepted { .. } => panic!("invalid body was accepted"),
    }
}

#[test]
fn save_reads_back_setup_form_example() {
    let body = format!("ssid={}&password={}", "My=Net", "pa ss");
    match save_request(body.as_bytes()) {
        SaveReply::Accepted { ssid, password, .. } => {
            assert_eq!(ssid, "My=Net");
            assert_eq!(password, "pa ss");
        }
        SaveReply::Rejected { .. } => panic!("form was refused"),
    }
}
