use oxbar::errors::BlockError;
use oxbar::wifi_block::{
    choose_ssid, detect_from_wireless, quality_to_percent, registry_pick, resolve_interface,
    signal_quality, Wifi,
};

#[test]
fn template_renders_connected_state() {
    let wifi = Wifi::new("{ssid} @ {quality}%", 30, 0x2266aa, None);
    let out = wifi
        .content(Ok("HomeNet".to_string()), Ok(42))
        .unwrap();
    assert_eq!(out, "HomeNet @ 42%");
}

#[test]
fn template_renders_disconnected_sentinels() {
    let wifi = Wifi::new("{ssid} @ {quality}%", 30, 0, None);
    let out = wifi
        .content(
            Err(BlockError::CommandFailed("Not connected".to_string())),
            Ok(42),
        )
        .unwrap();
    assert_eq!(out, "Disconnected @ 0%");
    assert!(!out.is_empty());
}

#[test]
fn composite_token_renders_ssid_and_quality() {
    let wifi = Wifi::new("{}", 30, 0, None);
    let out = wifi.content(Ok("Cafe".to_string()), Ok(73)).unwrap();
    assert_eq!(out, "Cafe 73%");
    let disconnected = wifi
        .content(Err(BlockError::CommandFailed("Not connected".to_string())), Ok(0))
        .unwrap();
    assert_eq!(disconnected, "Disconnected");
}

#[test]
fn quality_failure_renders_as_zero() {
    let wifi = Wifi::new("{quality}", 30, 0, None);
    let out = wifi
        .content(
            Ok("Net".to_string()),
            Err(BlockError::InvalidData("Interface not found".to_string())),
        )
        .unwrap();
    assert_eq!(out, "0");
}

#[test]
fn pinned_interface_wins() {
    let wifi = Wifi::new("{}", 30, 0, Some("wlp2s0".to_string()));
    assert_eq!(wifi.get_interface(Some("other0".to_string())), "wlp2s0");
}

#[test]
fn detection_and_default_fall_back_in_order() {
    let wifi = Wifi::new("{}", 30, 0, None);
    assert_eq!(wifi.get_interface(Some("wlx0".to_string())), "wlx0");
    assert_eq!(wifi.get_interface(None), "wlan0");
}

#[test]
fn interface_chain_priority_order() {
    let wireless = "h1\nh2\n wlan9: 0000 54.\n";
    assert_eq!(
        resolve_interface(Some("pin0"), Some("reg0"), Some("list0\n"), Some(wireless)),
        "pin0"
    );
    assert_eq!(
        resolve_interface(None, Some("reg0"), Some("list0\n"), Some(wireless)),
        "reg0"
    );
    assert_eq!(
        resolve_interface(None, None, Some("  list0 \n"), Some(wireless)),
        "list0"
    );
    assert_eq!(resolve_interface(None, None, Some(" \n"), Some(wireless)), "wlan9");
    assert_eq!(resolve_interface(None, None, None, None), "wlan0");
    assert_eq!(resolve_interface(None, None, None, Some("h1\nh2\n")), "wlan0");
}

#[test]
fn detect_reads_first_interface_line() {
    let content = "Inter-| sta-|   Quality\n face | tus | link level\n wlan0: 0000   54.  -56.\n wlan1: 0000   60.  -50.\n";
    assert_eq!(detect_from_wireless(content).unwrap(), "wlan0");
}

#[test]
fn detect_skips_blank_and_colonless_lines() {
    let content = "h1\nh2\n   \nno colon here\n wlp1s0: 0000 70.\n";
    assert_eq!(detect_from_wireless(content).unwrap(), "wlp1s0");
    assert_eq!(detect_from_wireless("h1\nh2\n\n"), None);
    assert_eq!(detect_from_wireless(""), None);
}

#[test]
fn quality_normalization() {
    // raw 70 is the assumed maximum, raw 35 is half of it
    assert_eq!(quality_to_percent(70), 100);
    assert_eq!(quality_to_percent(35), 50);
    assert_eq!(quality_to_percent(100), 100);
    assert_eq!(quality_to_percent(-5), 0);
    assert_eq!(quality_to_percent(0), 0);
    assert_eq!(quality_to_percent(7), 10);
}

#[test]
fn signal_quality_finds_interface_line() {
    let content = "h1\nh2\n wlan0: 0000   70.  -30.  -256        0\n";
    assert_eq!(signal_quality(content, "wlan0").unwrap(), 100);
    let half = "h1\nh2\n wlan0: 0000   35.  -60.  -256        0\n";
    assert_eq!(signal_quality(half, "wlan0").unwrap(), 50);
}

#[test]
fn signal_quality_matches_name_field_not_substring() {
    // wlan1 must not match the wlan10 line, nor a line that merely mentions
    // the name elsewhere
    let content = "h1\nh2\n wlan10: 0000   70.  -30.\n wlan1: 0000   35.  -60.\n";
    assert_eq!(signal_quality(content, "wlan1").unwrap(), 50);
    assert_eq!(signal_quality(content, "wlan10").unwrap(), 100);
}

#[test]
fn registry_pick_takes_first_marked_entry() {
    let walked = vec![
        ("lo".to_string(), false),
        ("eth0".to_string(), false),
        ("wlp2s0".to_string(), true),
        ("wlan9".to_string(), true),
    ];
    assert_eq!(registry_pick(&walked).unwrap(), "wlp2s0");
    let none = vec![("lo".to_string(), false)];
    assert_eq!(registry_pick(&none), None);
    assert_eq!(registry_pick(&Vec::new()), None);
}

#[test]
fn signal_quality_interface_not_found() {
    let content = "h1\nh2\n wlan0: 0000   70.  -30.\n";
    match signal_quality(content, "wlp9s9") {
        Err(BlockError::InvalidData(m)) => assert_eq!(m, "Interface not found"),
        _ => panic!("expected the interface-not-found error"),
    }
}

#[test]
fn signal_quality_rejects_non_numeric_field() {
    let content = "h1\nh2\n wlan0: 0000   abc.  -30.\n";
    match signal_quality(content, "wlan0") {
        Err(BlockError::InvalidData(m)) => assert_eq!(m, "Invalid quality value"),
        _ => panic!("expected the invalid-quality error"),
    }
}

#[test]
fn ssid_chain_takes_first_usable_output() {
    assert_eq!(
        choose_ssid(Some(" MyNet \n"), None, None).unwrap(),
        "MyNet"
    );
    assert_eq!(
        choose_ssid(Some("   \n"), Some("Second"), Some("Third")).unwrap(),
        "Second"
    );
    assert_eq!(
        choose_ssid(None, None, Some("Third\n")).unwrap(),
        "Third"
    );
}

#[test]
fn ssid_chain_exhaustion_is_not_connected() {
    match choose_ssid(None, Some(""), Some("  \n")) {
        Err(BlockError::CommandFailed(m)) => assert_eq!(m, "Not connected"),
        _ => panic!("expected the not-connected condition"),
    }
}

#[test]
fn wifi_getters_are_fixed() {
    let wifi = Wifi::new("{}", 12, 0x123456, None);
    assert_eq!(wifi.interval(), 12);
    assert_eq!(wifi.color(), 0x123456);
}
