use oxbar::wifi_info::WifiInfo;

#[test]
fn test_bytes_to_human() {
    assert_eq!(WifiInfo::bytes_to_human(500), "500B");
    assert_eq!(WifiInfo::bytes_to_human(1024), "1.00KB");
    assert_eq!(WifiInfo::bytes_to_human(1048576), "1.00MB");
    assert_eq!(WifiInfo::bytes_to_human(1073741824), "1.00GB");
}

#[test]
fn test_signal_bars() {
    assert_eq!(WifiInfo::signal_to_bars(-45), "▂▄▆█");
    assert_eq!(WifiInfo::signal_to_bars(-65), "▂▄__");
    assert_eq!(WifiInfo::signal_to_bars(-85), "____");
}

#[test]
fn signal_bars_boundaries_select_higher_tier() {
    assert_eq!(WifiInfo::signal_to_bars(-50), "▂▄▆█");
    assert_eq!(WifiInfo::signal_to_bars(-51), "▂▄▆_");
    assert_eq!(WifiInfo::signal_to_bars(-60), "▂▄▆_");
    assert_eq!(WifiInfo::signal_to_bars(-61), "▂▄__");
    assert_eq!(WifiInfo::signal_to_bars(-70), "▂▄__");
    assert_eq!(WifiInfo::signal_to_bars(-71), "▂___");
    assert_eq!(WifiInfo::signal_to_bars(-80), "▂___");
    assert_eq!(WifiInfo::signal_to_bars(-81), "____");
}

#[test]
fn bytes_to_human_edges() {
    assert_eq!(WifiInfo::bytes_to_human(0), "0B");
    assert_eq!(WifiInfo::bytes_to_human(1023), "1023B");
    assert_eq!(WifiInfo::bytes_to_human(1536), "1.50KB");
    // the fraction rounds to a hundred hundredths and carries into the whole part
    assert_eq!(WifiInfo::bytes_to_human(2047), "2.00KB");
    assert_eq!(WifiInfo::bytes_to_human(1048575), "1024.00KB");
    assert_eq!(WifiInfo::bytes_to_human(3 * 1073741824 + 536870912), "3.50GB");
}

#[test]
fn snapshot_from_probe_texts() {
    let wireless = "Inter-| sta-|   Quality        |   Discarded packets\n face | tus | link level noise |  nwid  crypt   frag\n wlan0: 0000   54.  -56.  -256        0      0      0\n";
    let link = "Connected to aa:bb:cc:dd:ee:ff (on wlan0)\n\tSSID: MyNet\n\tfreq: 5180\n\tsignal: -55 dBm\n";
    let info = WifiInfo::new(wireless, link, "2048", "500\n", "17", "abc").unwrap();
    assert_eq!(info.interface, "wlan0");
    assert_eq!(info.ssid, "MyNet");
    assert_eq!(info.signal_strength, -55);
    assert_eq!(info.frequency, "5180 MHz");
    assert_eq!(info.tx_bytes, 2048);
    assert_eq!(info.rx_bytes, 500);
    assert_eq!(info.tx_packets, 17);
    assert_eq!(info.rx_packets, 0);
}

#[test]
fn snapshot_defaults_when_fields_absent() {
    let wireless = "header one\nheader two\n wlp3s0: 0000   70.\n";
    let link = "Not connected.\n";
    let info = WifiInfo::new(wireless, link, "x", "", "0", "0").unwrap();
    assert_eq!(info.interface, "wlp3s0");
    assert_eq!(info.ssid, "Not Connected");
    assert_eq!(info.signal_strength, 0);
    assert_eq!(info.frequency, "Unknown");
    assert_eq!(info.tx_bytes, 0);
    assert_eq!(info.rx_bytes, 0);
}

#[test]
fn frequency_defaults_to_bare_unknown() {
    // a freq: label with nothing after it falls back to the plain sentinel,
    // the same default as a missing label
    let wireless = "h1\nh2\n wlan0: 0000 70.\n";
    let labelled_empty = WifiInfo::new(wireless, "freq:\n", "0", "0", "0", "0").unwrap();
    assert_eq!(labelled_empty.frequency, "Unknown");
    let no_label = WifiInfo::new(wireless, "signal: -40 dBm\n", "0", "0", "0", "0").unwrap();
    assert_eq!(no_label.frequency, "Unknown");
}

#[test]
fn snapshot_fails_without_interface_line() {
    let wireless = "header one\nheader two\n";
    let r = WifiInfo::new(wireless, "", "0", "0", "0", "0");
    match r {
        Err(oxbar::errors::BlockError::MissingFile(m)) => {
            assert_eq!(m, "No active wireless interface");
        }
        _ => panic!("expected the missing-resource error"),
    }
}

#[test]
fn format_display_composes_all_parts() {
    let info = WifiInfo {
        interface: "wlan0".to_string(),
        ssid: "Home".to_string(),
        signal_strength: -55,
        frequency: "5180 MHz".to_string(),
        tx_bytes: 2048,
        rx_bytes: 500,
        tx_packets: 0,
        rx_packets: 0,
    };
    assert_eq!(
        info.format_display(),
        "WiFi: Home ▂▄▆_ (-55 dBm) | 5180 MHz | ↑2.00KB ↓500B"
    );
}

#[test]
fn calculate_rate_subtracts_counters() {
    let mut prev = WifiInfo::default();
    prev.tx_bytes = 40;
    prev.rx_bytes = 30;
    let mut cur = WifiInfo::default();
    cur.tx_bytes = 100;
    cur.rx_bytes = 50;
    assert_eq!(cur.calculate_rate(&prev), (60, 20));
}

#[test]
fn default_snapshot_is_disconnected() {
    let d = WifiInfo::default();
    assert_eq!(d.interface, "");
    assert_eq!(d.ssid, "Disconnected");
    assert_eq!(d.signal_strength, 0);
    assert_eq!(d.frequency, "N/A");
    assert_eq!(d.tx_bytes, 0);
    assert_eq!(d.rx_bytes, 0);
}
