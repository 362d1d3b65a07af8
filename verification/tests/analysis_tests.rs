use unifi::analysis::{compute_stats, group_networks};
use unifi::types::Network;

fn net(ssid: Option<&str>, band: &str, signal: i16, security: &str, standards: &[&str]) -> Network {
    let mut n = Network::default();
    n.ssid = ssid.map(|s| s.to_string());
    n.band = band.to_string();
    n.signal = signal;
    n.security = security.to_string();
    n.standards = standards.iter().map(|s| s.to_string()).collect();
    n.is_hidden = ssid.is_none();
    n
}

#[test]
fn test_group_networks_by_ssid() {
    let mut a1 = net(Some("Office"), "2.4", -60, "WPA2", &["n"]);
    a1.protocols.ft = true;
    a1.bssid = "AA:AA:AA:AA:AA:01".to_string();
    let mut a2 = net(Some("Office"), "5", -50, "WPA2", &["ac"]);
    a2.bssid = "AA:AA:AA:AA:AA:02".to_string();
    let mut b = net(Some("Guest"), "2.4", -70, "Open", &["n"]);
    b.protocols.bss_transition = true;
    let h = net(None, "5", -120, "WPA3", &["ax"]);
    let mut a3 = net(Some("Office"), "2.4", -80, "WPA2", &["n"]);
    a3.bssid = "AA:AA:AA:AA:AA:03".to_string();

    let groups = group_networks(vec![a1, a2, b, h, a3]);
    assert_eq!(groups.len(), 3);

    assert_eq!(groups[0].ssid, "Office");
    assert_eq!(groups[0].total_aps, 3);
    assert_eq!(groups[0].networks.len(), 3);
    assert_eq!(groups[0].networks[0].bssid, "AA:AA:AA:AA:AA:01");
    assert_eq!(groups[0].networks[2].bssid, "AA:AA:AA:AA:AA:03");
    assert_eq!(groups[0].bands, vec!["2.4".to_string(), "5".to_string()]);
    assert_eq!(groups[0].best_signal, -50);
    assert!(groups[0].supports_fast_roaming);
    assert!(!groups[0].supports_bss_transition);

    assert_eq!(groups[1].ssid, "Guest");
    assert_eq!(groups[1].total_aps, 1);
    assert!(!groups[1].supports_fast_roaming);
    assert!(groups[1].supports_bss_transition);

    assert_eq!(groups[2].ssid, "[Hidden]");
    assert_eq!(groups[2].total_aps, 1);
    // A signal weaker than -100 dBm leaves the floor of -100.
    assert_eq!(groups[2].best_signal, -100);
}

#[test]
fn test_group_networks_empty() {
    assert!(group_networks(vec![]).is_empty());
}

#[test]
fn test_grouping_keeps_every_network() {
    let nets = vec![
        net(Some("A"), "2.4", -40, "WPA2", &["n"]),
        net(Some("B"), "5", -41, "WPA2", &["ac"]),
        net(Some("A"), "6", -42, "WPA3", &["ax", "be"]),
        net(None, "5", -43, "Open", &[]),
        net(Some("C"), "5", -44, "WPA2", &["ac"]),
        net(None, "2.4", -45, "Open", &["g"]),
    ];
    let total = nets.len();
    let groups = group_networks(nets);
    let aps: u32 = groups.iter().map(|g| g.total_aps).sum();
    assert_eq!(aps as usize, total);
    let names: Vec<&str> = groups.iter().map(|g| g.ssid.as_str()).collect();
    assert_eq!(names, vec!["A", "B", "[Hidden]", "C"]);
}

#[test]
fn test_compute_stats_counts() {
    let nets = vec![
        net(Some("A"), "2.4", -40, "WPA2", &["n", "ax"]),
        net(Some("B"), "5", -41, "WPA2", &["ac", "ax"]),
        net(Some("A"), "5", -42, "WPA3", &["ax", "be"]),
        net(None, "2.4", -43, "Open", &["g"]),
    ];
    let stats = compute_stats(nets, 1234);
    assert_eq!(stats.total_networks, 4);
    assert_eq!(stats.hidden_networks, 1);
    assert_eq!(stats.network_groups, 2);
    assert_eq!(stats.scan_duration_ms, 1234);
    assert_eq!(
        stats.by_band,
        vec![("2.4".to_string(), 2), ("5".to_string(), 2)]
    );
    assert_eq!(
        stats.by_security,
        vec![("WPA2".to_string(), 2), ("WPA3".to_string(), 1), ("Open".to_string(), 1)]
    );
    assert_eq!(
        stats.by_standard,
        vec![
            ("n".to_string(), 1),
            ("ax".to_string(), 3),
            ("ac".to_string(), 1),
            ("be".to_string(), 1),
            ("g".to_string(), 1),
        ]
    );
}

#[test]
fn test_stats_add_up() {
    let nets = vec![
        net(Some("A"), "2.4", -40, "WPA2", &["n"]),
        net(Some("B"), "5", -41, "WPA2", &["ac"]),
        net(Some("B"), "6", -42, "WPA3", &["ax"]),
    ];
    let stats = compute_stats(nets, 0);
    let by_band: u32 = stats.by_band.iter().map(|p| p.1).sum();
    let by_security: u32 = stats.by_security.iter().map(|p| p.1).sum();
    assert_eq!(by_band, stats.total_networks);
    assert_eq!(by_security, stats.total_networks);
    assert!(stats.network_groups <= stats.total_networks);
}

#[test]
fn test_compute_stats_empty() {
    let stats = compute_stats(vec![], 7);
    assert_eq!(stats.total_networks, 0);
    assert_eq!(stats.network_groups, 0);
    assert!(stats.by_band.is_empty());
    assert!(stats.by_standard.is_empty());
}
