use unifi::roaming::{
    count_roam, roam_recovered, roam_step, ConnectionSample, RoamTracker,
    connection_changed, parse_ttl_from_ping, parse_ttl_from_ping_windows, rtt_text_from_ping,
    rtt_text_from_ping_windows, ConnectionSnapshot, PingConfig, PingResult, WifiState,
};

#[test]
fn test_parse_ttl() {
    let output = "64 bytes from 8.8.8.8: icmp_seq=0 ttl=117 time=15.123 ms";
    assert_eq!(parse_ttl_from_ping(output), Some(117));
}

#[test]
fn test_parse_ttl_windows() {
    let output = "Pinging 8.8.8.8 with 32 bytes of data:\r\nReply from 8.8.8.8: bytes=32 time=15ms TTL=117\r\n";
    assert_eq!(parse_ttl_from_ping_windows(output), Some(117));
    assert_eq!(parse_ttl_from_ping(output), None);
}

#[test]
fn test_parse_ttl_edges() {
    assert_eq!(parse_ttl_from_ping("no reply"), None);
    assert_eq!(parse_ttl_from_ping(""), None);
    // Out of range for a byte.
    assert_eq!(parse_ttl_from_ping("ttl=300 time=1 ms"), None);
    // The piece between two markers is empty.
    assert_eq!(parse_ttl_from_ping("ttl=ttl=5"), None);
    // The piece ends at the next marker.
    assert_eq!(parse_ttl_from_ping("ttl=5ttl=6"), Some(5));
    // Only the first line holding the marker counts.
    assert_eq!(parse_ttl_from_ping("PING x\nttl=abc\nttl=64"), None);
    assert_eq!(parse_ttl_from_ping("PING x\n64 bytes ttl=64 time=1 ms\nttl=1"), Some(64));
    // Nothing after the marker.
    assert_eq!(parse_ttl_from_ping("ttl=   "), None);
}

#[test]
fn test_rtt_text() {
    let output = "64 bytes from 8.8.8.8: icmp_seq=0 ttl=117 time=15.123 ms";
    assert_eq!(rtt_text_from_ping(output), Some("15.123".to_string()));
    assert_eq!(rtt_text_from_ping("Request timeout for icmp_seq 0"), None);
    assert_eq!(rtt_text_from_ping("time=   "), None);
    assert_eq!(
        rtt_text_from_ping("PING x\n64 bytes time=0.5 ms\ntime=9 ms"),
        Some("0.5".to_string())
    );
}

#[test]
fn test_rtt_text_windows() {
    let output = "Reply from 8.8.8.8: bytes=32 time=15ms TTL=117\r\n";
    assert_eq!(rtt_text_from_ping_windows(output), Some("15".to_string()));
    assert_eq!(rtt_text_from_ping_windows("time=3msms"), Some("3".to_string()));
    assert_eq!(rtt_text_from_ping_windows("time=2<ms"), Some("2".to_string()));
    assert_eq!(rtt_text_from_ping_windows("Reply time<1ms"), None);
}

#[test]
fn test_ping_config_default() {
    let c = PingConfig::default();
    assert_eq!(c.target, "8.8.8.8");
    assert_eq!(c.interval_ms, 100);
    assert_eq!(c.timeout_ms, 1000);
    assert_eq!(c.packet_size, 64);
}

#[test]
fn test_ping_result_fields() {
    let r = PingResult { seq: 3, timestamp_ms: 200, rtt_us: None, lost: true, ttl: None, source_ip: None };
    assert!(r.lost);
    assert_eq!(r.seq, 3);
}

fn state(ssid: Option<&str>, bssid: Option<&str>) -> WifiState {
    let mut w = WifiState::default();
    w.ssid = ssid.map(|s| s.to_string());
    w.bssid = bssid.map(|s| s.to_string());
    w
}

#[test]
fn test_wifi_state_default() {
    let w = WifiState::default();
    assert!(w.ssid.is_none() && w.bssid.is_none() && w.channel.is_none());
    assert!(w.signal.is_none() && w.band.is_none());
    let snap = ConnectionSnapshot { timestamp_ms: 5, state: w };
    assert_eq!(snap.timestamp_ms, 5);
}

#[test]
fn test_connection_changed() {
    let a = state(Some("Home"), Some("AA:AA:AA:AA:AA:01"));
    let b = state(Some("Home"), Some("AA:AA:AA:AA:AA:02"));
    let c = state(Some("Work"), Some("AA:AA:AA:AA:AA:01"));
    let unknown = state(Some("Home"), None);
    assert!(connection_changed(&a, &b));
    assert!(connection_changed(&a, &c));
    // An unknown access point is no change of access point.
    assert!(!connection_changed(&a, &unknown));
    assert!(!connection_changed(&a, &a));
    // Losing the network name is a change.
    assert!(connection_changed(&a, &state(None, Some("AA:AA:AA:AA:AA:01"))));
}

#[test]
fn test_connection_change_symmetric() {
    let states = vec![
        state(Some("Home"), Some("AA:AA:AA:AA:AA:01")),
        state(Some("Home"), Some("AA:AA:AA:AA:AA:02")),
        state(Some("Home"), None),
        state(None, None),
        state(Some("Work"), Some("AA:AA:AA:AA:AA:01")),
    ];
    for x in &states {
        assert!(!connection_changed(x, x));
        for y in &states {
            assert_eq!(connection_changed(x, y), connection_changed(y, x));
        }
    }
}

fn wifi(bssid: &str, ssid: &str) -> WifiState {
    WifiState {
        ssid: Some(ssid.to_string()),
        bssid: Some(bssid.to_string()),
        channel: Some(36),
        signal: Some(-50),
        band: None,
    }
}

fn sample(t: u64, lost: bool, w: WifiState) -> ConnectionSample {
    ConnectionSample { timestamp_ms: t, lost, wifi: w }
}

#[test]
fn test_roam_step_tracks_a_roam() {
    let a = wifi("aa:aa:aa:aa:aa:aa", "Home");
    let b = wifi("bb:bb:bb:bb:bb:bb", "Home");
    let t0 = RoamTracker::new(a.clone());

    // Same connection: nothing happens; every tenth ping asks for a snapshot.
    let (t1, act) = roam_step(&t0, &sample(0, false, a.clone()), 0);
    assert!(act.snapshot && !act.started && act.roamed.is_none());
    assert!(!t1.in_roaming);
    let (_, act) = roam_step(&t1, &sample(100, true, a.clone()), 3);
    assert!(!act.snapshot);

    // The access point changes: a roam starts, and a lost ping counts.
    let (t2, act) = roam_step(&t1, &sample(200, true, b.clone()), 2);
    assert!(act.started && act.roamed.is_none());
    assert!(t2.in_roaming);
    assert_eq!(t2.roaming_start_ms, Some(200));
    assert_eq!(t2.roaming_lost, 1);
    assert_eq!(t2.prev.bssid, b.bssid);

    // Another lost ping during the roam.
    let (t3, _) = roam_step(&t2, &sample(300, true, b.clone()), 3);
    assert_eq!(t3.roaming_lost, 2);

    // Latency is back: the roam is recorded and ends.
    let (t4, rec) = roam_recovered(&t3, &sample(450, false, b.clone()));
    assert!(!t4.in_roaming);
    assert_eq!(t4.roaming_lost, 0);
    assert_eq!(rec.timestamp_ms, 200);
    assert_eq!(rec.duration_ms, Some(250));
    assert_eq!(rec.packets_lost, 2);
}

#[test]
fn test_roam_step_move_during_roam() {
    let a = wifi("aa:aa:aa:aa:aa:aa", "Home");
    let b = wifi("bb:bb:bb:bb:bb:bb", "Home");
    let c = wifi("cc:cc:cc:cc:cc:cc", "Home");
    let (t1, _) = roam_step(&RoamTracker::new(a), &sample(100, false, b.clone()), 1);
    // A second move ends the first roam, with its duration, and starts anew.
    let (t2, act) = roam_step(&t1, &sample(400, false, c.clone()), 4);
    let r = act.roamed.expect("roam recorded");
    assert_eq!(r.from.bssid, b.bssid);
    assert_eq!(r.to.bssid, c.bssid);
    assert_eq!(r.duration_ms, Some(300));
    assert_eq!(r.packets_lost, 0);
    assert_eq!(t2.roaming_start_ms, Some(400));
    // A lost ping at the move leaves the duration unknown.
    let (_, act) = roam_step(&t2, &sample(500, true, b), 5);
    assert_eq!(act.roamed.expect("roam").duration_ms, None);
}

#[test]
fn test_count_roam() {
    let a = wifi("aa:aa:aa:aa:aa:aa", "Home");
    let t = RoamTracker {
        prev: a.clone(),
        in_roaming: true,
        roaming_start_ms: Some(10),
        roaming_lost: 3,
    };
    let (_, rec) = roam_recovered(&t, &sample(50, false, a));
    assert_eq!(count_roam(2, 5, &rec), (3, 8));
}
