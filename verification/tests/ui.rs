use tuxscale::app::{Message, TsState};
use tuxscale::tailscale::{ExitNode, PeerStatus, Prefs};
use tuxscale::ui::{
    bool_str, closest_regions, exit_node_choice, exit_node_label, sort_by_latency, status_label,
    trim, OptionKind,
};

fn peer(ip: &str) -> PeerStatus {
    PeerStatus {
        id: "1".to_string(),
        host_name: "h".to_string(),
        dns_name: "h.ts.net".to_string(),
        tailscale_ips: Some(vec![ip.to_string()]),
        online: true,
        os: "linux".to_string(),
        exit_node: None,
        exit_node_option: None,
    }
}

#[test]
fn status_labels() {
    assert_eq!(status_label("Running"), "Connected");
    assert_eq!(status_label("Stopped"), "Disconnected");
    assert_eq!(status_label("NeedsLogin"), "NeedsLogin");
}

#[test]
fn connect_button_follows_the_backend() {
    let mut s = TsState::default();
    assert!(matches!(s.connection_toggle(), Message::Connect));
    s.backend_state = "Running".to_string();
    assert!(s.is_running());
    assert!(matches!(s.connection_toggle(), Message::Disconnect));
}

#[test]
fn ping_button_is_off_while_pinging_that_node() {
    let mut s = TsState::default();
    let p = peer("100.1.1.1");
    assert!(matches!(s.ping_choice(&p), Some(Message::PingPeer(ref ip)) if ip == "100.1.1.1"));
    s.pinging = Some("100.1.1.1".to_string());
    assert!(s.is_pinging(&p));
    assert!(s.ping_choice(&p).is_none());
    assert!(!s.is_pinging(&peer("100.2.2.2")));
}

#[test]
fn trim_matches_str_trim() {
    for s in ["", "  ", " a ", "a", "\t pong 3ms \r\n", "\u{3000}x\u{a0}", "x y"] {
        assert_eq!(trim(s), s.trim(), "{:?}", s);
    }
}

#[test]
fn exit_node_lines() {
    let on = ExitNode { name: "fra".to_string(), ip: "100.1.1.1".to_string(), active: true };
    let off = ExitNode { name: "sto".to_string(), ip: "100.2.2.2".to_string(), active: false };
    assert_eq!(exit_node_label(&on), "★ fra (100.1.1.1)");
    assert_eq!(exit_node_label(&off), "  sto (100.2.2.2)");
    assert!(exit_node_choice(&on).is_none());
    assert!(matches!(exit_node_choice(&off), Some(Message::SetExitNode(ref n)) if n == "sto"));
}

#[test]
fn check_marks() {
    assert_eq!(bool_str(true), "✓");
    assert_eq!(bool_str(false), "✗");
}

fn lat(v: &[(&str, u64)]) -> Vec<(String, u64)> {
    v.iter().map(|(r, n)| (r.to_string(), *n)).collect()
}

#[test]
fn regions_by_rising_latency() {
    let given = lat(&[("fra", 30), ("nyc", 10), ("sto", 30), ("sfo", 20), ("ams", 10)]);
    assert_eq!(sort_by_latency(given), lat(&[("nyc", 10), ("ams", 10), ("sfo", 20), ("fra", 30), ("sto", 30)]));
}

#[test]
fn at_most_eight_regions() {
    let given: Vec<(String, u64)> = (0..12u64).map(|i| (format!("r{i}"), 100 - i)).collect();
    let closest = closest_regions(given.clone());
    let mut expected = given;
    expected.sort_by_key(|a| a.1);
    expected.truncate(8);
    assert_eq!(closest, expected);
    assert_eq!(closest_regions(lat(&[("a", 1)])), lat(&[("a", 1)]));
    assert!(closest_regions(Vec::new()).is_empty());
}

#[test]
fn option_toggles_flip_the_current_value() {
    let prefs = Prefs {
        accept_dns: true,
        accept_routes: false,
        shields_up: true,
        run_ssh: false,
        exit_node_allow_lan_access: true,
        advertise_routes: Some(vec!["10.0.0.0/24".to_string()]),
        hostname: "me".to_string(),
        advertise_exit_node: false,
    };
    let cases = [
        (OptionKind::AcceptDns, "accept-dns", false),
        (OptionKind::AcceptRoutes, "accept-routes", true),
        (OptionKind::ShieldsUp, "shields-up", false),
        (OptionKind::Ssh, "ssh", true),
        (OptionKind::ExitNodeAllowLanAccess, "exit-node-allow-lan-access", false),
        (OptionKind::AdvertiseExitNode, "advertise-exit-node", true),
    ];
    for (kind, flag, next) in cases {
        assert_eq!(kind.flag(), flag);
        assert_eq!(kind.value(&prefs), !next);
        assert!(matches!(kind.toggle(&prefs), Message::SetOption(ref f, v) if f == flag && v == next));
    }
}
