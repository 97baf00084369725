use tuxscale::app::{Action, App, Message, Tab, TrayItem, TsState, WindowId, WindowMode};
use tuxscale::tailscale::{ExitNode, NetcheckReport, PeerStatus, Prefs, Status};

fn peer(id: &str, host: &str, online: bool) -> PeerStatus {
    PeerStatus {
        id: id.to_string(),
        host_name: host.to_string(),
        dns_name: format!("{host}.tail.ts.net."),
        tailscale_ips: Some(vec![format!("100.64.0.{id}")]),
        online,
        os: "linux".to_string(),
        exit_node: Some(false),
        exit_node_option: Some(false),
    }
}

fn status(state: &str, peers: Option<Vec<PeerStatus>>) -> Status {
    Status {
        version: "1.80.0".to_string(),
        backend_state: state.to_string(),
        self_node: Some(peer("1", "me", true)),
        peer: peers.map(|v| v.into_iter().map(|p| (format!("nodekey:{}", p.id), p)).collect()),
    }
}

fn prefs() -> Prefs {
    Prefs {
        accept_dns: true,
        accept_routes: false,
        shields_up: false,
        run_ssh: false,
        exit_node_allow_lan_access: false,
        advertise_routes: None,
        hostname: "me".to_string(),
        advertise_exit_node: false,
    }
}

fn fresh() -> App {
    App::new().0
}

#[test]
fn starts_on_peers_and_asks_for_status_and_window() {
    let (app, tasks) = App::new();
    assert_eq!(app.tab, Tab::Peers);
    assert!(app.window_visible);
    assert!(app.window_id.is_none());
    assert!(app.state.peers.is_none());
    assert!(app.state.last_error.is_none());
    assert_eq!(tasks.len(), 2);
    assert!(matches!(tasks[0], Action::FetchStatus));
    assert!(matches!(tasks[1], Action::FetchWindowId));
    assert_eq!(app.title(), "Tailscale");
}

#[test]
fn default_state_is_empty() {
    let s = TsState::default();
    assert_eq!(s.backend_state, "");
    assert!(s.pinging.is_none() && !s.netcheck_running && s.prefs.is_none());
    assert_eq!(Tab::default(), Tab::Peers);
}

#[test]
fn tick_and_refresh_poll_the_status() {
    let mut app = fresh();
    assert!(matches!(app.update(Message::Tick), Action::FetchStatus));
    assert!(matches!(app.update(Message::Refresh), Action::FetchStatus));
}

#[test]
fn loaded_status_is_shown_with_peers_in_order() {
    let mut app = fresh();
    app.update(Message::StatusLoaded(Err("no daemon".to_string())));
    assert_eq!(app.state.last_error.as_deref(), Some("no daemon"));
    let peers = vec![peer("2", "zulu", false), peer("3", "bravo", true), peer("4", "alpha", false)];
    let act = app.update(Message::StatusLoaded(Ok(status("Running", Some(peers)))));
    assert!(matches!(act, Action::Nothing));
    assert_eq!(app.state.backend_state, "Running");
    assert!(app.state.last_error.is_none());
    let hosts: Vec<&str> = app.state.peers.as_ref().unwrap().iter().map(|p| p.host_name.as_str()).collect();
    assert_eq!(hosts, vec!["bravo", "alpha", "zulu"]);
    assert_eq!(app.state.self_node.as_ref().unwrap().host_name, "me");
}

#[test]
fn status_without_peers_shows_none() {
    let mut app = fresh();
    app.update(Message::StatusLoaded(Ok(status("Stopped", None))));
    assert!(app.state.peers.is_none());
    assert_eq!(app.state.backend_state, "Stopped");
}

#[test]
fn connecting_reloads_the_status() {
    let mut app = fresh();
    assert!(matches!(app.update(Message::Connect), Action::Connect));
    assert!(matches!(app.update(Message::Disconnect), Action::Disconnect));
    assert!(matches!(app.update(Message::ConnectDone(Ok(()))), Action::FetchStatus));
    assert!(app.state.last_error.is_none());
    assert!(matches!(app.update(Message::ConnectDone(Err("denied".to_string()))), Action::FetchStatus));
    assert_eq!(app.state.last_error.as_deref(), Some("denied"));
}

#[test]
fn ping_round_trip() {
    let mut app = fresh();
    let act = app.update(Message::PingPeer("100.64.0.2".to_string()));
    assert!(matches!(act, Action::Ping(ref ip) if ip == "100.64.0.2"));
    assert_eq!(app.state.pinging.as_deref(), Some("100.64.0.2"));
    let out = "pong from b (100.64.0.2) via DERP(fra) in 40ms\npong from b (100.64.0.2) via 1.2.3.4:41641 in 4ms\n";
    app.update(Message::PingDone("100.64.0.2".to_string(), Ok(out.to_string())));
    assert!(app.state.pinging.is_none());
    assert_eq!(
        app.state.ping_output.get("100.64.0.2").map(|s| s.as_str()),
        Some("pong from b (100.64.0.2) via DERP(fra) in 40ms | pong from b (100.64.0.2) via 1.2.3.4:41641 in 4ms")
    );
    app.update(Message::PingPeer("100.64.0.2".to_string()));
    app.update(Message::PingDone("100.64.0.2".to_string(), Err("timeout".to_string())));
    assert_eq!(app.state.ping_output.get("100.64.0.2").map(|s| s.as_str()), Some("Error: timeout"));
    assert!(app.state.last_error.is_none());
}

#[test]
fn copy_ip_goes_to_the_clipboard() {
    let mut app = fresh();
    let act = app.update(Message::CopyIp("100.64.0.9".to_string()));
    assert!(matches!(act, Action::CopyToClipboard(ref ip) if ip == "100.64.0.9"));
}

#[test]
fn exit_nodes_load_and_reload_after_a_change() {
    let mut app = fresh();
    assert!(matches!(app.update(Message::LoadExitNodes), Action::FetchExitNodes));
    let nodes = vec![ExitNode { name: "n".to_string(), ip: "100.1.1.1".to_string(), active: false }];
    app.update(Message::ExitNodesLoaded(Ok(nodes)));
    assert_eq!(app.state.exit_nodes.as_ref().unwrap().len(), 1);
    assert!(matches!(app.update(Message::SetExitNode("n".to_string())), Action::SetExitNode(ref n) if n == "n"));
    assert!(matches!(app.update(Message::ClearExitNode), Action::ClearExitNode));
    assert!(matches!(app.update(Message::ExitNodeSet(Err("bad".to_string()))), Action::FetchExitNodes));
    assert_eq!(app.state.last_error.as_deref(), Some("bad"));
    app.update(Message::ExitNodesLoaded(Err("gone".to_string())));
    assert_eq!(app.state.last_error.as_deref(), Some("gone"));
    assert_eq!(app.state.exit_nodes.as_ref().unwrap().len(), 1);
}

#[test]
fn netcheck_runs_until_its_answer() {
    let mut app = fresh();
    assert!(matches!(app.update(Message::RunNetcheck), Action::RunNetcheck));
    assert!(app.state.netcheck_running);
    app.update(Message::NetcheckDone(Err("offline".to_string())));
    assert!(!app.state.netcheck_running);
    assert_eq!(app.state.last_error.as_deref(), Some("offline"));
    app.update(Message::RunNetcheck);
    let report = NetcheckReport {
        udp: true,
        ipv4: true,
        ipv6: false,
        mapping_varies_by_dest_ip: Some(false),
        preferred_derp: 4,
        region_latency: Some(vec![("fra".to_string(), 12_000_000)]),
    };
    app.update(Message::NetcheckDone(Ok(report)));
    assert!(!app.state.netcheck_running);
    assert_eq!(app.state.netcheck_report.as_ref().unwrap().preferred_derp, 4);
}

#[test]
fn options_load_once_and_reload_after_a_change() {
    let mut app = fresh();
    assert!(matches!(app.update(Message::SetTab(Tab::Options)), Action::FetchPrefs));
    assert_eq!(app.tab, Tab::Options);
    app.update(Message::PrefsLoaded(Ok(prefs())));
    assert!(matches!(app.update(Message::SetTab(Tab::Peers)), Action::Nothing));
    assert!(matches!(app.update(Message::SetTab(Tab::Options)), Action::Nothing));
    assert!(matches!(app.update(Message::LoadPrefs), Action::FetchPrefs));
    let act = app.update(Message::SetOption("shields-up".to_string(), true));
    assert!(matches!(act, Action::SetOption(ref f, true) if f == "shields-up"));
    assert!(matches!(app.update(Message::OptionSet(Ok(()))), Action::FetchPrefs));
    app.update(Message::PrefsLoaded(Err("denied".to_string())));
    assert_eq!(app.state.last_error.as_deref(), Some("denied"));
    assert!(app.state.prefs.is_some());
    assert!(matches!(app.update(Message::OptionSet(Err("x".to_string()))), Action::FetchPrefs));
    assert_eq!(app.state.last_error.as_deref(), Some("x"));
}

#[test]
fn closing_hides_to_the_tray() {
    let mut app = fresh();
    let act = app.update(Message::WindowCloseRequest(WindowId(3)));
    assert!(matches!(act, Action::SetWindowMode(WindowId(3), WindowMode::Hidden)));
    assert!(!app.window_visible);
}

#[test]
fn show_hide_twice_restores_the_window() {
    let mut app = fresh();
    assert!(matches!(app.update(Message::TrayEvent(TrayItem::ShowHide)), Action::Nothing));
    assert!(app.window_visible);
    app.update(Message::GotWindowId(Some(WindowId(1))));
    let first = app.update(Message::TrayEvent(TrayItem::ShowHide));
    assert!(matches!(first, Action::SetWindowMode(WindowId(1), WindowMode::Hidden)));
    assert!(!app.window_visible);
    let second = app.update(Message::TrayEvent(TrayItem::ShowHide));
    assert!(matches!(second, Action::SetWindowMode(WindowId(1), WindowMode::Windowed)));
    assert!(app.window_visible);
}

#[test]
fn quit_exits_and_other_entries_do_nothing() {
    let mut app = fresh();
    assert!(matches!(app.update(Message::TrayEvent(TrayItem::Other)), Action::Nothing));
    assert!(matches!(app.update(Message::TrayEvent(TrayItem::Quit)), Action::Exit));
}

#[test]
fn messages_clone() {
    let m = Message::PingDone("100.64.0.2".to_string(), Err("timeout".to_string()));
    assert!(matches!(m.clone(), Message::PingDone(ref ip, Err(ref e)) if ip == "100.64.0.2" && e == "timeout"));
    let s = Message::StatusLoaded(Ok(status("Running", None)));
    assert!(matches!(s.clone(), Message::StatusLoaded(Ok(ref st)) if st.backend_state == "Running"));
    assert!(matches!(Message::SetTab(Tab::Netcheck).clone(), Message::SetTab(Tab::Netcheck)));
}
