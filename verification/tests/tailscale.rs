use tuxscale::tailscale::{parse_exit_nodes, ping_summary, set_option_arg, ExitNode, PeerStatus};

fn peer(host: &str, dns: &str, ips: Option<Vec<&str>>, online: bool) -> PeerStatus {
    PeerStatus {
        id: format!("id-{host}"),
        host_name: host.to_string(),
        dns_name: dns.to_string(),
        tailscale_ips: ips.map(|v| v.into_iter().map(|s| s.to_string()).collect()),
        online,
        os: "linux".to_string(),
        exit_node: None,
        exit_node_option: None,
    }
}

#[test]
fn primary_ip_is_the_first_address() {
    let p = peer("box", "box.tail.ts.net.", Some(vec!["100.64.0.1", "fd7a::1"]), true);
    assert_eq!(p.primary_ip(), "100.64.0.1");
}

#[test]
fn primary_ip_without_addresses_is_a_dash() {
    assert_eq!(peer("box", "", None, true).primary_ip(), "—");
    assert_eq!(peer("box", "", Some(vec![]), true).primary_ip(), "—");
}

#[test]
fn short_name_is_the_first_dns_label() {
    assert_eq!(peer("Host", "laptop.tail1234.ts.net.", None, true).short_name(), "laptop");
    assert_eq!(peer("Host", "nodots", None, true).short_name(), "nodots");
}

#[test]
fn short_name_falls_back_to_the_host_name() {
    assert_eq!(peer("Host", "", None, true).short_name(), "Host");
    assert_eq!(peer("Host", ".tail.ts.net", None, true).short_name(), "Host");
}

const LISTING: &str = "IP                  HOSTNAME                   COUNTRY     CITY         STATUS\n\
100.101.1.1         se-sto-wg-001.mullvad.ts.net Sweden    Stockholm    -\n\
   \n\
100.102.2.2         de-fra-wg-002.mullvad.ts.net Germany   Frankfurt    selected *\r\n\
\n\
100.103.3.3\n";

fn node(ip: &str, name: &str, active: bool) -> (String, String, bool) {
    (ip.to_string(), name.to_string(), active)
}

fn triples(v: &[ExitNode]) -> Vec<(String, String, bool)> {
    v.iter().map(|n| (n.ip.clone(), n.name.clone(), n.active)).collect()
}

#[test]
fn exit_nodes_skip_the_header_and_blank_lines() {
    let nodes = parse_exit_nodes(LISTING);
    assert_eq!(
        triples(&nodes),
        vec![
            node("100.101.1.1", "se-sto-wg-001.mullvad.ts.net", false),
            node("100.102.2.2", "de-fra-wg-002.mullvad.ts.net", true),
            node("100.103.3.3", "", false),
        ]
    );
}

#[test]
fn exit_nodes_of_an_empty_listing() {
    assert!(parse_exit_nodes("").is_empty());
    assert!(parse_exit_nodes("IP HOSTNAME\n").is_empty());
    assert!(parse_exit_nodes("IP HOSTNAME\n\n  \n").is_empty());
}

#[test]
fn ping_summary_keeps_three_round_trips() {
    let out = "pong from a (100.1.1.1) via DERP(fra) in 31ms\n\
               pong from a (100.1.1.1) via DERP(fra) in 29ms\n\
               something else\n\
               pong from a (100.1.1.1) via 1.2.3.4:41641 in 3ms\n\
               pong from a (100.1.1.1) via 1.2.3.4:41641 in 2ms\n";
    assert_eq!(
        ping_summary(out),
        "pong from a (100.1.1.1) via DERP(fra) in 31ms | pong from a (100.1.1.1) via DERP(fra) in 29ms | pong from a (100.1.1.1) via 1.2.3.4:41641 in 3ms"
    );
}

#[test]
fn ping_summary_of_output_without_round_trips_is_empty() {
    assert_eq!(ping_summary("timeout\nno reply\n"), "");
    assert_eq!(ping_summary(""), "");
}

#[test]
fn ping_summary_matches_the_line_filter() {
    let out = "direct connection not established\r\nlatency 5ms\r\nthe pong\n";
    let expected: Vec<&str> = out
        .lines()
        .filter(|l| l.contains("ms") || l.contains("pong"))
        .take(3)
        .collect();
    assert_eq!(ping_summary(out), expected.join(" | "));
}

#[test]
fn option_argument() {
    assert_eq!(set_option_arg("accept-dns", true), "--accept-dns=true");
    assert_eq!(set_option_arg("shields-up", false), "--shields-up=false");
}

#[test]
fn nodes_keep_their_order() {
    let entries = vec![
        ("k1".to_string(), peer("one", "", None, true)),
        ("k2".to_string(), peer("two", "", None, false)),
        ("k3".to_string(), peer("three", "", None, true)),
    ];
    let nodes = tuxscale::tailscale::into_nodes(entries);
    let hosts: Vec<&str> = nodes.iter().map(|p| p.host_name.as_str()).collect();
    assert_eq!(hosts, vec!["one", "two", "three"]);
}

#[test]
fn exit_nodes_ignore_the_header_and_added_blank_lines() {
    let plain = "IP HOSTNAME COUNTRY\n100.1.1.1 fra.ts.net Germany\n100.2.2.2 sto.ts.net Sweden *\n";
    let other = "something else entirely\n\n100.1.1.1 fra.ts.net Germany\n \t\n100.2.2.2 sto.ts.net Sweden *\n\n";
    assert_eq!(triples(&parse_exit_nodes(plain)), triples(&parse_exit_nodes(other)));
    assert_eq!(parse_exit_nodes(plain).len(), 2);
}
