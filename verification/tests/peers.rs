use tuxscale::peers::{is_listed_before, sort_peers};
use tuxscale::tailscale::PeerStatus;

fn peer(id: &str, host: &str, online: bool) -> PeerStatus {
    PeerStatus {
        id: id.to_string(),
        host_name: host.to_string(),
        dns_name: format!("{host}.tail.ts.net."),
        tailscale_ips: None,
        online,
        os: "linux".to_string(),
        exit_node: None,
        exit_node_option: None,
    }
}

fn ids(v: &[PeerStatus]) -> Vec<String> {
    v.iter().map(|p| p.id.clone()).collect()
}

#[test]
fn online_first_then_by_host_name() {
    let given = vec![
        peer("1", "zeta", false),
        peer("2", "beta", true),
        peer("3", "alpha", false),
        peer("4", "alpha", true),
        peer("5", "Gamma", true),
    ];
    let sorted = sort_peers(given);
    assert_eq!(ids(&sorted), vec!["5", "4", "2", "3", "1"]);
}

#[test]
fn same_rank_keeps_its_order() {
    let given = vec![
        peer("a", "same", true),
        peer("b", "other", false),
        peer("c", "same", true),
        peer("d", "same", true),
    ];
    assert_eq!(ids(&sort_peers(given)), vec!["a", "c", "d", "b"]);
}

#[test]
fn sorting_agrees_with_a_stable_sort() {
    let hosts = ["m", "a", "q", "a", "z", "b", "m", "é", "A"];
    let given: Vec<PeerStatus> = hosts
        .iter()
        .enumerate()
        .map(|(i, h)| peer(&i.to_string(), h, i % 3 != 0))
        .collect();
    let mut expected = given.clone();
    expected.sort_by(|a, b| b.online.cmp(&a.online).then(a.host_name.cmp(&b.host_name)));
    assert_eq!(ids(&sort_peers(given)), ids(&expected));
}

#[test]
fn empty_list_stays_empty() {
    assert!(sort_peers(Vec::new()).is_empty());
}

#[test]
fn listing_order() {
    assert!(is_listed_before(&peer("1", "z", true), &peer("2", "a", false)));
    assert!(is_listed_before(&peer("1", "a", true), &peer("2", "b", true)));
    assert!(!is_listed_before(&peer("1", "a", true), &peer("2", "a", true)));
}
