use vstd::prelude::*;

use crate::text::{
    is_blank, join, join_first, lines, lines_of, str_contains, str_contains_char, str_is_blank, views,
    words, words_of, contains_seq,
};

verus! {

// ── Status ───────────────────────────────────────────────────────────────────

/// What `tailscale status --json` reports.
#[derive(Debug, Clone)]
pub struct Status {
    pub version: String,
    pub backend_state: String,
    /// This machine.
    pub self_node: Option<PeerStatus>,
    /// The other nodes of the tailnet by their key, in the order in which the
    /// report gave them.
    pub peer: Option<Vec<(String, PeerStatus)>>,
}

/// The nodes of keyed entries, in their order.
pub open spec fn node_values(entries: Seq<(String, PeerStatus)>) -> Seq<PeerStatus> {
    entries.map_values(|e: (String, PeerStatus)| e.1)
}

/// The nodes of keyed entries, in their order (the keys are left out).
pub fn into_nodes(entries: Vec<(String, PeerStatus)>) -> (nodes: Vec<PeerStatus>)
    ensures
        nodes@ == node_values(entries@),
{
    let ghost all = entries@;
    let mut rest = entries;
    let mut reversed: Vec<PeerStatus> = Vec::new();
    while rest.len() > 0
        invariant
            rest@ == all.take(rest@.len() as int),
            rest@.len() <= all.len(),
            reversed@.len() + rest@.len() == all.len(),
            forall|k: int|
                0 <= k < reversed@.len() ==> #[trigger] reversed@[k] == all[all.len() - 1 - k].1,
        decreases rest.len(),
    {
        let ghost m = rest@.len() as int;
        let e = rest.pop().unwrap();
        proof {
            assert(e == all[m - 1]);
            assert(rest@ =~= all.take(m - 1));
        }
        reversed.push(e.1);
    }
    let ghost rev = reversed@;
    let mut nodes: Vec<PeerStatus> = Vec::new();
    while reversed.len() > 0
        invariant
            reversed@ == rev.take(reversed@.len() as int),
            rev.len() == all.len(),
            reversed@.len() <= rev.len(),
            nodes@.len() + reversed@.len() == all.len(),
            forall|k: int| 0 <= k < rev.len() ==> #[trigger] rev[k] == all[all.len() - 1 - k].1,
            forall|k: int| 0 <= k < nodes@.len() ==> #[trigger] nodes@[k] == all[k].1,
        decreases reversed.len(),
    {
        let ghost m = reversed@.len() as int;
        let p = reversed.pop().unwrap();
        proof {
            assert(p == rev[m - 1]);
            assert(reversed@ =~= rev.take(m - 1));
        }
        nodes.push(p);
    }
    proof {
        assert(nodes@ =~= node_values(all));
    }
    nodes
}

/// One node of the tailnet, as `tailscale status --json` reports it.
#[derive(Debug, Clone)]
pub struct PeerStatus {
    pub id: String,
    pub host_name: String,
    pub dns_name: String,
    pub tailscale_ips: Option<Vec<String>>,
    pub online: bool,
    pub os: String,
    pub exit_node: Option<bool>,
    pub exit_node_option: Option<bool>,
}

/// What stands in place of an address when a node has none.
pub open spec fn no_ip() -> Seq<char> {
    "—"@
}

/// The length of the part of `s` before its first `.` (all of `s` if it has none).
pub open spec fn first_dot(s: Seq<char>) -> int
    decreases s.len(),
{
    if s.len() == 0 {
        0
    } else if s[0] == '.' {
        0
    } else {
        1 + first_dot(s.drop_first())
    }
}

/// The first label of a DNS name: what comes before its first `.`.
pub open spec fn first_label(s: Seq<char>) -> Seq<char> {
    s.take(first_dot(s))
}

impl PeerStatus {
    /// The address shown for the node: its first Tailscale IP, or `—`.
    pub open spec fn spec_primary_ip(&self) -> Seq<char> {
        match self.tailscale_ips {
            Some(ips) => if ips@.len() > 0 {
                ips@[0]@
            } else {
                no_ip()
            },
            None => no_ip(),
        }
    }

    /// The name shown for the node: the first label of its DNS name, or its
    /// host name where that label is empty.
    pub open spec fn spec_short_name(&self) -> Seq<char> {
        if first_label(self.dns_name@).len() > 0 {
            first_label(self.dns_name@)
        } else {
            self.host_name@
        }
    }

    pub fn primary_ip(&self) -> (ip: &str)
        ensures
            ip@ == self.spec_primary_ip(),
    {
        match &self.tailscale_ips {
            Some(ips) => {
                if ips.len() > 0 {
                    return ips[0].as_str();
                }
            },
            None => {},
        }
        proof {
            reveal_strlit("—");
        }
        "—"
    }

    pub fn short_name(&self) -> (name: &str)
        ensures
            name@ == self.spec_short_name(),
    {
        let dns = self.dns_name.as_str();
        let n = dns.unicode_len();
        let mut i: usize = 0;
        proof {
            assert(dns@.skip(0) =~= dns@);
        }
        while i < n && dns.get_char(i) != '.'
            invariant
                n == dns@.len(),
                i <= n,
                first_dot(dns@) == i + first_dot(dns@.skip(i as int)),
            decreases n - i,
        {
            proof {
                assert(dns@.skip(i as int).drop_first() =~= dns@.skip(i + 1));
            }
            i = i + 1;
        }
        proof {
            if i < n {
                assert(dns@.skip(i as int)[0] == dns@[i as int]);
            }
        }
        if i > 0 {
            dns.substring_char(0, i)
        } else {
            self.host_name.as_str()
        }
    }
}

// ── Exit nodes ───────────────────────────────────────────────────────────────

/// One line of `tailscale exit-node list`.
#[derive(Debug, Clone)]
pub struct ExitNode {
    pub name: String,
    pub ip: String,
    pub active: bool,
}

/// An exit node as plain values.
pub struct ExitNodeView {
    pub name: Seq<char>,
    pub ip: Seq<char>,
    pub active: bool,
}

impl View for ExitNode {
    type V = ExitNodeView;

    open spec fn view(&self) -> ExitNodeView {
        ExitNodeView { name: self.name@, ip: self.ip@, active: self.active }
    }
}

/// The `i`-th word of `ws`, or nothing where there are fewer words.
pub open spec fn word_or_empty(ws: Seq<Seq<char>>, i: int) -> Seq<char> {
    if i < ws.len() {
        ws[i]
    } else {
        Seq::empty()
    }
}

/// The lines of the listing that name a node: all but the header line,
/// leaving out those that are blank.
pub open spec fn exit_node_lines(raw: Seq<char>) -> Seq<Seq<char>> {
    let ls = lines(raw);
    let body = if ls.len() > 0 {
        ls.drop_first()
    } else {
        ls
    };
    body.filter(|l: Seq<char>| !is_blank(l))
}

/// The node that a line of the listing names: its first column is the
/// address, its second the name, and a `*` anywhere marks the active node.
pub open spec fn exit_node_of(line: Seq<char>) -> ExitNodeView {
    ExitNodeView {
        ip: word_or_empty(words(line), 0),
        name: word_or_empty(words(line), 1),
        active: line.contains('*'),
    }
}

/// The exit nodes of the output of `tailscale exit-node list`.
pub fn parse_exit_nodes(raw: &str) -> (nodes: Vec<ExitNode>)
    ensures
        nodes@.map_values(|n: ExitNode| n@) == exit_node_lines(raw@).map_values(
            |l: Seq<char>| exit_node_of(l),
        ),
{
    let ls = lines_of(raw);
    let mut nodes: Vec<ExitNode> = Vec::new();
    let ghost lv = views(ls@);
    let ghost body = if lv.len() > 0 {
        lv.drop_first()
    } else {
        lv
    };
    let ghost pred = |l: Seq<char>| !is_blank(l);
    if ls.len() == 0 {
        proof {
            reveal(Seq::filter);
            assert(nodes@.map_values(|n: ExitNode| n@) =~= exit_node_lines(raw@).map_values(
                |l: Seq<char>| exit_node_of(l),
            ));
        }
        return nodes;
    }
    let mut i: usize = 1;
    proof {
        reveal(Seq::filter);
        assert(body.take(0) =~= Seq::<Seq<char>>::empty());
    }
    while i < ls.len()
        invariant
            lv == views(ls@),
            lv.len() > 0,
            body == lv.drop_first(),
            pred == (|l: Seq<char>| !is_blank(l)),
            1 <= i <= ls@.len(),
            nodes@.map_values(|n: ExitNode| n@) == body.take(i - 1).filter(pred).map_values(
                |l: Seq<char>| exit_node_of(l),
            ),
        decreases ls.len() - i,
    {
        let line = ls[i].as_str();
        proof {
            reveal(Seq::filter);
            assert(line@ == body[i - 1]);
            assert(body.take(i as int).drop_last() =~= body.take(i - 1));
        }
        if !str_is_blank(line) {
            let ws = words_of(line);
            let ip = if ws.len() > 0 {
                ws[0].clone()
            } else {
                String::new()
            };
            let name = if ws.len() > 1 {
                ws[1].clone()
            } else {
                String::new()
            };
            let active = str_contains_char(line, '*');
            let node = ExitNode { name, ip, active };
            let ghost before = nodes@;
            nodes.push(node);
            proof {
                assert(node@ == exit_node_of(line@));
                assert(nodes@.map_values(|n: ExitNode| n@) =~= before.map_values(|n: ExitNode| n@).push(
                    node@,
                ));
                assert(body.take(i as int).filter(pred) == body.take(i - 1).filter(pred).push(
                    line@,
                ));
                assert(body.take(i as int).filter(pred).map_values(|l: Seq<char>| exit_node_of(l))
                    =~= body.take(i - 1).filter(pred).map_values(|l: Seq<char>| exit_node_of(l)).push(
                    exit_node_of(line@),
                ));
            }
        } else {
            proof {
                assert(body.take(i as int).filter(pred) == body.take(i - 1).filter(pred));
            }
        }
        i = i + 1;
    }
    proof {
        assert(body.take(i - 1) =~= body);
    }
    nodes
}

// ── Ping ─────────────────────────────────────────────────────────────────────

/// A line of `tailscale ping` output that reports a round trip.
pub open spec fn is_latency_line(l: Seq<char>) -> bool {
    contains_seq(l, "ms"@) || contains_seq(l, "pong"@)
}

/// How many of `n` items the summary keeps.
pub open spec fn summary_count(n: nat) -> int {
    if n < 3 {
        n as int
    } else {
        3
    }
}

/// The summary of a ping: the first three lines that report a round trip,
/// joined by ` | `.
pub open spec fn ping_summary_of(out: Seq<char>) -> Seq<char> {
    let kept = lines(out).filter(|l: Seq<char>| is_latency_line(l));
    join(kept.take(summary_count(kept.len())), " | "@)
}

/// The summary of the output of `tailscale ping`.
pub fn ping_summary(out: &str) -> (summary: String)
    ensures
        summary@ == ping_summary_of(out@),
{
    let ls = lines_of(out);
    let mut kept: Vec<String> = Vec::new();
    let ghost lv = views(ls@);
    let ghost pred = |l: Seq<char>| is_latency_line(l);
    let mut i: usize = 0;
    proof {
        reveal(Seq::filter);
        assert(lv.take(0) =~= Seq::<Seq<char>>::empty());
    }
    while i < ls.len()
        invariant
            lv == views(ls@),
            pred == (|l: Seq<char>| is_latency_line(l)),
            i <= ls@.len(),
            views(kept@) == lv.take(i as int).filter(pred),
        decreases ls.len() - i,
    {
        let line = &ls[i];
        proof {
            reveal(Seq::filter);
            assert(line@ == lv[i as int]);
            assert(lv.take(i + 1).drop_last() =~= lv.take(i as int));
        }
        if str_contains(line.as_str(), "ms") || str_contains(line.as_str(), "pong") {
            let ghost before = kept@;
            kept.push(line.clone());
            proof {
                assert(views(kept@) =~= views(before).push(line@));
            }
        }
        i = i + 1;
    }
    proof {
        assert(lv.take(i as int) =~= lv);
    }
    let count = if kept.len() < 3 {
        kept.len()
    } else {
        3
    };
    join_first(&kept, count, " | ")
}

// ── Netcheck ─────────────────────────────────────────────────────────────────

/// What `tailscale netcheck --format=json` reports.
#[derive(Debug, Clone)]
pub struct NetcheckReport {
    pub udp: bool,
    pub ipv4: bool,
    pub ipv6: bool,
    pub mapping_varies_by_dest_ip: Option<bool>,
    pub preferred_derp: i32,
    /// Each DERP region's latency in nanoseconds, in the order in which the report gave them.
    pub region_latency: Option<Vec<(String, u64)>>,
}

// ── Prefs ────────────────────────────────────────────────────────────────────

/// What `tailscale debug prefs` reports.
#[derive(Debug, Clone)]
pub struct Prefs {
    pub accept_dns: bool,
    pub accept_routes: bool,
    pub shields_up: bool,
    pub run_ssh: bool,
    pub exit_node_allow_lan_access: bool,
    pub advertise_routes: Option<Vec<String>>,
    pub hostname: String,
    pub advertise_exit_node: bool,
}

/// The argument of `tailscale set` that gives `flag` the value `value`.
pub open spec fn option_arg(flag: Seq<char>, value: bool) -> Seq<char> {
    "--"@ + flag + "="@ + (if value {
        "true"@
    } else {
        "false"@
    })
}

/// The argument `--<flag>=<value>` of `tailscale set`.
pub fn set_option_arg(flag: &str, value: bool) -> (arg: String)
    ensures
        arg@ == option_arg(flag@, value),
{
    let mut arg = String::from_str("--");
    arg.append(flag);
    arg.append("=");
    if value {
        arg.append("true");
    } else {
        arg.append("false");
    }
    arg
}

} // verus!
