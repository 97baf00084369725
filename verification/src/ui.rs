use vstd::prelude::*;

use crate::app::{Message, TsState};
use crate::order::{
    class_of, is_stable_sort_of, is_strict_weak_order, law_stable_sort_is_unique, sorted_by,
    stable_sort,
};
use crate::tailscale::{ExitNode, PeerStatus, Prefs};
use crate::text::{is_space, str_eq, char_is_space, chars_of};

verus! {

// ── Dashboard ────────────────────────────────────────────────────────────────

/// The word shown for the backend's state.
pub open spec fn status_label_of(backend_state: Seq<char>) -> Seq<char> {
    if backend_state == "Running"@ {
        "Connected"@
    } else if backend_state == "Stopped"@ {
        "Disconnected"@
    } else {
        backend_state
    }
}

/// The word shown for the backend's state: `Running` reads as connected and
/// `Stopped` as disconnected; any other state is shown as it is.
pub fn status_label(backend_state: &str) -> (label: &str)
    ensures
        label@ == status_label_of(backend_state@),
{
    if str_eq(backend_state, "Running") {
        "Connected"
    } else if str_eq(backend_state, "Stopped") {
        "Disconnected"
    } else {
        backend_state
    }
}

impl TsState {
    /// Whether the backend runs, so that the window offers to disconnect.
    pub fn is_running(&self) -> (r: bool)
        ensures
            r == (self.backend_state@ == "Running"@),
    {
        str_eq(self.backend_state.as_str(), "Running")
    }

    /// What the connect button does: disconnect while running, connect otherwise.
    pub fn connection_toggle(&self) -> (m: Message)
        ensures
            m == if self.backend_state@ == "Running"@ {
                Message::Disconnect
            } else {
                Message::Connect
            },
    {
        if self.is_running() {
            Message::Disconnect
        } else {
            Message::Connect
        }
    }

    /// Whether `peer` is the node being pinged.
    pub fn is_pinging(&self, peer: &PeerStatus) -> (r: bool)
        ensures
            r == (self.pinging matches Some(ip) && ip@ == peer.spec_primary_ip()),
    {
        match &self.pinging {
            Some(ip) => str_eq(ip.as_str(), peer.primary_ip()),
            None => false,
        }
    }

    /// What the ping button of `peer` does: nothing while that node is being
    /// pinged, else ping its address.
    pub fn ping_choice(&self, peer: &PeerStatus) -> (m: Option<Message>)
        ensures
            match m {
                None => self.pinging matches Some(ip) && ip@ == peer.spec_primary_ip(),
                Some(msg) => {
                    &&& !(self.pinging matches Some(ip) && ip@ == peer.spec_primary_ip())
                    &&& (msg matches Message::PingPeer(ip) && ip@ == peer.spec_primary_ip())
                },
            },
    {
        if self.is_pinging(peer) {
            None
        } else {
            Some(Message::PingPeer(String::from_str(peer.primary_ip())))
        }
    }
}

// ── Text ─────────────────────────────────────────────────────────────────────

/// How many characters of white space `s` starts with.
pub open spec fn leading_space(s: Seq<char>) -> int
    decreases s.len(),
{
    if s.len() > 0 && is_space(s[0]) {
        1 + leading_space(s.drop_first())
    } else {
        0
    }
}

/// How many characters of white space `s` ends with.
pub open spec fn trailing_space(s: Seq<char>) -> int
    decreases s.len(),
{
    if s.len() > 0 && is_space(s.last()) {
        1 + trailing_space(s.drop_last())
    } else {
        0
    }
}

/// `s` without white space at either end.
pub open spec fn trimmed(s: Seq<char>) -> Seq<char> {
    let a = leading_space(s);
    if a == s.len() {
        Seq::empty()
    } else {
        s.subrange(a, s.len() - trailing_space(s))
    }
}

proof fn lemma_leading_space(s: Seq<char>, i: int)
    requires
        0 <= i <= s.len(),
        forall|k: int| 0 <= k < i ==> is_space(#[trigger] s[k]),
    ensures
        leading_space(s) == i + leading_space(s.skip(i)),
    decreases i,
{
    if i > 0 {
        assert(s.drop_first().skip(i - 1) =~= s.skip(i));
        assert forall|k: int| 0 <= k < i - 1 implies is_space(#[trigger] s.drop_first()[k]) by {
            assert(s.drop_first()[k] == s[k + 1]);
        }
        lemma_leading_space(s.drop_first(), i - 1);
    } else {
        assert(s.skip(0) =~= s);
    }
}

proof fn lemma_trailing_space(s: Seq<char>, j: int)
    requires
        0 <= j <= s.len(),
        forall|k: int| j <= k < s.len() ==> is_space(#[trigger] s[k]),
    ensures
        trailing_space(s) == (s.len() - j) + trailing_space(s.take(j)),
    decreases s.len() - j,
{
    if j < s.len() {
        assert(s.drop_last().take(j) =~= s.take(j));
        lemma_trailing_space(s.drop_last(), j);
    } else {
        assert(s.take(j) =~= s);
    }
}

/// `s` without white space at either end, as `str::trim` gives it.
pub fn trim(s: &str) -> (t: &str)
    ensures
        t@ == trimmed(s@),
{
    let cs = chars_of(s);
    let n = cs.len();
    let mut a: usize = 0;
    while a < n && char_is_space(cs[a])
        invariant
            cs@ == s@,
            n == cs@.len(),
            a <= n,
            forall|k: int| 0 <= k < a ==> is_space(#[trigger] s@[k]),
        decreases n - a,
    {
        a = a + 1;
    }
    proof {
        lemma_leading_space(s@, a as int);
        if a < n {
            assert(s@.skip(a as int)[0] == s@[a as int]);
        }
    }
    if a == n {
        return s.substring_char(0, 0);
    }
    let mut b: usize = n;
    while b > a && char_is_space(cs[b - 1])
        invariant
            cs@ == s@,
            n == cs@.len(),
            a < b <= n || (a == b && b < n),
            a < n,
            !is_space(s@[a as int]),
            forall|k: int| b <= k < n ==> is_space(#[trigger] s@[k]),
        decreases b,
    {
        b = b - 1;
    }
    proof {
        lemma_trailing_space(s@, b as int);
        assert(b > a);
        assert(s@.take(b as int).last() == s@[b - 1]);
    }
    s.substring_char(a, b)
}

// ── Exit nodes ───────────────────────────────────────────────────────────────

/// The line shown for an exit node: its name and address, starred when active.
pub open spec fn exit_node_label_of(name: Seq<char>, ip: Seq<char>, active: bool) -> Seq<char> {
    (if active {
        "★ "@
    } else {
        "  "@
    }) + name + " ("@ + ip + ")"@
}

/// The line shown for an exit node.
pub fn exit_node_label(node: &ExitNode) -> (label: String)
    ensures
        label@ == exit_node_label_of(node.name@, node.ip@, node.active),
{
    let mut label = if node.active {
        String::from_str("★ ")
    } else {
        String::from_str("  ")
    };
    label.append(node.name.as_str());
    label.append(" (");
    label.append(node.ip.as_str());
    label.append(")");
    label
}

/// What the button of an exit node does: nothing for the active one, else
/// make it the exit node.
pub fn exit_node_choice(node: &ExitNode) -> (m: Option<Message>)
    ensures
        node.active ==> m is None,
        !node.active ==> (m matches Some(Message::SetExitNode(name)) && name == node.name),
{
    if node.active {
        None
    } else {
        Some(Message::SetExitNode(node.name.clone()))
    }
}

// ── Netcheck ─────────────────────────────────────────────────────────────────

/// How a check result is shown.
pub fn bool_str(b: bool) -> (s: &'static str)
    ensures
        s@ == if b {
            "✓"@
        } else {
            "✗"@
        },
{
    if b {
        "✓"
    } else {
        "✗"
    }
}

/// How many regions the report lists at most.
pub const REGIONS_SHOWN: usize = 8;

/// Entry `a` has a lower latency than entry `b`.
pub open spec fn latency_order() -> spec_fn((String, u64), (String, u64)) -> bool {
    |a: (String, u64), b: (String, u64)| a.1 < b.1
}

/// `s` lists its entries by rising latency.
pub open spec fn by_latency(s: Seq<(String, u64)>) -> bool {
    sorted_by(latency_order(), s)
}

/// The entries of `s` with the same latency as `x`, in the order in which `s` has them.
pub open spec fn latency_class(s: Seq<(String, u64)>, x: (String, u64)) -> Seq<(String, u64)> {
    class_of(latency_order(), s, x)
}

/// `sorted` holds the entries of `given` by rising latency, entries of the
/// same latency in the order `given` had them.
pub open spec fn is_latency_order_of(sorted: Seq<(String, u64)>, given: Seq<(String, u64)>) -> bool {
    is_stable_sort_of(latency_order(), sorted, given)
}

/// Ordering by latency is a strict weak order.
pub proof fn lemma_latency_order_is_strict_weak()
    ensures
        is_strict_weak_order(latency_order()),
{
    let before = latency_order();
    assert forall|a: (String, u64)| !#[trigger] before(a, a) by {}
    assert forall|a: (String, u64), b: (String, u64)| #[trigger] before(a, b) implies !before(
        b,
        a,
    ) by {}
    assert forall|a: (String, u64), b: (String, u64), c: (String, u64)|
        #![trigger before(a, b), before(c, b), before(a, c)]
        before(a, b) && !before(c, b) implies before(a, c) by {}
    assert forall|a: (String, u64), b: (String, u64), c: (String, u64)|
        #![trigger before(b, a), before(b, c), before(a, c)]
        !before(b, a) && before(b, c) implies before(a, c) by {}
    assert forall|a: (String, u64), b: (String, u64), c: (String, u64)|
        #![trigger before(b, a), before(c, b), before(c, a)]
        !before(b, a) && !before(c, b) implies !before(c, a) by {}
}

/// The entries by rising latency, entries of the same latency keeping their order.
pub fn sort_by_latency(given: Vec<(String, u64)>) -> (sorted: Vec<(String, u64)>)
    ensures
        is_latency_order_of(sorted@, given@),
{
    proof {
        lemma_latency_order_is_strict_weak();
    }
    let lt = |a: &(String, u64), b: &(String, u64)| -> (r: bool)
        ensures
            r == (a.1 < b.1),
        { a.1 < b.1 };
    stable_sort(given, Ghost(latency_order()), lt)
}

/// Two orderings by rising latency that keep the order of entries of the
/// same latency, of the same entries, are the same: the order is unique.
pub proof fn law_latency_order_is_unique(s1: Seq<(String, u64)>, s2: Seq<(String, u64)>)
    requires
        by_latency(s1),
        by_latency(s2),
        forall|x: (String, u64)| #[trigger] latency_class(s1, x) == latency_class(s2, x),
    ensures
        s1 == s2,
{
    lemma_latency_order_is_strict_weak();
    assert forall|x: (String, u64)| #[trigger] class_of(latency_order(), s1, x) == class_of(
        latency_order(),
        s2,
        x,
    ) by {
        assert(latency_class(s1, x) == latency_class(s2, x));
    }
    law_stable_sort_is_unique(latency_order(), s1, s2);
}

/// How many of `n` regions the report lists.
pub open spec fn regions_shown(n: nat) -> int {
    if n < REGIONS_SHOWN {
        n as int
    } else {
        REGIONS_SHOWN as int
    }
}

/// The closest regions: the first eight of the regions by rising latency.
pub fn closest_regions(latencies: Vec<(String, u64)>) -> (closest: Vec<(String, u64)>)
    ensures
        exists|sorted: Seq<(String, u64)>|
            is_latency_order_of(sorted, latencies@) && closest@ == sorted.take(
                regions_shown(latencies@.len()),
            ),
{
    let mut sorted = sort_by_latency(latencies);
    let ghost all = sorted@;
    if sorted.len() > REGIONS_SHOWN {
        sorted.truncate(REGIONS_SHOWN);
    }
    proof {
        assert(sorted@ =~= all.take(regions_shown(all.len())));
    }
    sorted
}

// ── Options ──────────────────────────────────────────────────────────────────

/// The settings the window can switch.
#[derive(Debug, Clone, Copy, PartialEq, Eq, Structural)]
pub enum OptionKind {
    AcceptDns,
    AcceptRoutes,
    ShieldsUp,
    Ssh,
    ExitNodeAllowLanAccess,
    AdvertiseExitNode,
}

/// The flag of `tailscale set` that switches a setting.
pub open spec fn flag_of(kind: OptionKind) -> Seq<char> {
    match kind {
        OptionKind::AcceptDns => "accept-dns"@,
        OptionKind::AcceptRoutes => "accept-routes"@,
        OptionKind::ShieldsUp => "shields-up"@,
        OptionKind::Ssh => "ssh"@,
        OptionKind::ExitNodeAllowLanAccess => "exit-node-allow-lan-access"@,
        OptionKind::AdvertiseExitNode => "advertise-exit-node"@,
    }
}

/// The current value of a setting in the preferences.
pub open spec fn value_of(kind: OptionKind, prefs: Prefs) -> bool {
    match kind {
        OptionKind::AcceptDns => prefs.accept_dns,
        OptionKind::AcceptRoutes => prefs.accept_routes,
        OptionKind::ShieldsUp => prefs.shields_up,
        OptionKind::Ssh => prefs.run_ssh,
        OptionKind::ExitNodeAllowLanAccess => prefs.exit_node_allow_lan_access,
        OptionKind::AdvertiseExitNode => prefs.advertise_exit_node,
    }
}

impl OptionKind {
    /// The flag of `tailscale set` that switches this setting.
    pub fn flag(&self) -> (f: &'static str)
        ensures
            f@ == flag_of(*self),
    {
        match self {
            OptionKind::AcceptDns => "accept-dns",
            OptionKind::AcceptRoutes => "accept-routes",
            OptionKind::ShieldsUp => "shields-up",
            OptionKind::Ssh => "ssh",
            OptionKind::ExitNodeAllowLanAccess => "exit-node-allow-lan-access",
            OptionKind::AdvertiseExitNode => "advertise-exit-node",
        }
    }

    /// The current value of this setting.
    pub fn value(&self, prefs: &Prefs) -> (v: bool)
        ensures
            v == value_of(*self, *prefs),
    {
        match self {
            OptionKind::AcceptDns => prefs.accept_dns,
            OptionKind::AcceptRoutes => prefs.accept_routes,
            OptionKind::ShieldsUp => prefs.shields_up,
            OptionKind::Ssh => prefs.run_ssh,
            OptionKind::ExitNodeAllowLanAccess => prefs.exit_node_allow_lan_access,
            OptionKind::AdvertiseExitNode => prefs.advertise_exit_node,
        }
    }

    /// What switching this setting asks for: the opposite of its current value.
    pub fn toggle(&self, prefs: &Prefs) -> (m: Message)
        ensures
            m matches Message::SetOption(flag, value) && flag@ == flag_of(*self) && value == !value_of(
                *self,
                *prefs,
            ),
    {
        Message::SetOption(String::from_str(self.flag()), !self.value(prefs))
    }
}

} // verus!
