use vstd::prelude::*;

use crate::app::{
    ping_error_text, step, Action, App, Message, Tab, TrayItem, WindowMode,
};
use crate::order::{law_stable_sort_keeps_the_items, lemma_filter_positions, lists_positions};
use crate::peers::{listed_before, listed_in_order, peer_order};
use crate::ping_log::PingLog;
use crate::order::lemma_filter_single;
use crate::ui::{is_latency_order_of, latency_order, lemma_latency_order_is_strict_weak, regions_shown};
use crate::tailscale::{
    exit_node_lines, exit_node_of, is_latency_line, ping_summary_of, summary_count, word_or_empty,
    ExitNode, PeerStatus,
};
use crate::text::{contains_seq, is_blank, join, lex_lt, lines, words};

verus! {

/// Choosing Show / Hide twice in the tray leaves the app as it was.
pub proof fn law_show_hide_twice_restores(a: App, b: App, c: App, x: Action, y: Action)
    requires
        step(a, Message::TrayEvent(TrayItem::ShowHide), b, x),
        step(b, Message::TrayEvent(TrayItem::ShowHide), c, y),
    ensures
        c == a,
{
}

/// Show / Hide hides a visible window and shows a hidden one, once the app
/// knows its window.
pub proof fn law_show_hide_toggles(a: App, b: App, x: Action)
    requires
        step(a, Message::TrayEvent(TrayItem::ShowHide), b, x),
        a.window_id is Some,
    ensures
        b.window_visible == !a.window_visible,
        x == Action::SetWindowMode(
            a.window_id->0,
            if a.window_visible {
                WindowMode::Hidden
            } else {
                WindowMode::Windowed
            },
        ),
{
}

/// Closing the window hides it to the tray: the app goes on.
pub proof fn law_close_hides_to_tray(a: App, id: crate::app::WindowId, b: App, x: Action)
    requires
        step(a, Message::WindowCloseRequest(id), b, x),
    ensures
        !b.window_visible,
        x == Action::SetWindowMode(id, WindowMode::Hidden),
        b.state == a.state,
{
}

/// The app leaves only when Quit is chosen in the tray.
pub proof fn law_exit_only_on_quit(a: App, m: Message, b: App, x: Action)
    requires
        step(a, m, b, x),
    ensures
        (x == Action::Exit) <==> (m == Message::TrayEvent(TrayItem::Quit)),
{
}

/// Only `SetTab` changes the page shown.
pub proof fn law_tab_changes_only_on_set_tab(a: App, m: Message, b: App, x: Action)
    requires
        step(a, m, b, x),
        !(m is SetTab),
    ensures
        b.tab == a.tab,
{
}

/// Only the window messages and the tray change what is known of the window.
pub proof fn law_window_changes_only_by_window_events(a: App, m: Message, b: App, x: Action)
    requires
        step(a, m, b, x),
        !(m is GotWindowId),
        !(m is WindowCloseRequest),
        !(m is TrayEvent),
    ensures
        b.window_id == a.window_id,
        b.window_visible == a.window_visible,
{
}

/// The peers are always shown in listing order: online nodes first, then by host name.
pub proof fn law_peers_stay_in_order(a: App, m: Message, b: App, x: Action)
    requires
        step(a, m, b, x),
        a.state.peers matches Some(p) ==> listed_in_order(p@),
    ensures
        b.state.peers matches Some(p) ==> listed_in_order(p@),
{
}

/// A ping marks its node as being pinged until the answer comes, and the
/// answer is what the node then shows: the summary of the output, or the error.
pub proof fn law_ping_round_trip(
    a: App,
    ip: String,
    b: App,
    x: Action,
    ip2: String,
    r: Result<String, String>,
    c: App,
    y: Action,
)
    requires
        step(a, Message::PingPeer(ip), b, x),
        step(b, Message::PingDone(ip2, r), c, y),
        ip2@ == ip@,
    ensures
        b.state.pinging == Some(ip),
        x == Action::Ping(ip),
        c.state.pinging is None,
        c.state.ping_output@.contains_key(ip@),
        c.state.ping_output@[ip@] == match r {
            Ok(out) => ping_summary_of(out@),
            Err(e) => ping_error_text(e@),
        },
        forall|other: Seq<char>|
            other != ip@ ==> #[trigger] c.state.ping_output@.contains_key(other)
                == a.state.ping_output@.contains_key(other) && c.state.ping_output@[other]
                == a.state.ping_output@[other],
{
}

/// A recorded ping result reads back as written, and leaves the others as they were.
pub proof fn law_ping_log_read_after_write(pre: PingLog, post: PingLog, ip: Seq<char>, out: Seq<char>)
    requires
        post@ == pre@.insert(ip, out),
    ensures
        post@.contains_key(ip),
        post@[ip] == out,
        forall|other: Seq<char>|
            other != ip ==> #[trigger] post@.contains_key(other) == pre@.contains_key(other)
                && post@[other] == pre@[other],
{
}

/// Every failed request but a ping leaves its error to be shown; a status that
/// loads clears it.
pub proof fn law_errors_are_shown(a: App, m: Message, b: App, x: Action)
    requires
        step(a, m, b, x),
    ensures
        m matches Message::StatusLoaded(Err(e)) ==> b.state.last_error == Some(e),
        m matches Message::StatusLoaded(Ok(_)) ==> b.state.last_error is None,
        m matches Message::ConnectDone(Err(e)) ==> b.state.last_error == Some(e),
        m matches Message::ExitNodesLoaded(Err(e)) ==> b.state.last_error == Some(e),
        m matches Message::ExitNodeSet(Err(e)) ==> b.state.last_error == Some(e),
        m matches Message::NetcheckDone(Err(e)) ==> b.state.last_error == Some(e),
        m matches Message::PrefsLoaded(Err(e)) ==> b.state.last_error == Some(e),
        m matches Message::OptionSet(Err(e)) ==> b.state.last_error == Some(e),
        m is PingDone ==> b.state.last_error == a.state.last_error,
{
}

/// After each change of settings the app reloads what it changed, whether the
/// change worked or not.
pub proof fn law_changes_are_reloaded(a: App, m: Message, b: App, x: Action)
    requires
        step(a, m, b, x),
    ensures
        m is ConnectDone ==> x == Action::FetchStatus,
        m is ExitNodeSet ==> x == Action::FetchExitNodes,
        m is OptionSet ==> x == Action::FetchPrefs,
{
}

/// The status is polled: every tick asks for it and changes nothing else.
pub proof fn law_tick_polls_status(a: App, b: App, x: Action)
    requires
        step(a, Message::Tick, b, x),
    ensures
        b == a,
        x == Action::FetchStatus,
{
}

/// A netcheck runs from its request until its answer, whatever the answer.
pub proof fn law_netcheck_runs_until_done(
    a: App,
    b: App,
    x: Action,
    r: Result<crate::tailscale::NetcheckReport, String>,
    c: App,
    y: Action,
)
    requires
        step(a, Message::RunNetcheck, b, x),
        step(b, Message::NetcheckDone(r), c, y),
    ensures
        b.state.netcheck_running,
        x == Action::RunNetcheck,
        !c.state.netcheck_running,
{
}

/// The options page loads the preferences the first time it is opened, and
/// only then.
pub proof fn law_options_load_once(a: App, b: App, x: Action)
    requires
        step(a, Message::SetTab(Tab::Options), b, x),
    ensures
        b.tab == Tab::Options,
        a.state.prefs is None ==> x == Action::FetchPrefs,
        a.state.prefs is Some ==> x == Action::Nothing,
{
}

/// The header line of an exit-node listing does not matter: with another
/// first line, the listing names the same nodes.
pub proof fn law_exit_nodes_ignore_the_header(
    raw: Seq<char>,
    raw2: Seq<char>,
    header: Seq<char>,
    nodes: Seq<ExitNode>,
    nodes2: Seq<ExitNode>,
)
    requires
        lines(raw).len() > 0,
        lines(raw2) == lines(raw).update(0, header),
        nodes.map_values(|n: ExitNode| n@) == exit_node_lines(raw).map_values(
            |l: Seq<char>| exit_node_of(l),
        ),
        nodes2.map_values(|n: ExitNode| n@) == exit_node_lines(raw2).map_values(
            |l: Seq<char>| exit_node_of(l),
        ),
    ensures
        exit_node_lines(raw2) == exit_node_lines(raw),
        nodes2.map_values(|n: ExitNode| n@) == nodes.map_values(|n: ExitNode| n@),
{
    assert(lines(raw2).drop_first() =~= lines(raw).drop_first());
}

/// Blank lines after the header of an exit-node listing do not matter: with
/// one more line of white space anywhere after the header, the listing names
/// the same nodes.
pub proof fn law_exit_nodes_ignore_blank_lines(
    raw: Seq<char>,
    raw2: Seq<char>,
    i: int,
    blank: Seq<char>,
    nodes: Seq<ExitNode>,
    nodes2: Seq<ExitNode>,
)
    requires
        1 <= i <= lines(raw).len(),
        is_blank(blank),
        lines(raw2) == lines(raw).insert(i, blank),
        nodes.map_values(|n: ExitNode| n@) == exit_node_lines(raw).map_values(
            |l: Seq<char>| exit_node_of(l),
        ),
        nodes2.map_values(|n: ExitNode| n@) == exit_node_lines(raw2).map_values(
            |l: Seq<char>| exit_node_of(l),
        ),
    ensures
        exit_node_lines(raw2) == exit_node_lines(raw),
        nodes2.map_values(|n: ExitNode| n@) == nodes.map_values(|n: ExitNode| n@),
{
    let body = lines(raw).drop_first();
    let body2 = lines(raw2).drop_first();
    let k = i - 1;
    let pred = |l: Seq<char>| !is_blank(l);
    assert(body2 =~= body.take(k) + seq![blank] + body.skip(k));
    assert(body =~= body.take(k) + body.skip(k));
    Seq::filter_distributes_over_add(body.take(k) + seq![blank], body.skip(k), pred);
    Seq::filter_distributes_over_add(body.take(k), seq![blank], pred);
    Seq::filter_distributes_over_add(body.take(k), body.skip(k), pred);
    lemma_filter_single(blank, pred);
    assert(body2.filter(pred) =~= body.filter(pred));
}

// ── What the computations are for ────────────────────────────────────────────

/// The peer list, in listing order, has no offline node before an online
/// one, and among nodes of the same online status the host names rise in
/// `String`'s order (so a name that is a prefix of another comes first).
pub proof fn law_peers_online_first_then_by_name(s: Seq<PeerStatus>, i: int, j: int)
    requires
        listed_in_order(s),
        0 <= i < j < s.len(),
    ensures
        s[i].online || !s[j].online,
        s[i].online == s[j].online ==> !lex_lt(s[j].host_name@, s[i].host_name@),
{
    assert(!peer_order()(s[j], s[i]));
}

/// Of two nodes of the same online status, the first is listed before the
/// second exactly when its host name comes first in `String`'s order.
pub proof fn law_same_status_goes_by_name(a: PeerStatus, b: PeerStatus)
    requires
        a.online == b.online,
    ensures
        listed_before(a, b) <==> lex_lt(a.host_name@, b.host_name@),
{
}

/// The lines of an exit-node listing after its header line.
pub open spec fn lines_after_header(raw: Seq<char>) -> Seq<Seq<char>> {
    if lines(raw).len() > 0 {
        lines(raw).drop_first()
    } else {
        Seq::empty()
    }
}

/// Every line after the header that is not blank names exactly one exit
/// node, in the order of the lines: the `k`-th node comes from the `k`-th
/// such line (at position `f[k]`), whose first word is its address, whose
/// second word is its name, and whose `*` marks it active, whatever else the
/// line holds.
pub proof fn law_one_exit_node_per_line(raw: Seq<char>, nodes: Seq<ExitNode>) -> (f: Seq<int>)
    requires
        nodes.map_values(|n: ExitNode| n@) == exit_node_lines(raw).map_values(
            |l: Seq<char>| exit_node_of(l),
        ),
    ensures
        lists_positions(f, lines_after_header(raw), |l: Seq<char>| !is_blank(l)),
        f.len() == nodes.len(),
        forall|k: int|
            0 <= k < nodes.len() ==> {
                let line = #[trigger] lines_after_header(raw)[f[k]];
                &&& nodes[k].ip@ == word_or_empty(words(line), 0)
                &&& nodes[k].name@ == word_or_empty(words(line), 1)
                &&& nodes[k].active == line.contains('*')
            },
{
    let body = lines_after_header(raw);
    let pred = |l: Seq<char>| !is_blank(l);
    assert(exit_node_lines(raw) == body.filter(pred));
    let f = lemma_filter_positions(body, pred);
    assert(nodes.map_values(|n: ExitNode| n@).len() == nodes.len());
    assert(exit_node_lines(raw).len() == nodes.len());
    assert forall|k: int| 0 <= k < nodes.len() implies {
        let line = #[trigger] lines_after_header(raw)[f[k]];
        &&& nodes[k].ip@ == word_or_empty(words(line), 0)
        &&& nodes[k].name@ == word_or_empty(words(line), 1)
        &&& nodes[k].active == line.contains('*')
    } by {
        assert(nodes.map_values(|n: ExitNode| n@)[k] == nodes[k]@);
        assert(exit_node_lines(raw).map_values(|l: Seq<char>| exit_node_of(l))[k] == exit_node_of(
            body.filter(pred)[k],
        ));
        assert(body.filter(pred)[k] == body[f[k]]);
    }
    f
}

/// A ping's summary is the first three of its lines that report a round trip
/// (fewer if there are fewer), joined by ` | `; the lines that report one are
/// those holding `ms` or `pong`, at the positions `f` lists.
pub proof fn law_ping_summary_keeps_three(out: Seq<char>) -> (f: Seq<int>)
    ensures
        lists_positions(
            f,
            lines(out),
            |l: Seq<char>| contains_seq(l, "ms"@) || contains_seq(l, "pong"@),
        ),
        ping_summary_of(out) == join(
            Seq::new(
                if f.len() < 3 {
                    f.len()
                } else {
                    3
                },
                |i: int| lines(out)[f[i]],
            ),
            " | "@,
        ),
{
    let pred = |l: Seq<char>| contains_seq(l, "ms"@) || contains_seq(l, "pong"@);
    let kept = lines(out).filter(|l: Seq<char>| is_latency_line(l));
    assert(kept == lines(out).filter(pred)) by {
        assert((|l: Seq<char>| is_latency_line(l)) =~= pred);
    }
    let f = lemma_filter_positions(lines(out), pred);
    let m: nat = if f.len() < 3 {
        f.len()
    } else {
        3
    };
    assert(kept.take(summary_count(kept.len())) =~= Seq::new(m, |i: int| lines(out)[f[i]]));
    f
}

/// The regions come by rising latency, in nanoseconds as reported.
pub proof fn law_latencies_rise(sorted: Seq<(String, u64)>, given: Seq<(String, u64)>, i: int, j: int)
    requires
        is_latency_order_of(sorted, given),
        0 <= i < j < sorted.len(),
    ensures
        sorted[i].1 <= sorted[j].1,
{
    assert(!latency_order()(sorted[j], sorted[i]));
}

/// The closest regions are at most eight regions of the report, by rising
/// latency, and no region left out is closer than one shown.
pub proof fn law_closest_regions_are_closest(
    given: Seq<(String, u64)>,
    sorted: Seq<(String, u64)>,
    closest: Seq<(String, u64)>,
)
    requires
        is_latency_order_of(sorted, given),
        closest == sorted.take(regions_shown(given.len())),
    ensures
        closest.len() == if given.len() < 8 {
            given.len() as int
        } else {
            8
        },
        forall|i: int, j: int| 0 <= i < j < closest.len() ==> #[trigger] closest[i].1 <= #[trigger] closest[j].1,
        forall|k: int| 0 <= k < closest.len() ==> given.contains(#[trigger] closest[k]),
        forall|e: (String, u64), k: int|
            #![trigger given.contains(e), closest[k]]
            given.contains(e) && !closest.contains(e) && 0 <= k < closest.len() ==> closest[k].1 <= e.1,
{
    lemma_latency_order_is_strict_weak();
    assert forall|i: int, j: int| 0 <= i < j < closest.len() implies #[trigger] closest[i].1
        <= #[trigger] closest[j].1 by {
        assert(!latency_order()(sorted[j], sorted[i]));
    }
    assert forall|k: int| 0 <= k < closest.len() implies given.contains(#[trigger] closest[k]) by {
        assert(sorted.contains(sorted[k]));
        law_stable_sort_keeps_the_items(latency_order(), sorted, given, sorted[k]);
    }
    assert forall|e: (String, u64), k: int|
        #![trigger given.contains(e), closest[k]]
        given.contains(e) && !closest.contains(e) && 0 <= k < closest.len() implies closest[k].1
            <= e.1 by {
        law_stable_sort_keeps_the_items(latency_order(), sorted, given, e);
        let j = choose|j: int| 0 <= j < sorted.len() && sorted[j] == e;
        if j < closest.len() {
            assert(closest[j] == e);
        } else {
            assert(!latency_order()(sorted[j], sorted[k]));
        }
    }
}

/// Switching an option asks for exactly the value given, for the flag given,
/// and changes nothing until the answer comes.
pub proof fn law_set_option_asks_for_the_value_given(
    a: App,
    flag: String,
    value: bool,
    b: App,
    x: Action,
)
    requires
        step(a, Message::SetOption(flag, value), b, x),
    ensures
        b == a,
        x matches Action::SetOption(f, v) && f@ == flag@ && v == value,
{
}

} // verus!
