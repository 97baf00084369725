use vstd::prelude::*;

use crate::peers::{listed_in_order, rank_class, sort_peers};
use crate::ping_log::PingLog;
use crate::tailscale::{into_nodes, node_values, ping_summary, ping_summary_of, ExitNode, NetcheckReport, PeerStatus, Prefs, Status};

verus! {

// ── State ─────────────────────────────────────────────────────────────────────

/// What the window shows of the Tailscale client.
#[derive(Debug, Clone)]
pub struct TsState {
    pub backend_state: String,
    pub self_node: Option<PeerStatus>,
    /// The other nodes, in listing order.
    pub peers: Option<Vec<PeerStatus>>,
    pub exit_nodes: Option<Vec<ExitNode>>,
    /// The summary of the last ping of each address.
    pub ping_output: PingLog,
    /// The address being pinged, if any.
    pub pinging: Option<String>,
    pub netcheck_report: Option<NetcheckReport>,
    pub netcheck_running: bool,
    pub prefs: Option<Prefs>,
    pub last_error: Option<String>,
}

impl TsState {
    /// The state before anything was loaded.
    pub fn new() -> (s: TsState)
        ensures
            s.backend_state@ == Seq::<char>::empty(),
            s.self_node is None,
            s.peers is None,
            s.exit_nodes is None,
            s.ping_output@ == Map::<Seq<char>, Seq<char>>::empty(),
            s.pinging is None,
            s.netcheck_report is None,
            !s.netcheck_running,
            s.prefs is None,
            s.last_error is None,
    {
        TsState {
            backend_state: String::new(),
            self_node: None,
            peers: None,
            exit_nodes: None,
            ping_output: PingLog::new(),
            pinging: None,
            netcheck_report: None,
            netcheck_running: false,
            prefs: None,
            last_error: None,
        }
    }
}

impl Default for TsState {
    fn default() -> (s: TsState)
        ensures
            s.backend_state@ == Seq::<char>::empty(),
            s.self_node is None,
            s.peers is None,
            s.exit_nodes is None,
            s.ping_output@ == Map::<Seq<char>, Seq<char>>::empty(),
            s.pinging is None,
            s.netcheck_report is None,
            !s.netcheck_running,
            s.prefs is None,
            s.last_error is None,
    {
        TsState::new()
    }
}

// ── App ───────────────────────────────────────────────────────────────────────

/// The pages of the window.
#[derive(Debug, Clone, Copy, PartialEq, Eq, Structural)]
pub enum Tab {
    Peers,
    ExitNodes,
    Netcheck,
    Options,
}

impl Default for Tab {
    /// The window opens on the peers.
    fn default() -> (t: Tab)
        ensures
            t == Tab::Peers,
    {
        Tab::Peers
    }
}

/// A window, as the shell that runs the app names it.
#[derive(Debug, Clone, Copy, PartialEq, Eq, Structural)]
pub struct WindowId(pub u64);

/// How a window is shown.
#[derive(Debug, Clone, Copy, PartialEq, Eq, Structural)]
pub enum WindowMode {
    Windowed,
    Hidden,
}

/// An entry of the tray menu.
#[derive(Debug, Clone, Copy, PartialEq, Eq, Structural)]
pub enum TrayItem {
    ShowHide,
    Quit,
    /// An entry the app does not know.
    Other,
}

/// The app: what it shows, which page, and the state of its window.
#[derive(Debug)]
pub struct App {
    pub state: TsState,
    pub tab: Tab,
    pub window_visible: bool,
    pub window_id: Option<WindowId>,
}

// ── Messages ──────────────────────────────────────────────────────────────────

/// What happens to the app: the user's input, and the results of the work it
/// asked for.
#[derive(Debug)]
pub enum Message {
    // lifecycle
    Refresh,
    StatusLoaded(Result<Status, String>),
    // connection
    Connect,
    Disconnect,
    ConnectDone(Result<(), String>),
    // peers
    PingPeer(String),
    PingDone(String, Result<String, String>),
    CopyIp(String),
    // exit nodes
    LoadExitNodes,
    ExitNodesLoaded(Result<Vec<ExitNode>, String>),
    SetExitNode(String),
    ClearExitNode,
    ExitNodeSet(Result<(), String>),
    // netcheck
    RunNetcheck,
    NetcheckDone(Result<NetcheckReport, String>),
    // options
    LoadPrefs,
    PrefsLoaded(Result<Prefs, String>),
    SetOption(String, bool),
    OptionSet(Result<(), String>),
    // tabs
    SetTab(Tab),
    // window
    GotWindowId(Option<WindowId>),
    WindowCloseRequest(WindowId),
    // tray: one entry of the menu was chosen
    TrayEvent(TrayItem),
    // timer
    Tick,
}

/// A message that holds a report of the CLI, whose clone Verus does not see
/// into (the reports' `Clone` is derived).
pub open spec fn carries_report(m: Message) -> bool {
    ||| m matches Message::StatusLoaded(Ok(_))
    ||| m matches Message::ExitNodesLoaded(Ok(_))
    ||| m matches Message::NetcheckDone(Ok(_))
    ||| m matches Message::PrefsLoaded(Ok(_))
}

/// The same outcome.
fn clone_outcome(r: &Result<(), String>) -> (c: Result<(), String>)
    ensures
        c == *r,
{
    match r {
        Ok(u) => Ok(*u),
        Err(e) => Err(e.clone()),
    }
}

impl Clone for Message {
    /// The same message; of one that holds a report, the same kind of message.
    fn clone(&self) -> (r: Self)
        ensures
            !carries_report(*self) ==> r == *self,
            *self matches Message::StatusLoaded(Ok(_)) ==> r matches Message::StatusLoaded(Ok(_)),
            *self matches Message::ExitNodesLoaded(Ok(_)) ==> r matches Message::ExitNodesLoaded(
                Ok(_),
            ),
            *self matches Message::NetcheckDone(Ok(_)) ==> r matches Message::NetcheckDone(Ok(_)),
            *self matches Message::PrefsLoaded(Ok(_)) ==> r matches Message::PrefsLoaded(Ok(_)),
    {
        match self {
            Message::Refresh => Message::Refresh,
            Message::StatusLoaded(r) => Message::StatusLoaded(
                match r {
                    Ok(s) => Ok(s.clone()),
                    Err(e) => Err(e.clone()),
                },
            ),
            Message::Connect => Message::Connect,
            Message::Disconnect => Message::Disconnect,
            Message::ConnectDone(r) => Message::ConnectDone(clone_outcome(r)),
            Message::PingPeer(ip) => Message::PingPeer(ip.clone()),
            Message::PingDone(ip, r) => Message::PingDone(
                ip.clone(),
                match r {
                    Ok(out) => Ok(out.clone()),
                    Err(e) => Err(e.clone()),
                },
            ),
            Message::CopyIp(ip) => Message::CopyIp(ip.clone()),
            Message::LoadExitNodes => Message::LoadExitNodes,
            Message::ExitNodesLoaded(r) => Message::ExitNodesLoaded(
                match r {
                    Ok(nodes) => Ok(nodes.clone()),
                    Err(e) => Err(e.clone()),
                },
            ),
            Message::SetExitNode(name) => Message::SetExitNode(name.clone()),
            Message::ClearExitNode => Message::ClearExitNode,
            Message::ExitNodeSet(r) => Message::ExitNodeSet(clone_outcome(r)),
            Message::RunNetcheck => Message::RunNetcheck,
            Message::NetcheckDone(r) => Message::NetcheckDone(
                match r {
                    Ok(report) => Ok(report.clone()),
                    Err(e) => Err(e.clone()),
                },
            ),
            Message::LoadPrefs => Message::LoadPrefs,
            Message::PrefsLoaded(r) => Message::PrefsLoaded(
                match r {
                    Ok(p) => Ok(p.clone()),
                    Err(e) => Err(e.clone()),
                },
            ),
            Message::SetOption(flag, value) => Message::SetOption(flag.clone(), *value),
            Message::OptionSet(r) => Message::OptionSet(clone_outcome(r)),
            Message::SetTab(tab) => Message::SetTab(*tab),
            Message::GotWindowId(id) => Message::GotWindowId(*id),
            Message::WindowCloseRequest(id) => Message::WindowCloseRequest(*id),
            Message::TrayEvent(item) => Message::TrayEvent(*item),
            Message::Tick => Message::Tick,
        }
    }
}

/// What the app asks to be done; its result comes back as a [`Message`].
#[derive(Debug)]
pub enum Action {
    Nothing,
    /// `tailscale status --json`, answered by `StatusLoaded`.
    FetchStatus,
    /// `tailscale up`, answered by `ConnectDone`.
    Connect,
    /// `tailscale down`, answered by `ConnectDone`.
    Disconnect,
    /// `tailscale ping` of the address, answered by `PingDone`.
    Ping(String),
    /// Put the text on the clipboard.
    CopyToClipboard(String),
    /// `tailscale exit-node list`, answered by `ExitNodesLoaded`.
    FetchExitNodes,
    /// `tailscale set --exit-node <name>`, answered by `ExitNodeSet`.
    SetExitNode(String),
    /// `tailscale set --exit-node=`, answered by `ExitNodeSet`.
    ClearExitNode,
    /// `tailscale netcheck --format=json`, answered by `NetcheckDone`.
    RunNetcheck,
    /// `tailscale debug prefs`, answered by `PrefsLoaded`.
    FetchPrefs,
    /// `tailscale set --<flag>=<value>`, answered by `OptionSet`.
    SetOption(String, bool),
    /// Show or hide the window.
    SetWindowMode(WindowId, WindowMode),
    /// Ask for the main window's id, answered by `GotWindowId`.
    FetchWindowId,
    /// Leave the app.
    Exit,
}

/// The text recorded for a ping that failed.
pub open spec fn ping_error_text(e: Seq<char>) -> Seq<char> {
    "Error: "@ + e
}

/// `sorted` holds the nodes of `given` in listing order, nodes of the same
/// rank in the order `given` had them.
pub open spec fn is_listing_of(sorted: Seq<PeerStatus>, given: Seq<PeerStatus>) -> bool {
    &&& sorted.len() == given.len()
    &&& listed_in_order(sorted)
    &&& forall|x: PeerStatus| #[trigger] rank_class(sorted, x) == rank_class(given, x)
}

/// The app after `pre` with its state replaced.
pub open spec fn with_state(pre: App, s: TsState) -> App {
    App { state: s, ..pre }
}

/// The app after `pre` with its last error set to `e`.
pub open spec fn with_error(pre: App, e: String) -> App {
    with_state(pre, TsState { last_error: Some(e), ..pre.state })
}

/// The app after an answer that only records an error: unchanged on success,
/// with the error recorded on failure.
pub open spec fn after_outcome(pre: App, r: Result<(), String>) -> App {
    match r {
        Ok(()) => pre,
        Err(e) => with_error(pre, e),
    }
}

/// What `update` does: `post` and `act` are what follows `pre` on `msg`.
pub open spec fn step(pre: App, msg: Message, post: App, act: Action) -> bool {
    match msg {
        Message::Tick | Message::Refresh => post == pre && act == Action::FetchStatus,
        Message::StatusLoaded(Ok(status)) => {
            &&& post == with_state(
                pre,
                TsState {
                    backend_state: status.backend_state,
                    self_node: status.self_node,
                    peers: post.state.peers,
                    last_error: None,
                    ..pre.state
                },
            )
            &&& match status.peer {
                None => post.state.peers is None,
                Some(given) => post.state.peers matches Some(sorted) && is_listing_of(
                    sorted@,
                    node_values(given@),
                ),
            }
            &&& act == Action::Nothing
        },
        Message::StatusLoaded(Err(e)) => post == with_error(pre, e) && act == Action::Nothing,
        Message::Connect => post == pre && act == Action::Connect,
        Message::Disconnect => post == pre && act == Action::Disconnect,
        Message::ConnectDone(r) => post == after_outcome(pre, r) && act == Action::FetchStatus,
        Message::PingPeer(ip) => {
            &&& post == with_state(pre, TsState { pinging: Some(ip), ..pre.state })
            &&& act == Action::Ping(ip)
        },
        Message::PingDone(ip, r) => {
            &&& post == with_state(
                pre,
                TsState { pinging: None, ping_output: post.state.ping_output, ..pre.state },
            )
            &&& post.state.ping_output@ == pre.state.ping_output@.insert(
                ip@,
                match r {
                    Ok(out) => ping_summary_of(out@),
                    Err(e) => ping_error_text(e@),
                },
            )
            &&& act == Action::Nothing
        },
        Message::CopyIp(ip) => post == pre && act == Action::CopyToClipboard(ip),
        Message::LoadExitNodes => post == pre && act == Action::FetchExitNodes,
        Message::ExitNodesLoaded(Ok(nodes)) => {
            &&& post == with_state(pre, TsState { exit_nodes: Some(nodes), ..pre.state })
            &&& act == Action::Nothing
        },
        Message::ExitNodesLoaded(Err(e)) => post == with_error(pre, e) && act == Action::Nothing,
        Message::SetExitNode(name) => post == pre && act == Action::SetExitNode(name),
        Message::ClearExitNode => post == pre && act == Action::ClearExitNode,
        Message::ExitNodeSet(r) => post == after_outcome(pre, r) && act == Action::FetchExitNodes,
        Message::RunNetcheck => {
            &&& post == with_state(pre, TsState { netcheck_running: true, ..pre.state })
            &&& act == Action::RunNetcheck
        },
        Message::NetcheckDone(Ok(report)) => {
            &&& post == with_state(
                pre,
                TsState { netcheck_running: false, netcheck_report: Some(report), ..pre.state },
            )
            &&& act == Action::Nothing
        },
        Message::NetcheckDone(Err(e)) => {
            &&& post == with_state(
                pre,
                TsState { netcheck_running: false, last_error: Some(e), ..pre.state },
            )
            &&& act == Action::Nothing
        },
        Message::LoadPrefs => post == pre && act == Action::FetchPrefs,
        Message::PrefsLoaded(Ok(p)) => {
            &&& post == with_state(pre, TsState { prefs: Some(p), ..pre.state })
            &&& act == Action::Nothing
        },
        Message::PrefsLoaded(Err(e)) => post == with_error(pre, e) && act == Action::Nothing,
        Message::SetOption(flag, value) => post == pre && act == Action::SetOption(flag, value),
        Message::OptionSet(r) => post == after_outcome(pre, r) && act == Action::FetchPrefs,
        Message::SetTab(tab) => {
            &&& post == App { tab, ..pre }
            &&& act == if tab == Tab::Options && pre.state.prefs is None {
                Action::FetchPrefs
            } else {
                Action::Nothing
            }
        },
        Message::GotWindowId(id) => post == App { window_id: id, ..pre } && act == Action::Nothing,
        Message::WindowCloseRequest(id) => {
            &&& post == App { window_visible: false, ..pre }
            &&& act == Action::SetWindowMode(id, WindowMode::Hidden)
        },
        Message::TrayEvent(TrayItem::Quit) => post == pre && act == Action::Exit,
        Message::TrayEvent(TrayItem::ShowHide) => match pre.window_id {
            Some(id) => {
                &&& post == App { window_visible: !pre.window_visible, ..pre }
                &&& act == Action::SetWindowMode(
                    id,
                    if pre.window_visible {
                        WindowMode::Hidden
                    } else {
                        WindowMode::Windowed
                    },
                )
            },
            None => post == pre && act == Action::Nothing,
        },
        Message::TrayEvent(TrayItem::Other) => post == pre && act == Action::Nothing,
    }
}

impl App {
    /// The app as it starts, with what it asks for first: the status, and
    /// the id of its window.
    pub fn new() -> (r: (App, Vec<Action>))
        ensures
            r.0.tab == Tab::Peers,
            r.0.window_visible,
            r.0.window_id is None,
            r.0.state.backend_state@ == Seq::<char>::empty(),
            r.0.state.self_node is None,
            r.0.state.peers is None,
            r.0.state.exit_nodes is None,
            r.0.state.ping_output@ == Map::<Seq<char>, Seq<char>>::empty(),
            r.0.state.pinging is None,
            r.0.state.netcheck_report is None,
            !r.0.state.netcheck_running,
            r.0.state.prefs is None,
            r.0.state.last_error is None,
            r.1@ == seq![Action::FetchStatus, Action::FetchWindowId],
    {
        let app = App { state: TsState::default(), tab: Tab::default(), window_visible: true, window_id: None };
        let mut tasks: Vec<Action> = Vec::new();
        tasks.push(Action::FetchStatus);
        tasks.push(Action::FetchWindowId);
        proof {
            assert(tasks@ =~= seq![Action::FetchStatus, Action::FetchWindowId]);
        }
        (app, tasks)
    }

    /// The window's title.
    pub fn title(&self) -> (t: String)
        ensures
            t@ == "Tailscale"@,
    {
        String::from_str("Tailscale")
    }

    /// Takes in one message: changes the state as it says, and returns the
    /// work to be done next.
    pub fn update(&mut self, message: Message) -> (act: Action)
        ensures
            step(*old(self), message, *final(self), act),
    {
        match message {
            Message::Tick | Message::Refresh => Action::FetchStatus,
            Message::StatusLoaded(Ok(status)) => {
                self.state.backend_state = status.backend_state;
                self.state.self_node = status.self_node;
                self.state.peers = match status.peer {
                    Some(given) => Some(sort_peers(into_nodes(given))),
                    None => None,
                };
                self.state.last_error = None;
                Action::Nothing
            },
            Message::StatusLoaded(Err(e)) => {
                self.state.last_error = Some(e);
                Action::Nothing
            },
            Message::Connect => Action::Connect,
            Message::Disconnect => Action::Disconnect,
            Message::ConnectDone(result) => {
                if let Err(e) = result {
                    self.state.last_error = Some(e);
                }
                Action::FetchStatus
            },
            Message::PingPeer(ip) => {
                self.state.pinging = Some(ip.clone());
                Action::Ping(ip)
            },
            Message::PingDone(ip, result) => {
                self.state.pinging = None;
                match result {
                    Ok(out) => {
                        let summary = ping_summary(out.as_str());
                        self.state.ping_output.insert(ip, summary);
                    },
                    Err(e) => {
                        let mut text = String::from_str("Error: ");
                        text.append(e.as_str());
                        self.state.ping_output.insert(ip, text);
                    },
                }
                Action::Nothing
            },
            Message::CopyIp(ip) => Action::CopyToClipboard(ip),
            Message::LoadExitNodes => Action::FetchExitNodes,
            Message::ExitNodesLoaded(result) => {
                match result {
                    Ok(nodes) => self.state.exit_nodes = Some(nodes),
                    Err(e) => self.state.last_error = Some(e),
                }
                Action::Nothing
            },
            Message::SetExitNode(name) => Action::SetExitNode(name),
            Message::ClearExitNode => Action::ClearExitNode,
            Message::ExitNodeSet(result) => {
                if let Err(e) = result {
                    self.state.last_error = Some(e);
                }
                Action::FetchExitNodes
            },
            Message::RunNetcheck => {
                self.state.netcheck_running = true;
                Action::RunNetcheck
            },
            Message::NetcheckDone(result) => {
                self.state.netcheck_running = false;
                match result {
                    Ok(report) => self.state.netcheck_report = Some(report),
                    Err(e) => self.state.last_error = Some(e),
                }
                Action::Nothing
            },
            Message::LoadPrefs => Action::FetchPrefs,
            Message::PrefsLoaded(result) => {
                match result {
                    Ok(p) => self.state.prefs = Some(p),
                    Err(e) => self.state.last_error = Some(e),
                }
                Action::Nothing
            },
            Message::SetOption(flag, value) => Action::SetOption(flag, value),
            Message::OptionSet(result) => {
                if let Err(e) = result {
                    self.state.last_error = Some(e);
                }
                Action::FetchPrefs
            },
            Message::SetTab(tab) => {
                let load = tab == Tab::Options && self.state.prefs.is_none();
                self.tab = tab;
                if load {
                    Action::FetchPrefs
                } else {
                    Action::Nothing
                }
            },
            Message::GotWindowId(id) => {
                self.window_id = id;
                Action::Nothing
            },
            Message::WindowCloseRequest(id) => {
                // Hide to tray instead of closing
                self.window_visible = false;
                Action::SetWindowMode(id, WindowMode::Hidden)
            },
            Message::TrayEvent(item) => match item {
                TrayItem::Quit => Action::Exit,
                TrayItem::ShowHide => match self.window_id {
                    Some(win_id) => {
                        let mode = if self.window_visible {
                            self.window_visible = false;
                            WindowMode::Hidden
                        } else {
                            self.window_visible = true;
                            WindowMode::Windowed
                        };
                        Action::SetWindowMode(win_id, mode)
                    },
                    None => Action::Nothing,
                },
                TrayItem::Other => Action::Nothing,
            },
        }
    }
}

} // verus!
