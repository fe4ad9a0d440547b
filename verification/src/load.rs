//! Loading the state of every reachable tmux server.
//!
//! A load is a sequence of decisions between runs of tmux: for each candidate
//! server in turn the caller runs `list-panes` and hands over what it read;
//! for a server with sessions it also asks the server for its socket and hands
//! over the server's identity; at the end `TmuxClient::load` settles which
//! server is current and what is shown.
use vstd::prelude::*;
use vstd::string::StringExecFns;

use crate::client::{candidate_list, candidate_servers, ClientView, TmuxClient};
use crate::listing::{
    format_text, parse_list_panes, parsed_sessions, sort_sessions, sorted_sessions, tmux_format,
    FALLBACK_SEP, PRIMARY_SEP,
};
use crate::text::{
    bool_string, bool_text, concat2, concat3, decimal, has_infix, is_blank, is_blank_str, str_chars,
    str_contains, trim, trim_string, usize_text,
};
use crate::tmux::{
    cmd, is_no_server_message, is_no_server_text, output_message, output_message_of, push_arg,
    server_label, CommandOutput, ServerView, Session, SessionView, StateView, TmuxCommand,
    TmuxServer, TmuxState,
};

verus! {

/// What one server's `list-panes` came to.
#[derive(Clone, Debug, PartialEq, Eq)]
pub enum ServerLoad {
    /// Its sessions (possibly none).
    State(TmuxState),
    /// No server listens there.
    Unavailable,
    /// tmux could not be run (`not_found` when it is not installed), or the
    /// server answered with an error.
    Failed { not_found: bool, message: String },
}

/// `list-panes -a -F <format>` on a server.
pub fn list_panes_command(server: &TmuxServer, separator: char) -> (res: TmuxCommand)
    ensures
        res@ == cmd(server@, seq!["list-panes"@, "-a"@, "-F"@, format_text(separator)]),
{
    let format = tmux_format(separator);
    let mut args: Vec<String> = Vec::new();
    push_arg(&mut args, "list-panes");
    push_arg(&mut args, "-a");
    push_arg(&mut args, "-F");
    push_arg(&mut args, format.as_str());
    assert(args.deep_view() =~= seq!["list-panes"@, "-a"@, "-F"@, format_text(separator)]);
    TmuxCommand { server: server.duplicate(), args }
}

/// What a `list-panes` run with a separator came to, or `None` when its output
/// could not be read with that separator: a failure that says no server runs
/// makes the server unavailable, any other failure is an error; output that
/// describes panes, or blank output, gives the sessions.
pub fn read_list_panes(server: &TmuxServer, separator: char, output: &CommandOutput) -> (res:
    Option<ServerLoad>)
    ensures
        !output.success ==> {
            let m = output_message(output.stdout@, output.stderr@);
            if is_no_server_text(m) {
                res == Some(ServerLoad::Unavailable)
            } else {
                res matches Some(ServerLoad::Failed { not_found, message }) && !not_found
                    && message@ == "tmux list-panes failed: "@ + m
            }
        },
        output.success ==> {
            let ss = parsed_sessions(output.stdout@, server@, separator);
            if ss.len() > 0 || is_blank(output.stdout@) {
                res matches Some(ServerLoad::State(st)) && st@.sessions == ss && st@.notice is None
                    && st@.diagnostics.len() == 0
            } else {
                res is None
            }
        },
{
    if !output.success {
        let message = output_message_of(output);
        if is_no_server_message(message.as_str()) {
            return Some(ServerLoad::Unavailable);
        }
        return Some(
            ServerLoad::Failed {
                not_found: false,
                message: concat2("tmux list-panes failed: ", message.as_str()),
            },
        );
    }
    let state = parse_list_panes(output.stdout.as_str(), server.duplicate(), separator);
    if state.sessions.len() > 0 || is_blank_str(output.stdout.as_str()) {
        Some(ServerLoad::State(state))
    } else {
        None
    }
}

/// The error for output that neither separator could read.
pub fn unparsed_list_panes() -> (res: ServerLoad)
    ensures
        res matches ServerLoad::Failed { not_found, message } && !not_found && message@
            == "tmux list-panes returned data, but lazytmux could not parse it"@,
{
    ServerLoad::Failed {
        not_found: false,
        message: "tmux list-panes returned data, but lazytmux could not parse it".to_string(),
    }
}

/// What comes next when reading a server with `list-panes`.
pub enum ProbeNext {
    /// Run `list-panes` with this separator.
    Run(char),
    /// The server's load is settled.
    Done(ServerLoad),
}

/// The next step of reading a server, after `tried` runs of `list-panes` of
/// which the last was read as `last` (`None` when its output could not be
/// read, or before any run): a readable run settles it; otherwise the
/// primary separator is tried first, then the fallback one, and output that
/// neither could read is an error.
pub fn probe_next(tried: usize, last: Option<ServerLoad>) -> (res: ProbeNext)
    ensures
        match last {
            Some(load) => res == ProbeNext::Done(load),
            None => if tried == 0 {
                res == ProbeNext::Run(PRIMARY_SEP)
            } else if tried == 1 {
                res == ProbeNext::Run(FALLBACK_SEP)
            } else {
                res matches ProbeNext::Done(ServerLoad::Failed { not_found, message }) && !not_found
                    && message@ == "tmux list-panes returned data, but lazytmux could not parse it"@
            },
        },
{
    match last {
        Some(load) => ProbeNext::Done(load),
        None => if tried == 0 {
            ProbeNext::Run(PRIMARY_SEP)
        } else if tried == 1 {
            ProbeNext::Run(FALLBACK_SEP)
        } else {
            ProbeNext::Done(unparsed_list_panes())
        },
    }
}

/// `display-message -p #{socket_path}` on a server.
pub fn socket_path_command(server: &TmuxServer) -> (res: TmuxCommand)
    ensures
        res@ == cmd(server@, seq!["display-message"@, "-p"@, "#{socket_path}"@]),
{
    let mut args: Vec<String> = Vec::new();
    push_arg(&mut args, "display-message");
    push_arg(&mut args, "-p");
    push_arg(&mut args, "#{socket_path}");
    assert(args.deep_view() =~= seq!["display-message"@, "-p"@, "#{socket_path}"@]);
    TmuxCommand { server: server.duplicate(), args }
}

/// The socket path a server reported: its trimmed output, unless the run
/// failed, printed nothing, or printed the format unexpanded.
pub open spec fn reported_path(success: bool, stdout: Seq<char>) -> Option<Seq<char>> {
    let p = trim(stdout);
    if !success || p.len() == 0 || has_infix(p, "#{"@) {
        None
    } else {
        Some(p)
    }
}

/// The socket path a server reported, when it reported one.
pub fn reported_socket_path(output: &CommandOutput) -> (res: Option<String>)
    ensures
        match res {
            Some(p) => reported_path(output.success, output.stdout@) == Some(p@),
            None => reported_path(output.success, output.stdout@) is None,
        },
{
    if !output.success {
        return None;
    }
    let p = trim_string(output.stdout.as_str());
    let pv = str_chars(p.as_str());
    if pv.len() == 0 || str_contains(p.as_str(), "#{") {
        None
    } else {
        Some(p)
    }
}

/// What tells servers apart: the socket they reported (by the canonical form
/// of its path, `reported_key`); otherwise `default`, `name:<name>`, or the
/// canonical form of the server's own socket path (`own_key`).
pub open spec fn identity_text(
    server: ServerView,
    reported_key: Option<Seq<char>>,
    own_key: Seq<char>,
) -> Seq<char> {
    match reported_key {
        Some(k) => "socket:"@ + k,
        None => match server {
            ServerView::Default => "default"@,
            ServerView::Name(n) => "name:"@ + n,
            ServerView::Socket(_) => "socket:"@ + own_key,
        },
    }
}

/// The identity of a server.
pub fn server_identity(server: &TmuxServer, reported_key: Option<&str>, own_key: &str) -> (res:
    String)
    ensures
        res@ == identity_text(
            server@,
            match reported_key {
                Some(k) => Some(k@),
                None => None,
            },
            own_key@,
        ),
{
    match reported_key {
        Some(k) => concat2("socket:", k),
        None => match server {
            TmuxServer::Default => "default".to_string(),
            TmuxServer::Name(n) => concat2("name:", n.as_str()),
            TmuxServer::Socket(_) => concat2("socket:", own_key),
        },
    }
}

/// The notice shown when no server could be reached.
pub open spec fn unreachable_text(tmux_running: bool) -> Seq<char> {
    if tmux_running {
        "No reachable tmux socket found, but tmux processes are running. The socket may be outside scanned paths or deleted; try --socket PATH."@
    } else {
        "No tmux server is running. Press n to create a session."@
    }
}

pub fn unreachable_server_notice(tmux_running: bool) -> (res: String)
    ensures
        res@ == unreachable_text(tmux_running),
{
    if tmux_running {
        return "No reachable tmux socket found, but tmux processes are running. The socket may be outside scanned paths or deleted; try --socket PATH.".to_string();
    }
    "No tmux server is running. Press n to create a session.".to_string()
}

// ---------------------------------------------------------------------------
// The load
// ---------------------------------------------------------------------------

/// A load in progress.
pub struct LoadProgress {
    candidates: Vec<TmuxServer>,
    next: usize,
    empty_server: Option<TmuxServer>,
    primary_server: Option<TmuxServer>,
    loaded: Vec<String>,
    sessions: Vec<Session>,
    diagnostics: Vec<String>,
    fallback: TmuxServer,
    pending: Option<Vec<Session>>,
}

pub struct LoadView {
    pub candidates: Seq<ServerView>,
    pub next: nat,
    pub empty_server: Option<ServerView>,
    pub primary_server: Option<ServerView>,
    pub loaded: Seq<Seq<char>>,
    pub sessions: Seq<SessionView>,
    pub diagnostics: Seq<Seq<char>>,
    pub fallback: ServerView,
    pub pending: Option<Seq<SessionView>>,
}

pub open spec fn opt_server(o: Option<TmuxServer>) -> Option<ServerView> {
    match o {
        Some(s) => Some(s@),
        None => None,
    }
}

impl View for LoadProgress {
    type V = LoadView;

    closed spec fn view(&self) -> LoadView {
        LoadView {
            candidates: self.candidates.deep_view(),
            next: self.next as nat,
            empty_server: opt_server(self.empty_server),
            primary_server: opt_server(self.primary_server),
            loaded: self.loaded.deep_view(),
            sessions: self.sessions.deep_view(),
            diagnostics: self.diagnostics.deep_view(),
            fallback: self.fallback@,
            pending: match self.pending {
                Some(p) => Some(p.deep_view()),
                None => None,
            },
        }
    }
}

/// What the caller does after handing over a server's `list-panes` result.
#[derive(Clone, Debug, PartialEq, Eq)]
pub enum ProbeStep {
    /// Go on with the next server.
    Continue,
    /// Hand over this server's identity (`record_identity`).
    Identify,
    /// The load failed with this message.
    Abort(String),
}

/// How a load ended.
#[derive(Clone, Debug, PartialEq, Eq)]
pub enum LoadOutcome {
    /// Sessions were found; their panes' contents are to be captured.
    Sessions(TmuxState),
    /// Servers answered but hold no session.
    NoSessions(TmuxState),
    /// No server answered; these are the diagnostics so far (see
    /// `unreachable_state`).
    Unreachable(Vec<String>),
}

pub open spec fn opt_first(s: Seq<ServerView>) -> ServerView {
    if s.len() > 0 {
        s[0]
    } else {
        ServerView::Default
    }
}

/// `x` kept unless it is empty, in which case `y`.
pub open spec fn or_insert(x: Option<ServerView>, y: ServerView) -> Option<ServerView> {
    match x {
        Some(v) => Some(v),
        None => Some(y),
    }
}

/// A load after the current server's identity is handed over: its sessions
/// are added unless a server of that identity was loaded before, and the
/// load goes on with the next server.
pub open spec fn identified(pre: LoadView, identity: Seq<char>) -> LoadView {
    let server = pre.candidates[pre.next as int];
    let label = server_label(server);
    let ss = pre.pending->Some_0;
    if pre.loaded.contains(identity) {
        LoadView {
            next: pre.next + 1,
            pending: None,
            diagnostics: pre.diagnostics.push(label + ": duplicate"@),
            ..pre
        }
    } else {
        LoadView {
            next: pre.next + 1,
            pending: None,
            loaded: pre.loaded.push(identity),
            diagnostics: pre.diagnostics.push(label + ": loaded "@ + decimal(ss.len()) + " sessions"@),
            primary_server: or_insert(pre.primary_server, server),
            sessions: pre.sessions + ss,
            ..pre
        }
    }
}

impl LoadProgress {
    /// A load well under way: `next` within the candidates.
    pub closed spec fn wf(&self) -> bool {
        self.next <= self.candidates.len()
    }

    /// The start of a load through `client`, with the server `$TMUX` names and
    /// the sockets found on disk.
    pub fn start(client: &TmuxClient, env_server: Option<TmuxServer>, discovered: &[String]) -> (res:
        LoadProgress)
        ensures
            res.wf(),
            res@.candidates == candidate_list(
                client@.server,
                client@.extra_servers,
                opt_server(env_server),
                discovered.deep_view(),
            ),
            res@.next == 0,
            res@.empty_server is None,
            res@.primary_server is None,
            res@.loaded.len() == 0,
            res@.sessions.len() == 0,
            res@.diagnostics == seq!["Candidate servers: "@ + decimal(res@.candidates.len())],
            res@.fallback == opt_first(res@.candidates),
            res@.pending is None,
    {
        let candidates = candidate_servers(
            client.server(),
            client.extra_servers().as_slice(),
            env_server,
            discovered,
        );
        let n = usize_text(candidates.len());
        let mut diagnostics: Vec<String> = Vec::new();
        let line = concat2("Candidate servers: ", n.as_str());
        diagnostics.push(line);
        let fallback = if candidates.len() > 0 {
            candidates[0].duplicate()
        } else {
            TmuxServer::Default
        };
        let res = LoadProgress {
            candidates,
            next: 0,
            empty_server: None,
            primary_server: None,
            loaded: Vec::new(),
            sessions: Vec::new(),
            diagnostics,
            fallback,
            pending: None,
        };
        assert(res@.loaded =~= Seq::<Seq<char>>::empty());
        assert(res@.sessions =~= Seq::<SessionView>::empty());
        assert(res@.diagnostics =~= seq![line@]);
        res
    }

    /// The server to run `list-panes` on next (or to identify, when
    /// `needs_identity`), or `None` when every candidate is done.
    pub fn current(&self) -> (res: Option<&TmuxServer>)
        requires
            self.wf(),
        ensures
            self@.next < self@.candidates.len() ==> (res matches Some(s) && s@
                == self@.candidates[self@.next as int]),
            self@.next >= self@.candidates.len() ==> res is None,
    {
        if self.next < self.candidates.len() {
            Some(&self.candidates[self.next])
        } else {
            None
        }
    }

    /// Whether the current server waits for its identity.
    pub fn needs_identity(&self) -> (res: bool)
        ensures
            res == (self@.pending is Some),
    {
        self.pending.is_some()
    }

    fn push_diagnostic(&mut self, line: String)
        ensures
            final(self)@ == (LoadView {
                diagnostics: old(self)@.diagnostics.push(line@),
                ..old(self)@
            }),
            final(self).wf() == old(self).wf(),
    {
        let ghost before = self.diagnostics.deep_view();
        self.diagnostics.push(line);
        assert(self.diagnostics.deep_view() =~= before.push(line@));
    }

    /// Hands over what the current server's `list-panes` came to.
    pub fn record(&mut self, outcome: ServerLoad) -> (res: ProbeStep)
        requires
            old(self).wf(),
            old(self)@.next < old(self)@.candidates.len(),
            old(self)@.pending is None,
        ensures
            final(self).wf(),
            ({
                let pre = old(self)@;
                let post = final(self)@;
                let server = pre.candidates[pre.next as int];
                let label = server_label(server);
                match outcome {
                    ServerLoad::Unavailable => res == ProbeStep::Continue && post == (LoadView {
                        next: pre.next + 1,
                        diagnostics: pre.diagnostics.push(label + ": unavailable"@),
                        ..pre
                    }),
                    ServerLoad::Failed { not_found, message } => if not_found {
                        res matches ProbeStep::Abort(m) && m@
                            == "tmux executable was not found in PATH"@ && post == pre
                    } else {
                        res matches ProbeStep::Abort(m) && m@ == message@ && post == (LoadView {
                            diagnostics: pre.diagnostics.push(label + ": error: "@ + message@),
                            ..pre
                        })
                    },
                    ServerLoad::State(st) => if st@.sessions.len() == 0 {
                        res == ProbeStep::Continue && post == (LoadView {
                            next: pre.next + 1,
                            diagnostics: pre.diagnostics.push(label + ": empty"@),
                            empty_server: or_insert(pre.empty_server, server),
                            ..pre
                        })
                    } else {
                        res == ProbeStep::Identify && post == (LoadView {
                            pending: Some(st@.sessions),
                            ..pre
                        })
                    },
                }
            }),
    {
        let label = self.candidates[self.next].label();
        match outcome {
            ServerLoad::Unavailable => {
                self.push_diagnostic(concat2(label.as_str(), ": unavailable"));
                self.next = self.next + 1;
                ProbeStep::Continue
            },
            ServerLoad::Failed { not_found, message } => {
                if not_found {
                    return ProbeStep::Abort("tmux executable was not found in PATH".to_string());
                }
                self.push_diagnostic(concat3(label.as_str(), ": error: ", message.as_str()));
                ProbeStep::Abort(message)
            },
            ServerLoad::State(st) => {
                if st.sessions.len() == 0 {
                    self.push_diagnostic(concat2(label.as_str(), ": empty"));
                    if self.empty_server.is_none() {
                        self.empty_server = Some(self.candidates[self.next].duplicate());
                    }
                    self.next = self.next + 1;
                    ProbeStep::Continue
                } else {
                    self.pending = Some(st.sessions);
                    ProbeStep::Identify
                }
            },
        }
    }

    /// Hands over the identity of the current server, whose sessions are kept
    /// unless a server of the same identity was loaded before.
    pub fn record_identity(&mut self, identity: &str)
        requires
            old(self).wf(),
            old(self)@.next < old(self)@.candidates.len(),
            old(self)@.pending is Some,
        ensures
            final(self).wf(),
            final(self)@ == identified(old(self)@, identity@),
    {
        let label = self.candidates[self.next].label();
        let pending = self.pending.take();
        let mut ss = match pending {
            Some(v) => v,
            None => Vec::new(),
        };
        let ghost ssv = ss.deep_view();
        let ghost lv = self.loaded.deep_view();
        let id = identity.to_string();
        let mut i: usize = 0;
        let mut seen = false;
        while i < self.loaded.len()
            invariant
                i <= self.loaded.len(),
                lv == self.loaded.deep_view(),
                id@ == identity@,
                seen ==> lv.contains(identity@),
                !seen ==> forall|j: int| 0 <= j < i ==> lv[j] != identity@,
            decreases self.loaded.len() - i,
        {
            if self.loaded[i].eq(&id) {
                assert(lv[i as int] == identity@);
                seen = true;
            }
            i += 1;
        }
        if seen {
            self.push_diagnostic(concat2(label.as_str(), ": duplicate"));
        } else {
            assert(!lv.contains(identity@));
            let ghost before = self.loaded.deep_view();
            self.loaded.push(identity.to_string());
            assert(self.loaded.deep_view() =~= before.push(identity@));
            let count = usize_text(ss.len());
            let mut line = concat3(label.as_str(), ": loaded ", count.as_str());
            line.append(" sessions");
            self.push_diagnostic(line);
            if self.primary_server.is_none() {
                self.primary_server = Some(self.candidates[self.next].duplicate());
            }
            let ghost before_s = self.sessions.deep_view();
            self.sessions.append(&mut ss);
            assert(self.sessions.deep_view() =~= before_s + ssv);
        }
        self.next = self.next + 1;
    }

    /// Whether every candidate is done.
    pub fn finished(&self) -> (res: bool)
        requires
            self.wf(),
        ensures
            res == (self@.next >= self@.candidates.len() && self@.pending is None),
    {
        self.next >= self.candidates.len() && self.pending.is_none()
    }

    /// The diagnostics so far.
    pub fn diagnostics(&self) -> (res: &Vec<String>)
        ensures
            res.deep_view() == self@.diagnostics,
    {
        &self.diagnostics
    }
}

/// The state for a load in which no server answered.
pub fn unreachable_state(diagnostics: Vec<String>, tmux_running: bool) -> (res: TmuxState)
    ensures
        res@.sessions.len() == 0,
        res@.notice == Some(unreachable_text(tmux_running)),
        res@.diagnostics == diagnostics.deep_view(),
{
    let res = TmuxState {
        sessions: Vec::new(),
        notice: Some(unreachable_server_notice(tmux_running)),
        diagnostics,
    };
    assert(res@.sessions =~= Seq::<SessionView>::empty());
    res
}

/// The diagnostics of a finished load: those collected, then whether tmux
/// processes run.
pub open spec fn final_diagnostics(p: LoadView, tmux_running: bool) -> Seq<Seq<char>> {
    p.diagnostics.push("tmux process running: "@ + bool_text(tmux_running))
}

/// How a finished load ends: with sessions, they are shown in order and the
/// first server that had some becomes current; with none, the first server
/// that answered empty becomes current and a notice says so; with no server
/// at all, the first candidate becomes current.
pub open spec fn load_settled(
    before: ClientView,
    after: ClientView,
    p: LoadView,
    tmux_running: bool,
    res: LoadOutcome,
) -> bool {
    let diags = final_diagnostics(p, tmux_running);
    if p.sessions.len() > 0 {
        after == (ClientView {
            server: match p.primary_server {
                Some(s) => s,
                None => ServerView::Default,
            },
            ..before
        }) && (res matches LoadOutcome::Sessions(st) && st@ == (StateView {
            sessions: sorted_sessions(p.sessions),
            notice: None,
            diagnostics: diags,
        }))
    } else if p.empty_server is Some {
        after == (ClientView { server: p.empty_server->Some_0, ..before }) && (res matches LoadOutcome::NoSessions(st)
            && st@ == (StateView {
            sessions: seq![],
            notice: Some("No tmux sessions found. Press n to create a session."@),
            diagnostics: diags,
        }))
    } else {
        after == (ClientView { server: p.fallback, ..before }) && (res matches LoadOutcome::Unreachable(d)
            && d.deep_view() == diags)
    }
}

impl TmuxClient {
    /// The end of a load (see `load_settled`).
    pub fn load(&mut self, progress: LoadProgress, tmux_running: bool) -> (res: LoadOutcome)
        requires
            progress.wf(),
            progress@.next >= progress@.candidates.len(),
            progress@.pending is None,
        ensures
            load_settled(old(self)@, final(self)@, progress@, tmux_running, res),
    {
        let ghost p = progress@;
        let LoadProgress {
            candidates: _,
            next: _,
            empty_server,
            primary_server,
            loaded: _,
            sessions,
            mut diagnostics,
            fallback,
            pending: _,
        } = progress;
        assert(sessions.deep_view() == p.sessions);
        assert(diagnostics.deep_view() == p.diagnostics);
        let flag = bool_string(tmux_running);
        let line = concat2("tmux process running: ", flag.as_str());
        let ghost before = diagnostics.deep_view();
        diagnostics.push(line);
        assert(diagnostics.deep_view() =~= before.push(line@));
        if sessions.len() > 0 {
            let server = match primary_server {
                Some(s) => s,
                None => TmuxServer::Default,
            };
            self.set_server(server);
            let sorted = sort_sessions(sessions);
            return LoadOutcome::Sessions(
                TmuxState { sessions: sorted, notice: None, diagnostics },
            );
        }
        match empty_server {
            Some(server) => {
                self.set_server(server);
                let st = TmuxState {
                    sessions: Vec::new(),
                    notice: Some(
                        "No tmux sessions found. Press n to create a session.".to_string(),
                    ),
                    diagnostics,
                };
                assert(st@.sessions =~= Seq::<SessionView>::empty());
                LoadOutcome::NoSessions(st)
            },
            None => {
                self.set_server(fallback);
                LoadOutcome::Unreachable(diagnostics)
            },
        }
    }
}

} // verus!
