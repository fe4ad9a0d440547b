//! The tmux data model (servers, sessions, windows, panes, targets) and the
//! tmux command lines that the client runs.
use vstd::prelude::*;
use vstd::string::StringExecFns;

use crate::text::{
    ascii_lower_all, ascii_lowercase, chars_string, concat2, concat3, copy_string, has_infix,
    blank_chars, lemma_split_nonempty, lemma_trim_end_blank, lines, lines_chars, push_char,
    push_chars, trim_end_chars, same_text, split, split_chars, str_chars, str_contains, trim,
    trim_end, trim_string,
};
use vstd::string::StrSliceExecFns;

verus! {

// ---------------------------------------------------------------------------
// Servers
// ---------------------------------------------------------------------------

/// A tmux server: the default one, one named with `-L`, or one reached
/// through a socket path with `-S`.
#[derive(Clone, Debug, PartialEq, Eq)]
pub enum TmuxServer {
    Default,
    Name(String),
    Socket(String),
}

/// The mathematical value of a server.
pub enum ServerView {
    Default,
    Name(Seq<char>),
    Socket(Seq<char>),
}

impl View for TmuxServer {
    type V = ServerView;

    open spec fn view(&self) -> ServerView {
        match self {
            TmuxServer::Default => ServerView::Default,
            TmuxServer::Name(n) => ServerView::Name(n@),
            TmuxServer::Socket(p) => ServerView::Socket(p@),
        }
    }
}

impl DeepView for TmuxServer {
    type V = ServerView;

    open spec fn deep_view(&self) -> ServerView {
        self@
    }
}

/// How a server is shown: `default`, `-L name` or `-S path`.
pub open spec fn server_label(s: ServerView) -> Seq<char> {
    match s {
        ServerView::Default => "default"@,
        ServerView::Name(n) => "-L "@ + n,
        ServerView::Socket(p) => "-S "@ + p,
    }
}

/// The server named by the value of `$TMUX`: its socket path is the part
/// before the first comma, and an empty path names none.
pub open spec fn server_from_tmux_value(value: Seq<char>) -> Option<ServerView> {
    let socket = split(value, ',')[0];
    if socket.len() == 0 {
        None
    } else {
        Some(ServerView::Socket(socket))
    }
}

impl TmuxServer {
    /// The server that `$TMUX` (given as `value`, `None` when unset) points at.
    pub fn from_tmux_env(value: Option<&str>) -> (res: Option<Self>)
        ensures
            match value {
                None => res is None,
                Some(v) => match res {
                    Some(s) => server_from_tmux_value(v@) == Some(s@),
                    None => server_from_tmux_value(v@) is None,
                },
            },
    {
        match value {
            None => None,
            Some(v) => {
                let chars = str_chars(v);
                let pieces = split_chars(chars.as_slice(), ',');
                proof {
                    lemma_split_nonempty(chars@, ',');
                    assert(pieces.deep_view()[0] == pieces[0].deep_view());
                    assert(pieces[0].deep_view() =~= pieces[0]@);
                }
                let socket = &pieces[0];
                if socket.len() == 0 {
                    None
                } else {
                    Some(TmuxServer::Socket(chars_string(socket.as_slice())))
                }
            },
        }
    }

    /// How the server is shown in details and diagnostics.
    pub fn label(&self) -> (res: String)
        ensures
            res@ == server_label(self@),
    {
        match self {
            TmuxServer::Default => "default".to_string(),
            TmuxServer::Name(name) => concat2("-L ", name.as_str()),
            TmuxServer::Socket(socket) => concat2("-S ", socket.as_str()),
        }
    }

    /// Whether two servers are the same.
    pub fn is_same(&self, other: &TmuxServer) -> (res: bool)
        ensures
            res == (self@ == other@),
    {
        match (self, other) {
            (TmuxServer::Default, TmuxServer::Default) => true,
            (TmuxServer::Name(a), TmuxServer::Name(b)) => same_text(a, b),
            (TmuxServer::Socket(a), TmuxServer::Socket(b)) => same_text(a, b),
            _ => false,
        }
    }

    /// A copy of this server.
    pub fn duplicate(&self) -> (res: TmuxServer)
        ensures
            res@ == self@,
    {
        match self {
            TmuxServer::Default => TmuxServer::Default,
            TmuxServer::Name(n) => TmuxServer::Name(copy_string(n)),
            TmuxServer::Socket(p) => TmuxServer::Socket(copy_string(p)),
        }
    }

    pub fn is_default(&self) -> (res: bool)
        ensures
            res == (self@ == ServerView::Default),
    {
        match self {
            TmuxServer::Default => true,
            _ => false,
        }
    }
}

impl Default for TmuxServer {
    fn default() -> (res: Self)
        ensures
            res@ == ServerView::Default,
    {
        TmuxServer::Default
    }
}

// ---------------------------------------------------------------------------
// Sessions, windows and panes
// ---------------------------------------------------------------------------

/// What tmux reported of the servers it could reach.
#[derive(Clone, Debug, PartialEq, Eq)]
pub struct TmuxState {
    pub sessions: Vec<Session>,
    pub notice: Option<String>,
    pub diagnostics: Vec<String>,
}

#[derive(Clone, Debug, PartialEq, Eq)]
pub struct Session {
    pub server: TmuxServer,
    pub id: String,
    pub name: String,
    pub attached: bool,
    pub created: Option<i64>,
    pub window_count: Option<usize>,
    pub windows: Vec<Window>,
}

#[derive(Clone, Debug, PartialEq, Eq)]
pub struct Window {
    pub id: String,
    pub index: String,
    pub name: String,
    pub active: bool,
    pub pane_count: Option<usize>,
    pub layout: String,
    pub flags: String,
    pub panes: Vec<Pane>,
}

#[derive(Clone, Debug, PartialEq, Eq)]
pub struct Pane {
    pub id: String,
    pub index: String,
    pub active: bool,
    pub command: String,
    pub path: String,
    pub title: String,
    pub left: Option<u16>,
    pub top: Option<u16>,
    pub width: Option<u16>,
    pub height: Option<u16>,
    pub pid: String,
    pub dead: bool,
    pub in_mode: bool,
    pub content: String,
}

pub struct SessionView {
    pub server: ServerView,
    pub id: Seq<char>,
    pub name: Seq<char>,
    pub attached: bool,
    pub created: Option<i64>,
    pub window_count: Option<usize>,
    pub windows: Seq<WindowView>,
}

pub struct WindowView {
    pub id: Seq<char>,
    pub index: Seq<char>,
    pub name: Seq<char>,
    pub active: bool,
    pub pane_count: Option<usize>,
    pub layout: Seq<char>,
    pub flags: Seq<char>,
    pub panes: Seq<PaneView>,
}

pub struct PaneView {
    pub id: Seq<char>,
    pub index: Seq<char>,
    pub active: bool,
    pub command: Seq<char>,
    pub path: Seq<char>,
    pub title: Seq<char>,
    pub left: Option<u16>,
    pub top: Option<u16>,
    pub width: Option<u16>,
    pub height: Option<u16>,
    pub pid: Seq<char>,
    pub dead: bool,
    pub in_mode: bool,
    pub content: Seq<char>,
}

pub struct StateView {
    pub sessions: Seq<SessionView>,
    pub notice: Option<Seq<char>>,
    pub diagnostics: Seq<Seq<char>>,
}

impl View for Pane {
    type V = PaneView;

    open spec fn view(&self) -> PaneView {
        PaneView {
            id: self.id@,
            index: self.index@,
            active: self.active,
            command: self.command@,
            path: self.path@,
            title: self.title@,
            left: self.left,
            top: self.top,
            width: self.width,
            height: self.height,
            pid: self.pid@,
            dead: self.dead,
            in_mode: self.in_mode,
            content: self.content@,
        }
    }
}

impl DeepView for Pane {
    type V = PaneView;

    open spec fn deep_view(&self) -> PaneView {
        self@
    }
}

impl View for Window {
    type V = WindowView;

    open spec fn view(&self) -> WindowView {
        WindowView {
            id: self.id@,
            index: self.index@,
            name: self.name@,
            active: self.active,
            pane_count: self.pane_count,
            layout: self.layout@,
            flags: self.flags@,
            panes: self.panes.deep_view(),
        }
    }
}

impl DeepView for Window {
    type V = WindowView;

    open spec fn deep_view(&self) -> WindowView {
        self@
    }
}

impl View for Session {
    type V = SessionView;

    open spec fn view(&self) -> SessionView {
        SessionView {
            server: self.server@,
            id: self.id@,
            name: self.name@,
            attached: self.attached,
            created: self.created,
            window_count: self.window_count,
            windows: self.windows.deep_view(),
        }
    }
}

impl DeepView for Session {
    type V = SessionView;

    open spec fn deep_view(&self) -> SessionView {
        self@
    }
}

pub open spec fn option_text(o: Option<String>) -> Option<Seq<char>> {
    match o {
        Some(s) => Some(s@),
        None => None,
    }
}

impl View for TmuxState {
    type V = StateView;

    open spec fn view(&self) -> StateView {
        StateView {
            sessions: self.sessions.deep_view(),
            notice: option_text(self.notice),
            diagnostics: self.diagnostics.deep_view(),
        }
    }
}

/// Number of windows over all sessions.
pub open spec fn window_total(ss: Seq<SessionView>) -> nat
    decreases ss.len(),
{
    if ss.len() == 0 {
        0
    } else {
        window_total(ss.drop_last()) + ss.last().windows.len()
    }
}

/// Number of panes in a sequence of windows.
pub open spec fn window_pane_total(ws: Seq<WindowView>) -> nat
    decreases ws.len(),
{
    if ws.len() == 0 {
        0
    } else {
        window_pane_total(ws.drop_last()) + ws.last().panes.len()
    }
}

/// Number of panes over all sessions.
pub open spec fn pane_total(ss: Seq<SessionView>) -> nat
    decreases ss.len(),
{
    if ss.len() == 0 {
        0
    } else {
        pane_total(ss.drop_last()) + window_pane_total(ss.last().windows)
    }
}

/// The three counts fit in a `usize`.
pub open spec fn counts_fit(ss: Seq<SessionView>) -> bool {
    window_total(ss) <= usize::MAX && pane_total(ss) <= usize::MAX
}

/// Number of sessions, windows and panes.
pub open spec fn state_counts(ss: Seq<SessionView>) -> (nat, nat, nat) {
    (ss.len(), window_total(ss), pane_total(ss))
}

impl TmuxState {
    /// An empty state with no notice and no diagnostics.
    pub fn empty() -> (res: TmuxState)
        ensures
            res@.sessions.len() == 0,
            res@.notice is None,
            res@.diagnostics.len() == 0,
    {
        let res = TmuxState { sessions: Vec::new(), notice: None, diagnostics: Vec::new() };
        assert(res@.sessions =~= Seq::<SessionView>::empty());
        assert(res@.diagnostics =~= Seq::<Seq<char>>::empty());
        res
    }

    /// Whether the window and pane counts fit in a `usize`.
    pub fn counts_fit(&self) -> (res: bool)
        ensures
            res == counts_fit(self@.sessions),
    {
        let mut windows: usize = 0;
        let mut panes: usize = 0;
        let mut i: usize = 0;
        while i < self.sessions.len()
            invariant
                i <= self.sessions.len(),
                windows == window_total(self@.sessions.take(i as int)),
                panes == pane_total(self@.sessions.take(i as int)),
                windows <= usize::MAX,
                panes <= usize::MAX,
            decreases self.sessions.len() - i,
        {
            let ghost pre = self@.sessions.take(i as int);
            let ghost next = self@.sessions.take(i + 1);
            assert(next.drop_last() == pre);
            let s = &self.sessions[i];
            assert(self@.sessions[i as int] == s@);
            let w = s.windows.len();
            match window_panes(&s.windows) {
                Some(wp) => {
                    if w > usize::MAX - windows || wp > usize::MAX - panes {
                        proof {
                            lemma_totals_monotone(self@.sessions, i + 1);
                        }
                        return false;
                    }
                    windows = windows + w;
                    panes = panes + wp;
                },
                None => {
                    proof {
                        lemma_totals_monotone(self@.sessions, i + 1);
                    }
                    return false;
                },
            }
            i += 1;
        }
        assert(self@.sessions.take(self.sessions.len() as int) == self@.sessions);
        true
    }

    /// Number of sessions, windows and panes.
    pub fn counts(&self) -> (res: (usize, usize, usize))
        requires
            counts_fit(self@.sessions),
        ensures
            res.0 == state_counts(self@.sessions).0,
            res.1 == state_counts(self@.sessions).1,
            res.2 == state_counts(self@.sessions).2,
    {
        let mut windows: usize = 0;
        let mut panes: usize = 0;
        let mut i: usize = 0;
        while i < self.sessions.len()
            invariant
                i <= self.sessions.len(),
                counts_fit(self@.sessions),
                windows == window_total(self@.sessions.take(i as int)),
                panes == pane_total(self@.sessions.take(i as int)),
            decreases self.sessions.len() - i,
        {
            let ghost next = self@.sessions.take(i + 1);
            assert(next.drop_last() == self@.sessions.take(i as int));
            proof {
                lemma_totals_monotone(self@.sessions, i + 1);
            }
            let s = &self.sessions[i];
            assert(self@.sessions[i as int] == s@);
            let wp = match window_panes(&s.windows) {
                Some(n) => n,
                None => 0,
            };
            windows = windows + s.windows.len();
            panes = panes + wp;
            i += 1;
        }
        assert(self@.sessions.take(self.sessions.len() as int) == self@.sessions);
        (self.sessions.len(), windows, panes)
    }
}

/// Totals over a prefix are at most the totals over the whole.
pub proof fn lemma_totals_monotone(ss: Seq<SessionView>, k: int)
    requires
        0 <= k <= ss.len(),
    ensures
        window_total(ss.take(k)) <= window_total(ss),
        pane_total(ss.take(k)) <= pane_total(ss),
    decreases ss.len() - k,
{
    if k < ss.len() {
        lemma_totals_monotone(ss.drop_last(), k);
        assert(ss.drop_last().take(k) == ss.take(k));
    } else {
        assert(ss.take(k) == ss);
    }
}

/// Number of panes in some windows, or `None` when it exceeds `usize::MAX`.
fn window_panes(ws: &Vec<Window>) -> (res: Option<usize>)
    ensures
        match res {
            Some(n) => n == window_pane_total(ws.deep_view()),
            None => window_pane_total(ws.deep_view()) > usize::MAX,
        },
{
    let mut total: usize = 0;
    let mut i: usize = 0;
    while i < ws.len()
        invariant
            i <= ws.len(),
            total == window_pane_total(ws.deep_view().take(i as int)),
        decreases ws.len() - i,
    {
        let ghost next = ws.deep_view().take(i + 1);
        assert(next.drop_last() == ws.deep_view().take(i as int));
        assert(ws.deep_view()[i as int] == ws[i as int]@);
        let n = ws[i].panes.len();
        if n > usize::MAX - total {
            proof {
                lemma_window_total_monotone(ws.deep_view(), i + 1);
            }
            return None;
        }
        total = total + n;
        i += 1;
    }
    assert(ws.deep_view().take(ws.len() as int) == ws.deep_view());
    Some(total)
}

pub proof fn lemma_window_total_monotone(ws: Seq<WindowView>, k: int)
    requires
        0 <= k <= ws.len(),
    ensures
        window_pane_total(ws.take(k)) <= window_pane_total(ws),
    decreases ws.len() - k,
{
    if k < ws.len() {
        lemma_window_total_monotone(ws.drop_last(), k);
        assert(ws.drop_last().take(k) == ws.take(k));
    } else {
        assert(ws.take(k) == ws);
    }
}

// ---------------------------------------------------------------------------
// Targets
// ---------------------------------------------------------------------------

/// A session, window or pane on a given server.
#[derive(Clone, Debug, PartialEq, Eq)]
pub struct TmuxTarget {
    pub server: TmuxServer,
    pub session_id: String,
    pub window_id: Option<String>,
    pub pane_id: Option<String>,
}

pub struct TargetView {
    pub server: ServerView,
    pub session_id: Seq<char>,
    pub window_id: Option<Seq<char>>,
    pub pane_id: Option<Seq<char>>,
}

impl View for TmuxTarget {
    type V = TargetView;

    open spec fn view(&self) -> TargetView {
        TargetView {
            server: self.server@,
            session_id: self.session_id@,
            window_id: option_text(self.window_id),
            pane_id: option_text(self.pane_id),
        }
    }
}

/// The id a target is shown by: the pane's, else the window's, else the
/// session's.
pub open spec fn target_display(t: TargetView) -> Seq<char> {
    match (t.window_id, t.pane_id) {
        (_, Some(p)) => p,
        (Some(w), None) => w,
        (None, None) => t.session_id,
    }
}

/// `server|session`, `server|session|window` or `server|session|pane`.
pub open spec fn target_favorite_key(t: TargetView) -> Seq<char> {
    let base = server_label(t.server) + "|"@ + t.session_id;
    match (t.window_id, t.pane_id) {
        (_, Some(p)) => base + "|"@ + p,
        (Some(w), None) => base + "|"@ + w,
        (None, None) => base,
    }
}

pub fn copy_option_string(o: &Option<String>) -> (res: Option<String>)
    ensures
        option_text(res) == option_text(*o),
{
    match o {
        Some(s) => Some(copy_string(s)),
        None => None,
    }
}

impl TmuxTarget {
    /// A whole session.
    pub fn session_on(session_id: String, server: TmuxServer) -> (res: Self)
        ensures
            res@ == (TargetView {
                server: server@,
                session_id: session_id@,
                window_id: None,
                pane_id: None,
            }),
    {
        TmuxTarget { server, session_id, window_id: None, pane_id: None }
    }

    /// A window of a session.
    pub fn window_on(session_id: String, window_id: String, server: TmuxServer) -> (res: Self)
        ensures
            res@ == (TargetView {
                server: server@,
                session_id: session_id@,
                window_id: Some(window_id@),
                pane_id: None,
            }),
    {
        TmuxTarget { server, session_id, window_id: Some(window_id), pane_id: None }
    }

    /// A pane of a window of a session.
    pub fn pane_on(session_id: String, window_id: String, pane_id: String, server: TmuxServer) -> (res:
        Self)
        ensures
            res@ == (TargetView {
                server: server@,
                session_id: session_id@,
                window_id: Some(window_id@),
                pane_id: Some(pane_id@),
            }),
    {
        TmuxTarget { server, session_id, window_id: Some(window_id), pane_id: Some(pane_id) }
    }

    /// The id this target is shown by.
    pub fn display(&self) -> (res: String)
        ensures
            res@ == target_display(self@),
    {
        match (&self.window_id, &self.pane_id) {
            (_, Some(pane_id)) => copy_string(pane_id),
            (Some(window_id), None) => copy_string(window_id),
            (None, None) => copy_string(&self.session_id),
        }
    }

    /// The label of the target's server.
    pub fn server_label(&self) -> (res: String)
        ensures
            res@ == server_label(self@.server),
    {
        self.server.label()
    }

    /// The key under which the target is kept among favorites.
    pub fn favorite_key(&self) -> (res: String)
        ensures
            res@ == target_favorite_key(self@),
    {
        let server = self.server.label();
        let mut key = concat3(server.as_str(), "|", self.session_id.as_str());
        match (&self.window_id, &self.pane_id) {
            (_, Some(pane_id)) => {
                key.append("|");
                key.append(pane_id.as_str());
            },
            (Some(window_id), None) => {
                key.append("|");
                key.append(window_id.as_str());
            },
            (None, None) => {},
        }
        key
    }

    /// The target's server.
    pub fn server(&self) -> (res: &TmuxServer)
        ensures
            res@ == self@.server,
    {
        &self.server
    }

    /// A copy of this target.
    pub fn duplicate(&self) -> (res: TmuxTarget)
        ensures
            res@ == self@,
    {
        TmuxTarget {
            server: self.server.duplicate(),
            session_id: copy_string(&self.session_id),
            window_id: copy_option_string(&self.window_id),
            pane_id: copy_option_string(&self.pane_id),
        }
    }
}

// ---------------------------------------------------------------------------
// Commands
// ---------------------------------------------------------------------------

/// Which way a pane is split: side by side (`-h`) or stacked (`-v`).
#[derive(Clone, Copy, Debug, PartialEq, Eq, Structural)]
pub enum SplitDirection {
    Horizontal,
    Vertical,
}

/// One run of `tmux` against a server: the arguments after the server
/// selection flags.
#[derive(Clone, Debug, PartialEq, Eq)]
pub struct TmuxCommand {
    pub server: TmuxServer,
    pub args: Vec<String>,
}

pub struct CommandView {
    pub server: ServerView,
    pub args: Seq<Seq<char>>,
}

impl View for TmuxCommand {
    type V = CommandView;

    open spec fn view(&self) -> CommandView {
        CommandView { server: self.server@, args: self.args.deep_view() }
    }
}

/// The full argument list of `tmux` for a server: `-L name` or `-S path` in
/// front of the command's own arguments, nothing for the default server.
pub open spec fn command_argv(server: ServerView, args: Seq<Seq<char>>) -> Seq<Seq<char>> {
    match server {
        ServerView::Default => args,
        ServerView::Name(n) => seq!["-L"@, n] + args,
        ServerView::Socket(p) => seq!["-S"@, p] + args,
    }
}

/// Appends one argument.
pub fn push_arg(v: &mut Vec<String>, s: &str)
    ensures
        final(v).deep_view() == old(v).deep_view().push(s@),
{
    let ghost before = v.deep_view();
    v.push(s.to_string());
    assert(v.deep_view() =~= before.push(s@));
}

/// Copies of some strings.
pub fn copy_strings(v: &[String]) -> (res: Vec<String>)
    ensures
        res.deep_view() == v.deep_view(),
{
    let mut res: Vec<String> = Vec::new();
    let mut i: usize = 0;
    while i < v.len()
        invariant
            i <= v.len(),
            res.deep_view() == v.deep_view().take(i as int),
        decreases v.len() - i,
    {
        push_arg(&mut res, v[i].as_str());
        assert(v.deep_view().take(i + 1) == v.deep_view().take(i as int).push(v[i as int]@));
        i += 1;
    }
    assert(v.deep_view().take(v.len() as int) == v.deep_view());
    res
}

/// The arguments of `tmux` that run `args` on `server`.
pub fn tmux_command_args(server: &TmuxServer, args: &[String]) -> (res: Vec<String>)
    ensures
        res.deep_view() == command_argv(server@, args.deep_view()),
{
    let mut res: Vec<String> = Vec::new();
    match server {
        TmuxServer::Default => {},
        TmuxServer::Name(name) => {
            push_arg(&mut res, "-L");
            push_arg(&mut res, name.as_str());
        },
        TmuxServer::Socket(socket) => {
            push_arg(&mut res, "-S");
            push_arg(&mut res, socket.as_str());
        },
    }
    let ghost prefix = res.deep_view();
    let mut i: usize = 0;
    while i < args.len()
        invariant
            i <= args.len(),
            res.deep_view() == prefix + args.deep_view().take(i as int),
        decreases args.len() - i,
    {
        push_arg(&mut res, args[i].as_str());
        assert(args.deep_view().take(i + 1) == args.deep_view().take(i as int).push(args[i as int]@));
        i += 1;
    }
    assert(args.deep_view().take(args.len() as int) == args.deep_view());
    assert(prefix + args.deep_view() =~= command_argv(server@, args.deep_view()));
    res
}

impl TmuxCommand {
    /// All arguments to give to `tmux`.
    pub fn argv(&self) -> (res: Vec<String>)
        ensures
            res.deep_view() == command_argv(self@.server, self@.args),
    {
        tmux_command_args(&self.server, self.args.as_slice())
    }

    /// Whether `$TMUX` is to be removed from the environment of the run, so
    /// that tmux reaches its default server rather than the current one.
    pub fn clears_tmux_env(&self) -> (res: bool)
        ensures
            res == (self@.server == ServerView::Default),
    {
        self.server.is_default()
    }
}

/// A command of one to six arguments.
pub open spec fn cmd(server: ServerView, args: Seq<Seq<char>>) -> CommandView {
    CommandView { server, args }
}

/// What a failed tmux run is reported by: its standard error, trimmed, or,
/// when that is empty, its standard output, trimmed.
pub open spec fn output_message(stdout: Seq<char>, stderr: Seq<char>) -> Seq<char> {
    if trim(stderr).len() != 0 {
        trim(stderr)
    } else {
        trim(stdout)
    }
}

/// The text of a finished tmux run, decoded from its output streams.
#[derive(Clone, Debug, PartialEq, Eq)]
pub struct CommandOutput {
    pub success: bool,
    pub stdout: String,
    pub stderr: String,
}

/// The message a failed run is reported by.
pub fn output_message_of(output: &CommandOutput) -> (res: String)
    ensures
        res@ == output_message(output.stdout@, output.stderr@),
{
    let stderr = trim_string(output.stderr.as_str());
    if stderr.as_str().unicode_len() != 0 {
        stderr
    } else {
        trim_string(output.stdout.as_str())
    }
}

/// The result of a plain command run: success, or `tmux command failed: ..`
/// with the output message.
pub fn command_result(output: &CommandOutput) -> (res: Result<(), String>)
    ensures
        output.success ==> res is Ok,
        !output.success ==> (res matches Err(e) && e@ == "tmux command failed: "@
            + output_message(output.stdout@, output.stderr@)),
{
    if output.success {
        Ok(())
    } else {
        let m = output_message_of(output);
        Err(concat2("tmux command failed: ", m.as_str()))
    }
}

/// Whether a failure message says that no server listens on the socket.
pub open spec fn is_no_server_text(m: Seq<char>) -> bool {
    let l = ascii_lower_all(m);
    ||| has_infix(l, "no server running"@)
    ||| has_infix(l, "failed to connect"@)
    ||| has_infix(l, "error connecting"@)
    ||| has_infix(l, "no such file or directory"@)
}

/// Whether a failure message says that no server listens on the socket.
pub fn is_no_server_message(message: &str) -> (res: bool)
    ensures
        res == is_no_server_text(message@),
{
    let l = ascii_lowercase(message);
    str_contains(l.as_str(), "no server running") || str_contains(l.as_str(), "failed to connect")
        || str_contains(l.as_str(), "error connecting") || str_contains(
        l.as_str(),
        "no such file or directory",
    )
}

/// How many lines remain once trailing lines that are empty after trimming
/// their end are dropped.
pub open spec fn kept_count(ls: Seq<Seq<char>>) -> nat
    decreases ls.len(),
{
    if ls.len() > 0 && trim_end(ls.last()).len() == 0 {
        kept_count(ls.drop_last())
    } else {
        ls.len()
    }
}

/// The kept lines, each with its trailing whitespace removed.
pub open spec fn normalized_lines(ls: Seq<Seq<char>>) -> Seq<Seq<char>> {
    ls.take(kept_count(ls) as int).map_values(|l: Seq<char>| trim_end(l))
}

/// Lines joined with `\n`.
pub open spec fn join_lines(ls: Seq<Seq<char>>) -> Seq<char>
    decreases ls.len(),
{
    if ls.len() == 0 {
        seq![]
    } else if ls.len() == 1 {
        ls[0]
    } else {
        join_lines(ls.drop_last()) + seq!['\n'] + ls.last()
    }
}

/// Captured pane text as shown: every line's trailing whitespace removed,
/// trailing empty lines dropped.
pub open spec fn normalized_capture(content: Seq<char>) -> Seq<char> {
    join_lines(normalized_lines(lines(content)))
}

pub proof fn lemma_kept_count(ls: Seq<Seq<char>>, k: int)
    requires
        0 <= k <= ls.len(),
        forall|i: int| k <= i < ls.len() ==> trim_end(#[trigger] ls[i]).len() == 0,
    ensures
        kept_count(ls) == kept_count(ls.take(k)),
        kept_count(ls) <= ls.len(),
    decreases ls.len(),
{
    if ls.len() > k {
        lemma_kept_count(ls.drop_last(), k);
        assert(ls.drop_last().take(k) == ls.take(k));
    } else {
        assert(ls.take(k) == ls);
        if ls.len() > 0 && trim_end(ls.last()).len() == 0 {
            lemma_kept_count(ls.drop_last(), ls.len() - 1);
            assert(ls.drop_last().take(ls.len() - 1) == ls.drop_last());
        }
    }
}

/// Removes trailing whitespace from each line and trailing empty lines, and
/// joins what is left with `\n`.
pub fn normalize_captured_content(content: &str) -> (res: String)
    ensures
        res@ == normalized_capture(content@),
{
    let chars = str_chars(content);
    let ls = lines_chars(chars.as_slice());
    let ghost lv = ls.deep_view();
    let mut k: usize = ls.len();
    while k > 0 && blank_chars(ls[k - 1].as_slice())
        invariant
            k <= ls.len(),
            lv == ls.deep_view(),
            forall|i: int| k <= i < lv.len() ==> trim_end(#[trigger] lv[i]).len() == 0,
        decreases k,
    {
        proof {
            assert(lv[k - 1] == ls[k - 1]@) by {
                assert(ls[k - 1].deep_view() =~= ls[k - 1]@);
            }
            lemma_trim_end_blank(lv[k - 1]);
        }
        k -= 1;
    }
    proof {
        lemma_kept_count(lv, k as int);
        if k > 0 {
            assert(lv[k - 1] == ls[k - 1]@) by {
                assert(ls[k - 1].deep_view() =~= ls[k - 1]@);
            }
            lemma_trim_end_blank(lv[k - 1]);
            assert(lv.take(k as int).last() == lv[k - 1]);
        }
        assert(kept_count(lv.take(k as int)) == k);
    }
    let ghost kept = lv.take(k as int).map_values(|l: Seq<char>| trim_end(l));
    let mut out = String::new();
    let mut i: usize = 0;
    while i < k
        invariant
            i <= k <= ls.len(),
            lv == ls.deep_view(),
            kept == lv.take(k as int).map_values(|l: Seq<char>| trim_end(l)),
            out@ == join_lines(kept.take(i as int)),
        decreases k - i,
    {
        let t = trim_end_chars(ls[i].as_slice());
        proof {
            assert(lv[i as int] == ls[i as int]@) by {
                assert(ls[i as int].deep_view() =~= ls[i as int]@);
            }
            assert(kept.take(i + 1).drop_last() == kept.take(i as int));
            assert(kept.take(i + 1).last() == t@);
        }
        if i > 0 {
            push_char(&mut out, '\n');
        } else {
            assert(kept.take(i as int) =~= Seq::<Seq<char>>::empty());
        }
        push_chars(&mut out, t.as_slice());
        i += 1;
    }
    assert(kept.take(k as int) == kept);
    out
}

} // verus!
