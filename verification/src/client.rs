//! The tmux client: which servers it scans, and the command lines behind each
//! action on a session, window or pane.
use vstd::prelude::*;
use vstd::string::StringExecFns;

use crate::text::{
    concat2, copy_string, is_blank, is_blank_str, split, split_chars, str_chars, trim, trim_chars,
    chars_string, lemma_chars_deep_view,
};
use crate::tmux::{
    cmd, copy_strings, push_arg, CommandOutput, CommandView, ServerView, SplitDirection, TargetView,
    TmuxCommand, TmuxServer, TmuxTarget, normalized_capture, normalize_captured_content,
    output_message, output_message_of,
};

verus! {

broadcast use lemma_chars_deep_view;

// ---------------------------------------------------------------------------
// Options
// ---------------------------------------------------------------------------

/// Servers and directories to scan besides the usual places.
#[derive(Clone, Debug, PartialEq, Eq)]
pub struct TmuxClientOptions {
    pub socket_paths: Vec<String>,
    pub socket_names: Vec<String>,
    pub socket_dirs: Vec<String>,
}

/// The paths in a `PATH`-like variable (Unix: separated by `:`).
pub open spec fn env_path_list(value: Option<Seq<char>>) -> Seq<Seq<char>> {
    match value {
        None => seq![],
        Some(v) => split(v, ':'),
    }
}

/// The trimmed, non-empty pieces of a list.
pub open spec fn trimmed_nonempty(xs: Seq<Seq<char>>) -> Seq<Seq<char>>
    decreases xs.len(),
{
    if xs.len() == 0 {
        seq![]
    } else {
        let rest = trimmed_nonempty(xs.drop_last());
        if trim(xs.last()).len() == 0 {
            rest
        } else {
            rest.push(trim(xs.last()))
        }
    }
}

/// The values in a comma-separated variable, trimmed, empty ones dropped.
pub open spec fn env_value_list(value: Option<Seq<char>>) -> Seq<Seq<char>> {
    match value {
        None => seq![],
        Some(v) => trimmed_nonempty(split(v, ',')),
    }
}

pub open spec fn option_chars(o: Option<&str>) -> Option<Seq<char>> {
    match o {
        Some(s) => Some(s@),
        None => None,
    }
}

fn env_paths(value: Option<&str>) -> (res: Vec<String>)
    ensures
        res.deep_view() == env_path_list(option_chars(value)),
{
    match value {
        None => {
            let res: Vec<String> = Vec::new();
            assert(res.deep_view() =~= Seq::<Seq<char>>::empty());
            res
        },
        Some(v) => {
            let chars = str_chars(v);
            let pieces = split_chars(chars.as_slice(), ':');
            let mut res: Vec<String> = Vec::new();
            let mut i: usize = 0;
            while i < pieces.len()
                invariant
                    i <= pieces.len(),
                    res.deep_view() == pieces.deep_view().take(i as int),
                decreases pieces.len() - i,
            {
                let ghost before = res.deep_view();
                let s = chars_string(pieces[i].as_slice());
                assert(pieces.deep_view()[i as int] == pieces[i as int]@);
                assert(pieces.deep_view().take(i + 1) =~= pieces.deep_view().take(i as int).push(
                    pieces[i as int]@,
                ));
                res.push(s);
                assert(res.deep_view() =~= before.push(s@));
                assert(res.deep_view() =~= pieces.deep_view().take(i + 1));
                i += 1;
            }
            assert(pieces.deep_view().take(pieces.len() as int) == pieces.deep_view());
            res
        },
    }
}

fn env_values(value: Option<&str>) -> (res: Vec<String>)
    ensures
        res.deep_view() == env_value_list(option_chars(value)),
{
    match value {
        None => {
            let res: Vec<String> = Vec::new();
            assert(res.deep_view() =~= Seq::<Seq<char>>::empty());
            res
        },
        Some(v) => {
            let chars = str_chars(v);
            let pieces = split_chars(chars.as_slice(), ',');
            let ghost pv = pieces.deep_view();
            let mut res: Vec<String> = Vec::new();
            let mut i: usize = 0;
            assert(res.deep_view() =~= Seq::<Seq<char>>::empty());
            assert(pv.take(0) =~= Seq::<Seq<char>>::empty());
            while i < pieces.len()
                invariant
                    i <= pieces.len(),
                    pv == pieces.deep_view(),
                    res.deep_view() == trimmed_nonempty(pv.take(i as int)),
                decreases pieces.len() - i,
            {
                let t = trim_chars(pieces[i].as_slice());
                assert(pv.take(i + 1).drop_last() == pv.take(i as int));
                assert(pv.take(i + 1).last() == pieces[i as int]@);
                if t.len() > 0 {
                    let ghost before = res.deep_view();
                    let s = chars_string(t.as_slice());
                    res.push(s);
                    assert(res.deep_view() =~= before.push(t@));
                }
                i += 1;
            }
            assert(pv.take(pieces.len() as int) == pv);
            res
        },
    }
}

impl TmuxClientOptions {
    /// No extra servers or directories.
    pub fn empty() -> (res: Self)
        ensures
            res.socket_paths.deep_view().len() == 0,
            res.socket_names.deep_view().len() == 0,
            res.socket_dirs.deep_view().len() == 0,
    {
        TmuxClientOptions {
            socket_paths: Vec::new(),
            socket_names: Vec::new(),
            socket_dirs: Vec::new(),
        }
    }

    /// The options that the environment asks for: socket paths from
    /// `LAZYTMUX_SOCKET` and `LAZYTMUX_SOCKETS` (path lists), socket names from
    /// `LAZYTMUX_SOCKET_NAME` and `LAZYTMUX_SOCKET_NAMES` (comma-separated),
    /// directories from `LAZYTMUX_SOCKET_DIR` and `LAZYTMUX_SOCKET_DIRS`
    /// (path lists). Each argument is the variable's value, `None` when unset.
    pub fn from_env(
        socket: Option<&str>,
        sockets: Option<&str>,
        socket_name: Option<&str>,
        socket_names: Option<&str>,
        socket_dir: Option<&str>,
        socket_dirs: Option<&str>,
    ) -> (res: Self)
        ensures
            res.socket_paths.deep_view() == env_path_list(option_chars(socket)) + env_path_list(
                option_chars(sockets),
            ),
            res.socket_names.deep_view() == env_value_list(option_chars(socket_name))
                + env_value_list(option_chars(socket_names)),
            res.socket_dirs.deep_view() == env_path_list(option_chars(socket_dir)) + env_path_list(
                option_chars(socket_dirs),
            ),
    {
        let mut paths = env_paths(socket);
        let mut more_paths = env_paths(sockets);
        let ghost a = paths.deep_view();
        let ghost b = more_paths.deep_view();
        paths.append(&mut more_paths);
        assert(paths.deep_view() =~= a + b);
        let mut names = env_values(socket_name);
        let mut more_names = env_values(socket_names);
        let ghost c = names.deep_view();
        let ghost d = more_names.deep_view();
        names.append(&mut more_names);
        assert(names.deep_view() =~= c + d);
        let mut dirs = env_paths(socket_dir);
        let mut more_dirs = env_paths(socket_dirs);
        let ghost e = dirs.deep_view();
        let ghost f = more_dirs.deep_view();
        dirs.append(&mut more_dirs);
        assert(dirs.deep_view() =~= e + f);
        TmuxClientOptions { socket_paths: paths, socket_names: names, socket_dirs: dirs }
    }
}

// ---------------------------------------------------------------------------
// Server lists
// ---------------------------------------------------------------------------

/// `x` added at the end unless it is already there.
pub open spec fn push_unique(s: Seq<ServerView>, x: ServerView) -> Seq<ServerView> {
    if s.contains(x) {
        s
    } else {
        s.push(x)
    }
}

/// Each of `xs` added in turn with `push_unique`.
pub open spec fn push_all_unique(s: Seq<ServerView>, xs: Seq<ServerView>) -> Seq<ServerView>
    decreases xs.len(),
{
    if xs.len() == 0 {
        s
    } else {
        push_unique(push_all_unique(s, xs.drop_last()), xs.last())
    }
}

pub open spec fn socket_servers(paths: Seq<Seq<char>>) -> Seq<ServerView> {
    paths.map_values(|p: Seq<char>| ServerView::Socket(p))
}

/// `-L` servers for the names that are not blank, trimmed.
pub open spec fn named_servers(names: Seq<Seq<char>>) -> Seq<ServerView>
    decreases names.len(),
{
    if names.len() == 0 {
        seq![]
    } else {
        let rest = named_servers(names.drop_last());
        if trim(names.last()).len() == 0 {
            rest
        } else {
            rest.push(ServerView::Name(trim(names.last())))
        }
    }
}

/// The explicitly requested servers: socket paths first, then names, each
/// once.
pub open spec fn explicit_servers(paths: Seq<Seq<char>>, names: Seq<Seq<char>>) -> Seq<
    ServerView,
> {
    push_all_unique(push_all_unique(seq![], socket_servers(paths)), named_servers(names))
}

/// The servers a load tries, in order: the explicit ones, the active one
/// when it is not the default, the one `$TMUX` points at, the default one,
/// then the discovered sockets; each once.
pub open spec fn candidate_list(
    active: ServerView,
    extra: Seq<ServerView>,
    env_server: Option<ServerView>,
    discovered: Seq<Seq<char>>,
) -> Seq<ServerView> {
    let s0 = push_all_unique(seq![], extra);
    let s1 = if active != ServerView::Default {
        push_unique(s0, active)
    } else {
        s0
    };
    let s2 = match env_server {
        Some(e) => push_unique(s1, e),
        None => s1,
    };
    let s3 = push_unique(s2, ServerView::Default);
    push_all_unique(s3, socket_servers(discovered))
}

/// Adds a server unless the list already holds it.
pub fn push_unique_server(servers: &mut Vec<TmuxServer>, server: TmuxServer)
    ensures
        final(servers).deep_view() == push_unique(old(servers).deep_view(), server@),
{
    let ghost sv = servers.deep_view();
    let mut i: usize = 0;
    while i < servers.len()
        invariant
            i <= servers.len(),
            sv == servers.deep_view(),
            forall|j: int| 0 <= j < i ==> sv[j] != server@,
        decreases servers.len() - i,
    {
        if servers[i].is_same(&server) {
            assert(sv[i as int] == server@);
            assert(sv.contains(server@));
            return;
        }
        i += 1;
    }
    assert(!sv.contains(server@));
    servers.push(server);
    assert(servers.deep_view() =~= sv.push(server@));
}

pub proof fn lemma_push_all_unique_step(s: Seq<ServerView>, xs: Seq<ServerView>, i: int)
    requires
        0 <= i < xs.len(),
    ensures
        push_all_unique(s, xs.take(i + 1)) == push_unique(push_all_unique(s, xs.take(i)), xs[i]),
{
    assert(xs.take(i + 1).drop_last() == xs.take(i));
}

fn push_all_servers(servers: &mut Vec<TmuxServer>, xs: &[TmuxServer])
    ensures
        final(servers).deep_view() == push_all_unique(old(servers).deep_view(), xs.deep_view()),
{
    let ghost start = servers.deep_view();
    let mut i: usize = 0;
    assert(xs.deep_view().take(0) =~= Seq::<ServerView>::empty());
    while i < xs.len()
        invariant
            i <= xs.len(),
            servers.deep_view() == push_all_unique(start, xs.deep_view().take(i as int)),
        decreases xs.len() - i,
    {
        proof {
            lemma_push_all_unique_step(start, xs.deep_view(), i as int);
        }
        push_unique_server(servers, xs[i].duplicate());
        i += 1;
    }
    assert(xs.deep_view().take(xs.len() as int) == xs.deep_view());
}

fn push_all_sockets(servers: &mut Vec<TmuxServer>, paths: &[String])
    ensures
        final(servers).deep_view() == push_all_unique(
            old(servers).deep_view(),
            socket_servers(paths.deep_view()),
        ),
{
    let ghost start = servers.deep_view();
    let ghost xs = socket_servers(paths.deep_view());
    let mut i: usize = 0;
    assert(xs.take(0) =~= Seq::<ServerView>::empty());
    while i < paths.len()
        invariant
            i <= paths.len(),
            xs == socket_servers(paths.deep_view()),
            servers.deep_view() == push_all_unique(start, xs.take(i as int)),
        decreases paths.len() - i,
    {
        proof {
            lemma_push_all_unique_step(start, xs, i as int);
        }
        push_unique_server(servers, TmuxServer::Socket(copy_string(&paths[i])));
        i += 1;
    }
    assert(xs.take(paths.len() as int) == xs);
}

/// The servers a load tries, in order.
pub fn candidate_servers(
    active: &TmuxServer,
    extra_servers: &[TmuxServer],
    env_server: Option<TmuxServer>,
    discovered_sockets: &[String],
) -> (res: Vec<TmuxServer>)
    ensures
        res.deep_view() == candidate_list(
            active@,
            extra_servers.deep_view(),
            match env_server {
                Some(e) => Some(e@),
                None => None,
            },
            discovered_sockets.deep_view(),
        ),
{
    let mut servers: Vec<TmuxServer> = Vec::new();
    assert(servers.deep_view() =~= Seq::<ServerView>::empty());
    push_all_servers(&mut servers, extra_servers);
    if !active.is_default() {
        push_unique_server(&mut servers, active.duplicate());
    }
    match env_server {
        Some(server) => push_unique_server(&mut servers, server),
        None => {},
    }
    push_unique_server(&mut servers, TmuxServer::Default);
    push_all_sockets(&mut servers, discovered_sockets);
    servers
}

// ---------------------------------------------------------------------------
// The client
// ---------------------------------------------------------------------------

/// The client: the server actions go to by default, the explicitly requested
/// servers, and the extra directories to look for sockets in.
#[derive(Clone, Debug, PartialEq, Eq)]
pub struct TmuxClient {
    server: TmuxServer,
    extra_servers: Vec<TmuxServer>,
    socket_dirs: Vec<String>,
}

pub struct ClientView {
    pub server: ServerView,
    pub extra_servers: Seq<ServerView>,
    pub socket_dirs: Seq<Seq<char>>,
}

impl View for TmuxClient {
    type V = ClientView;

    closed spec fn view(&self) -> ClientView {
        ClientView {
            server: self.server@,
            extra_servers: self.extra_servers.deep_view(),
            socket_dirs: self.socket_dirs.deep_view(),
        }
    }
}

/// Why an action has no command: its target lacks the window or pane it acts
/// on.
#[derive(Clone, Copy, Debug, PartialEq, Eq, Structural)]
pub enum TargetError {
    MissingWindow,
    MissingPane,
}

pub open spec fn target_error_text(e: TargetError) -> Seq<char> {
    match e {
        TargetError::MissingWindow => "tmux window target is missing"@,
        TargetError::MissingPane => "tmux pane target is missing"@,
    }
}

impl TargetError {
    pub fn message(&self) -> (res: String)
        ensures
            res@ == target_error_text(*self),
    {
        match self {
            TargetError::MissingWindow => "tmux window target is missing".to_string(),
            TargetError::MissingPane => "tmux pane target is missing".to_string(),
        }
    }
}

/// A command on the target's server.
pub open spec fn on_target(t: TargetView, args: Seq<Seq<char>>) -> CommandView {
    cmd(t.server, args)
}

/// A command on the target's pane, or the error for a target without one.
pub open spec fn pane_command(t: TargetView, args: spec_fn(Seq<char>) -> Seq<Seq<char>>) -> Result<
    CommandView,
    TargetError,
> {
    match t.pane_id {
        Some(p) => Ok(on_target(t, args(p))),
        None => Err(TargetError::MissingPane),
    }
}

/// A command on the target's window, or the error for a target without one.
pub open spec fn window_command(
    t: TargetView,
    args: spec_fn(Seq<char>) -> Seq<Seq<char>>,
) -> Result<CommandView, TargetError> {
    match t.window_id {
        Some(w) => Ok(on_target(t, args(w))),
        None => Err(TargetError::MissingWindow),
    }
}

pub open spec fn command_view_result(r: Result<TmuxCommand, TargetError>) -> Result<
    CommandView,
    TargetError,
> {
    match r {
        Ok(c) => Ok(c@),
        Err(e) => Err(e),
    }
}

/// The `select-window` and `select-pane` runs that make a target current.
pub open spec fn select_commands(t: TargetView) -> Seq<CommandView> {
    let w = match t.window_id {
        Some(w) => seq![on_target(t, seq!["select-window"@, "-t"@, w])],
        None => seq![],
    };
    let p = match t.pane_id {
        Some(p) => seq![on_target(t, seq!["select-pane"@, "-t"@, p])],
        None => seq![],
    };
    w + p
}

pub open spec fn command_views(v: Seq<TmuxCommand>) -> Seq<CommandView> {
    v.map_values(|c: TmuxCommand| c@)
}

fn args1(a: &str) -> (res: Vec<String>)
    ensures
        res.deep_view() == seq![a@],
{
    let mut v: Vec<String> = Vec::new();
    push_arg(&mut v, a);
    assert(v.deep_view() =~= seq![a@]);
    v
}

fn args2(a: &str, b: &str) -> (res: Vec<String>)
    ensures
        res.deep_view() == seq![a@, b@],
{
    let mut v = args1(a);
    push_arg(&mut v, b);
    assert(v.deep_view() =~= seq![a@, b@]);
    v
}

fn args3(a: &str, b: &str, c: &str) -> (res: Vec<String>)
    ensures
        res.deep_view() == seq![a@, b@, c@],
{
    let mut v = args2(a, b);
    push_arg(&mut v, c);
    assert(v.deep_view() =~= seq![a@, b@, c@]);
    v
}

fn args4(a: &str, b: &str, c: &str, d: &str) -> (res: Vec<String>)
    ensures
        res.deep_view() == seq![a@, b@, c@, d@],
{
    let mut v = args3(a, b, c);
    push_arg(&mut v, d);
    assert(v.deep_view() =~= seq![a@, b@, c@, d@]);
    v
}

fn args5(a: &str, b: &str, c: &str, d: &str, e: &str) -> (res: Vec<String>)
    ensures
        res.deep_view() == seq![a@, b@, c@, d@, e@],
{
    let mut v = args4(a, b, c, d);
    push_arg(&mut v, e);
    assert(v.deep_view() =~= seq![a@, b@, c@, d@, e@]);
    v
}

fn args6(a: &str, b: &str, c: &str, d: &str, e: &str, f: &str) -> (res: Vec<String>)
    ensures
        res.deep_view() == seq![a@, b@, c@, d@, e@, f@],
{
    let mut v = args5(a, b, c, d, e);
    push_arg(&mut v, f);
    assert(v.deep_view() =~= seq![a@, b@, c@, d@, e@, f@]);
    v
}

fn command_on(server: &TmuxServer, args: Vec<String>) -> (res: TmuxCommand)
    ensures
        res@ == cmd(server@, args.deep_view()),
{
    TmuxCommand { server: server.duplicate(), args }
}

fn pane_id_of(target: &TmuxTarget) -> (res: Result<&String, TargetError>)
    ensures
        match target@.pane_id {
            Some(p) => res matches Ok(s) && s@ == p,
            None => res == Err::<&String, TargetError>(TargetError::MissingPane),
        },
{
    match &target.pane_id {
        Some(p) => Ok(p),
        None => Err(TargetError::MissingPane),
    }
}

fn window_id_of(target: &TmuxTarget) -> (res: Result<&String, TargetError>)
    ensures
        match target@.window_id {
            Some(w) => res matches Ok(s) && s@ == w,
            None => res == Err::<&String, TargetError>(TargetError::MissingWindow),
        },
{
    match &target.window_id {
        Some(w) => Ok(w),
        None => Err(TargetError::MissingWindow),
    }
}

impl Default for TmuxClient {
    /// The default server, nothing extra.
    fn default() -> (res: Self)
        ensures
            res@ == (ClientView {
                server: ServerView::Default,
                extra_servers: seq![],
                socket_dirs: seq![],
            }),
    {
        let res = TmuxClient {
            server: TmuxServer::Default,
            extra_servers: Vec::new(),
            socket_dirs: Vec::new(),
        };
        assert(res@.extra_servers =~= Seq::<ServerView>::empty());
        assert(res@.socket_dirs =~= Seq::<Seq<char>>::empty());
        res
    }
}

impl TmuxClient {
    /// A client on the default server that also scans what `options` asks for.
    pub fn with_options(options: TmuxClientOptions) -> (res: Self)
        ensures
            res@ == (ClientView {
                server: ServerView::Default,
                extra_servers: explicit_servers(
                    options.socket_paths.deep_view(),
                    options.socket_names.deep_view(),
                ),
                socket_dirs: options.socket_dirs.deep_view(),
            }),
    {
        let mut extra: Vec<TmuxServer> = Vec::new();
        assert(extra.deep_view() =~= Seq::<ServerView>::empty());
        push_all_sockets(&mut extra, options.socket_paths.as_slice());
        let ghost base = extra.deep_view();
        let ghost names = options.socket_names.deep_view();
        let mut i: usize = 0;
        assert(names.take(0) =~= Seq::<Seq<char>>::empty());
        while i < options.socket_names.len()
            invariant
                i <= options.socket_names.len(),
                names == options.socket_names.deep_view(),
                extra.deep_view() == push_all_unique(base, named_servers(names.take(i as int))),
            decreases options.socket_names.len() - i,
        {
            let v = str_chars(options.socket_names[i].as_str());
            let t = trim_chars(v.as_slice());
            let ghost prev = named_servers(names.take(i as int));
            assert(names.take(i + 1).drop_last() == names.take(i as int));
            assert(names.take(i + 1).last() == names[i as int]);
            if t.len() > 0 {
                assert(named_servers(names.take(i + 1)) == prev.push(ServerView::Name(t@)));
                assert(prev.push(ServerView::Name(t@)).drop_last() == prev);
                push_unique_server(&mut extra, TmuxServer::Name(chars_string(t.as_slice())));
            }
            i += 1;
        }
        assert(names.take(options.socket_names.len() as int) == names);
        TmuxClient { server: TmuxServer::Default, extra_servers: extra, socket_dirs: options.socket_dirs }
    }

    /// The server that actions without a target go to.
    pub fn server(&self) -> (res: &TmuxServer)
        ensures
            res@ == self@.server,
    {
        &self.server
    }

    /// The explicitly requested servers.
    pub fn extra_servers(&self) -> (res: &Vec<TmuxServer>)
        ensures
            res.deep_view() == self@.extra_servers,
    {
        &self.extra_servers
    }

    /// The extra directories to look for sockets in.
    pub fn socket_dirs(&self) -> (res: &Vec<String>)
        ensures
            res.deep_view() == self@.socket_dirs,
    {
        &self.socket_dirs
    }

    /// Sets the server that actions without a target go to.
    pub fn set_server(&mut self, server: TmuxServer)
        ensures
            final(self)@ == (ClientView { server: server@, ..old(self)@ }),
    {
        self.server = server;
    }

    /// The runs that make `target` current and switch the client to its
    /// session.
    pub fn switch_to_target(&self, target: &TmuxTarget) -> (res: Vec<TmuxCommand>)
        ensures
            command_views(res@) == select_commands(target@) + seq![
                on_target(target@, seq!["switch-client"@, "-t"@, target@.session_id]),
            ],
    {
        let mut res = self.select_target(target);
        let args = args3("switch-client", "-t", target.session_id.as_str());
        let ghost before = command_views(res@);
        let c = command_on(&target.server, args);
        res.push(c);
        assert(command_views(res@) =~= before.push(c@));
        res
    }

    /// The runs that make `target` current and then attach to its session;
    /// the last one, `attach-session`, takes over the terminal.
    pub fn attach_to_target(&self, target: &TmuxTarget) -> (res: Vec<TmuxCommand>)
        ensures
            command_views(res@) == select_commands(target@) + seq![
                on_target(target@, seq!["attach-session"@, "-t"@, target@.session_id]),
            ],
    {
        let mut res = self.select_target(target);
        let args = args3("attach-session", "-t", target.session_id.as_str());
        let ghost before = command_views(res@);
        let c = command_on(&target.server, args);
        res.push(c);
        assert(command_views(res@) =~= before.push(c@));
        res
    }

    /// `new-session -d -s name` on the client's server.
    pub fn create_session(&self, name: &str) -> (res: TmuxCommand)
        ensures
            res@ == cmd(self@.server, seq!["new-session"@, "-d"@, "-s"@, name@]),
    {
        let args = args4("new-session", "-d", "-s", name);
        command_on(&self.server, args)
    }

    /// `new-session -d -s name`, with `-c start_dir` and a command when they
    /// are given and not blank.
    pub fn create_session_with(&self, name: &str, start_dir: Option<&str>, command: Option<&str>) -> (res:
        TmuxCommand)
        ensures
            res@ == cmd(
                self@.server,
                seq!["new-session"@, "-d"@, "-s"@, name@] + match start_dir {
                    Some(d) => if is_blank(d@) {
                        seq![]
                    } else {
                        seq!["-c"@, d@]
                    },
                    None => seq![],
                } + match command {
                    Some(c) => if is_blank(c@) {
                        seq![]
                    } else {
                        seq![c@]
                    },
                    None => seq![],
                },
            ),
    {
        let mut args = args4("new-session", "-d", "-s", name);
        let ghost base = args.deep_view();
        match start_dir {
            Some(d) => {
                if !is_blank_str(d) {
                    push_arg(&mut args, "-c");
                    push_arg(&mut args, d);
                }
            },
            None => {},
        }
        let ghost mid = args.deep_view();
        match command {
            Some(c) => {
                if !is_blank_str(c) {
                    push_arg(&mut args, c);
                }
            },
            None => {},
        }
        let res = command_on(&self.server, args);
        assert(res@.args =~= seq!["new-session"@, "-d"@, "-s"@, name@] + match start_dir {
            Some(d) => if is_blank(d@) {
                seq![]
            } else {
                seq!["-c"@, d@]
            },
            None => seq![],
        } + match command {
            Some(c) => if is_blank(c@) {
                seq![]
            } else {
                seq![c@]
            },
            None => seq![],
        });
        res
    }

    /// `new-window -d -t session -n name` on the target's server.
    pub fn create_window(&self, target: &TmuxTarget, name: &str) -> (res: TmuxCommand)
        ensures
            res@ == on_target(
                target@,
                seq!["new-window"@, "-d"@, "-t"@, target@.session_id, "-n"@, name@],
            ),
    {
        let args = args6("new-window", "-d", "-t", target.session_id.as_str(), "-n", name);
        command_on(&target.server, args)
    }

    /// `split-window -h|-v -t pane`.
    pub fn split_pane(&self, target: &TmuxTarget, direction: SplitDirection) -> (res: Result<
        TmuxCommand,
        TargetError,
    >)
        ensures
            command_view_result(res) == pane_command(
                target@,
                |p: Seq<char>|
                    seq![
                        "split-window"@,
                        match direction {
                            SplitDirection::Horizontal => "-h"@,
                            SplitDirection::Vertical => "-v"@,
                        },
                        "-t"@,
                        p,
                    ],
            ),
    {
        let pane_id = pane_id_of(target)?;
        let flag = match direction {
            SplitDirection::Horizontal => "-h",
            SplitDirection::Vertical => "-v",
        };
        let args = args4("split-window", flag, "-t", pane_id.as_str());
        Ok(command_on(&target.server, args))
    }

    /// `rename-session -t session name`.
    pub fn rename_session(&self, target: &TmuxTarget, name: &str) -> (res: TmuxCommand)
        ensures
            res@ == on_target(target@, seq!["rename-session"@, "-t"@, target@.session_id, name@]),
    {
        let args = args4("rename-session", "-t", target.session_id.as_str(), name);
        command_on(&target.server, args)
    }

    /// `rename-window -t window name`.
    pub fn rename_window(&self, target: &TmuxTarget, name: &str) -> (res: Result<
        TmuxCommand,
        TargetError,
    >)
        ensures
            command_view_result(res) == window_command(
                target@,
                |w: Seq<char>| seq!["rename-window"@, "-t"@, w, name@],
            ),
    {
        let window_id = window_id_of(target)?;
        let args = args4("rename-window", "-t", window_id.as_str(), name);
        Ok(command_on(&target.server, args))
    }

    /// `select-pane -t pane -T title`.
    pub fn rename_pane(&self, target: &TmuxTarget, title: &str) -> (res: Result<
        TmuxCommand,
        TargetError,
    >)
        ensures
            command_view_result(res) == pane_command(
                target@,
                |p: Seq<char>| seq!["select-pane"@, "-t"@, p, "-T"@, title@],
            ),
    {
        let pane_id = pane_id_of(target)?;
        let args = args5("select-pane", "-t", pane_id.as_str(), "-T", title);
        Ok(command_on(&target.server, args))
    }

    /// `kill-session -t session`.
    pub fn kill_session(&self, target: &TmuxTarget) -> (res: TmuxCommand)
        ensures
            res@ == on_target(target@, seq!["kill-session"@, "-t"@, target@.session_id]),
    {
        let args = args3("kill-session", "-t", target.session_id.as_str());
        command_on(&target.server, args)
    }

    /// `kill-window -t window`.
    pub fn kill_window(&self, target: &TmuxTarget) -> (res: Result<TmuxCommand, TargetError>)
        ensures
            command_view_result(res) == window_command(
                target@,
                |w: Seq<char>| seq!["kill-window"@, "-t"@, w],
            ),
    {
        let window_id = window_id_of(target)?;
        let args = args3("kill-window", "-t", window_id.as_str());
        Ok(command_on(&target.server, args))
    }

    /// `kill-pane -t pane`.
    pub fn kill_pane(&self, target: &TmuxTarget) -> (res: Result<TmuxCommand, TargetError>)
        ensures
            command_view_result(res) == pane_command(
                target@,
                |p: Seq<char>| seq!["kill-pane"@, "-t"@, p],
            ),
    {
        let pane_id = pane_id_of(target)?;
        let args = args3("kill-pane", "-t", pane_id.as_str());
        Ok(command_on(&target.server, args))
    }

    /// `resize-pane -Z -t pane`.
    pub fn toggle_zoom(&self, target: &TmuxTarget) -> (res: Result<TmuxCommand, TargetError>)
        ensures
            command_view_result(res) == pane_command(
                target@,
                |p: Seq<char>| seq!["resize-pane"@, "-Z"@, "-t"@, p],
            ),
    {
        let pane_id = pane_id_of(target)?;
        let args = args4("resize-pane", "-Z", "-t", pane_id.as_str());
        Ok(command_on(&target.server, args))
    }

    /// `send-keys -t pane keys Enter`.
    pub fn send_keys(&self, target: &TmuxTarget, keys: &str) -> (res: Result<
        TmuxCommand,
        TargetError,
    >)
        ensures
            command_view_result(res) == pane_command(
                target@,
                |p: Seq<char>| seq!["send-keys"@, "-t"@, p, keys@, "Enter"@],
            ),
    {
        let pane_id = pane_id_of(target)?;
        let args = args5("send-keys", "-t", pane_id.as_str(), keys, "Enter");
        Ok(command_on(&target.server, args))
    }

    /// The first run of copying a pane to the tmux buffer: capturing it.
    /// What it prints goes to `capture_result`, and the text to
    /// `set_buffer_command`.
    pub fn copy_pane_to_buffer(&self, target: &TmuxTarget) -> (res: Result<
        TmuxCommand,
        TargetError,
    >)
        ensures
            command_view_result(res) == pane_command(
                target@,
                |p: Seq<char>| seq!["capture-pane"@, "-p"@, "-t"@, p],
            ),
    {
        let pane_id = pane_id_of(target)?;
        Ok(capture_command(&target.server, pane_id.as_str()))
    }

    /// `detach-client` on the client's server.
    pub fn detach_client(&self) -> (res: TmuxCommand)
        ensures
            res@ == cmd(self@.server, seq!["detach-client"@]),
    {
        let args = args1("detach-client");
        command_on(&self.server, args)
    }

    /// Arbitrary arguments on the client's server.
    pub fn run_args(&self, args: &[String]) -> (res: TmuxCommand)
        ensures
            res@ == cmd(self@.server, args.deep_view()),
    {
        command_on(&self.server, copy_strings(args))
    }

    /// `select-window` for the target's window and `select-pane` for its
    /// pane, those it has.
    pub fn select_target(&self, target: &TmuxTarget) -> (res: Vec<TmuxCommand>)
        ensures
            command_views(res@) == select_commands(target@),
    {
        let mut res: Vec<TmuxCommand> = Vec::new();
        assert(command_views(res@) =~= Seq::<CommandView>::empty());
        match &target.window_id {
            Some(w) => {
                let args = args3("select-window", "-t", w.as_str());
                let c = command_on(&target.server, args);
                res.push(c);
                assert(command_views(res@) =~= seq![c@]);
            },
            None => {},
        }
        let ghost before = command_views(res@);
        match &target.pane_id {
            Some(p) => {
                let args = args3("select-pane", "-t", p.as_str());
                let c = command_on(&target.server, args);
                res.push(c);
                assert(command_views(res@) =~= before.push(c@));
            },
            None => {},
        }
        assert(command_views(res@) =~= select_commands(target@));
        res
    }
}

// ---------------------------------------------------------------------------
// Pane captures
// ---------------------------------------------------------------------------

/// `capture-pane -p -t pane` on a server.
pub fn capture_command(server: &TmuxServer, pane_id: &str) -> (res: TmuxCommand)
    ensures
        res@ == cmd(server@, seq!["capture-pane"@, "-p"@, "-t"@, pane_id@]),
{
    let args = args4("capture-pane", "-p", "-t", pane_id);
    command_on(server, args)
}

/// The text of a capture run: what it printed, normalized, or the reason it
/// failed.
pub fn capture_result(output: &CommandOutput) -> (res: Result<String, String>)
    ensures
        output.success ==> (res matches Ok(s) && s@ == normalized_capture(output.stdout@)),
        !output.success ==> (res matches Err(e) && e@ == "tmux capture-pane failed: "@
            + output_message(output.stdout@, output.stderr@)),
{
    if output.success {
        Ok(normalize_captured_content(output.stdout.as_str()))
    } else {
        let m = output_message_of(output);
        Err(concat2("tmux capture-pane failed: ", m.as_str()))
    }
}

/// What a pane shows as its content after a capture.
pub fn captured_content(result: Result<String, String>) -> (res: String)
    ensures
        match result {
            Ok(s) => res@ == s@,
            Err(e) => res@ == "Unable to capture pane content: "@ + e@,
        },
{
    match result {
        Ok(s) => s,
        Err(e) => concat2("Unable to capture pane content: ", e.as_str()),
    }
}

/// `set-buffer content` on the target's server.
pub fn set_buffer_command(target: &TmuxTarget, content: &str) -> (res: TmuxCommand)
    ensures
        res@ == on_target(target@, seq!["set-buffer"@, content@]),
{
    let args = args2("set-buffer", content);
    command_on(&target.server, args)
}

} // verus!
