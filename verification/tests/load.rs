use lazytmux::client::TmuxClient;
use lazytmux::listing::{parse_list_panes, FALLBACK_SEP, PRIMARY_SEP};
use lazytmux::load::{
    probe_next, read_list_panes, ProbeNext, reported_socket_path, server_identity, unparsed_list_panes, unreachable_state,
    LoadOutcome, LoadProgress, ProbeStep, ServerLoad,
};
use lazytmux::tmux::{CommandOutput, TmuxServer, TmuxState};

fn sessions_state(server: TmuxServer) -> TmuxState {
    let fields = vec![
        "$1", "dev", "0", "1700000000", "1", "@2", "0", "editor", "1", "1", "layout", "*", "%3", "0",
        "1", "nvim", "/tmp", "", "0", "0", "80", "24", "42", "0", "0",
    ];
    parse_list_panes(&fields.join(&PRIMARY_SEP.to_string()), server, PRIMARY_SEP)
}

fn empty_state() -> TmuxState {
    parse_list_panes("", TmuxServer::Default, PRIMARY_SEP)
}

fn strings(args: &[&str]) -> Vec<String> {
    args.iter().map(|a| a.to_string()).collect()
}

#[test]
fn loads_each_server_once_by_identity() {
    let mut client = TmuxClient::default();
    let mut progress = LoadProgress::start(&client, None, &strings(&["/tmp/a"]));
    assert_eq!(progress.diagnostics(), &strings(&["Candidate servers: 2"]));

    assert_eq!(progress.current(), Some(&TmuxServer::Default));
    assert_eq!(progress.record(ServerLoad::State(sessions_state(TmuxServer::Default))), ProbeStep::Identify);
    assert!(progress.needs_identity());
    progress.record_identity("socket:/tmp/tmux-0/default");

    assert_eq!(progress.current(), Some(&TmuxServer::Socket("/tmp/a".into())));
    let again = sessions_state(TmuxServer::Socket("/tmp/a".into()));
    assert_eq!(progress.record(ServerLoad::State(again)), ProbeStep::Identify);
    progress.record_identity("socket:/tmp/tmux-0/default");
    assert!(progress.finished());

    match client.load(progress, false) {
        LoadOutcome::Sessions(state) => {
            assert_eq!(state.sessions.len(), 1);
            assert_eq!(state.sessions[0].server, TmuxServer::Default);
            assert_eq!(
                state.diagnostics,
                strings(&[
                    "Candidate servers: 2",
                    "default: loaded 1 sessions",
                    "-S /tmp/a: duplicate",
                    "tmux process running: false",
                ])
            );
        }
        other => panic!("unexpected outcome {other:?}"),
    }
    assert_eq!(client.server(), &TmuxServer::Default);
}

#[test]
fn makes_the_first_empty_server_current() {
    let mut client = TmuxClient::default();
    let mut progress = LoadProgress::start(&client, Some(TmuxServer::Name("w".into())), &[]);
    assert_eq!(progress.current(), Some(&TmuxServer::Name("w".into())));
    assert_eq!(progress.record(ServerLoad::Unavailable), ProbeStep::Continue);
    assert_eq!(progress.record(ServerLoad::State(empty_state())), ProbeStep::Continue);
    assert!(progress.finished());
    match client.load(progress, true) {
        LoadOutcome::NoSessions(state) => {
            assert_eq!(state.notice.as_deref(), Some("No tmux sessions found. Press n to create a session."));
            assert_eq!(
                state.diagnostics,
                strings(&[
                    "Candidate servers: 2",
                    "-L w: unavailable",
                    "default: empty",
                    "tmux process running: true",
                ])
            );
        }
        other => panic!("unexpected outcome {other:?}"),
    }
    assert_eq!(client.server(), &TmuxServer::Default);
}

#[test]
fn reports_unreachable_servers() {
    let mut client = TmuxClient::default();
    let mut progress = LoadProgress::start(&client, None, &[]);
    assert_eq!(progress.record(ServerLoad::Unavailable), ProbeStep::Continue);
    match client.load(progress, false) {
        LoadOutcome::Unreachable(diagnostics) => {
            let state = unreachable_state(diagnostics, false);
            assert!(state.sessions.is_empty());
            assert_eq!(state.notice.as_deref(), Some("No tmux server is running. Press n to create a session."));
        }
        other => panic!("unexpected outcome {other:?}"),
    }
    let running = unreachable_state(Vec::new(), true);
    assert!(running.notice.unwrap().starts_with("No reachable tmux socket found"));
}

#[test]
fn stops_on_a_failed_server() {
    let client = TmuxClient::default();
    let mut progress = LoadProgress::start(&client, None, &[]);
    let failed = ServerLoad::Failed { not_found: false, message: "tmux list-panes failed: boom".into() };
    assert_eq!(progress.record(failed), ProbeStep::Abort("tmux list-panes failed: boom".into()));
    assert_eq!(
        progress.diagnostics(),
        &strings(&["Candidate servers: 1", "default: error: tmux list-panes failed: boom"])
    );
    let missing = ServerLoad::Failed { not_found: true, message: "failed to run tmux".into() };
    assert_eq!(progress.record(missing), ProbeStep::Abort("tmux executable was not found in PATH".into()));
}

#[test]
fn reads_list_panes_runs() {
    let server = TmuxServer::Default;
    let gone = CommandOutput { success: false, stdout: String::new(), stderr: "no server running on /tmp/x\n".into() };
    assert_eq!(read_list_panes(&server, PRIMARY_SEP, &gone), Some(ServerLoad::Unavailable));
    let refused = CommandOutput { success: false, stdout: String::new(), stderr: "Error Connecting to /tmp/x".into() };
    assert_eq!(read_list_panes(&server, PRIMARY_SEP, &refused), Some(ServerLoad::Unavailable));
    let boom = CommandOutput { success: false, stdout: "boom\n".into(), stderr: "  ".into() };
    assert_eq!(
        read_list_panes(&server, PRIMARY_SEP, &boom),
        Some(ServerLoad::Failed { not_found: false, message: "tmux list-panes failed: boom".into() })
    );
    let garbage = CommandOutput { success: true, stdout: "garbage\n".into(), stderr: String::new() };
    assert_eq!(read_list_panes(&server, PRIMARY_SEP, &garbage), None);
    let blank = CommandOutput { success: true, stdout: " \n".into(), stderr: String::new() };
    assert_eq!(read_list_panes(&server, PRIMARY_SEP, &blank), Some(ServerLoad::State(empty_state())));
    assert_eq!(
        unparsed_list_panes(),
        ServerLoad::Failed {
            not_found: false,
            message: "tmux list-panes returned data, but lazytmux could not parse it".into()
        }
    );
}

#[test]
fn tells_servers_apart() {
    let ok = CommandOutput { success: true, stdout: " /tmp/tmux-1000/default\n".into(), stderr: String::new() };
    assert_eq!(reported_socket_path(&ok).as_deref(), Some("/tmp/tmux-1000/default"));
    let raw = CommandOutput { success: true, stdout: "#{socket_path}\n".into(), stderr: String::new() };
    assert_eq!(reported_socket_path(&raw), None);
    let failed = CommandOutput { success: false, stdout: "/tmp/x".into(), stderr: String::new() };
    assert_eq!(reported_socket_path(&failed), None);

    let socket = TmuxServer::Socket("/x".into());
    assert_eq!(server_identity(&socket, Some("/real"), "/x"), "socket:/real");
    assert_eq!(server_identity(&socket, None, "/canon/x"), "socket:/canon/x");
    assert_eq!(server_identity(&TmuxServer::Name("w".into()), None, ""), "name:w");
    assert_eq!(server_identity(&TmuxServer::Default, None, ""), "default");
}

#[test]
fn tries_the_primary_then_the_fallback_separator() {
    assert!(matches!(probe_next(0, None), ProbeNext::Run(c) if c == PRIMARY_SEP));
    assert!(matches!(probe_next(1, None), ProbeNext::Run(c) if c == FALLBACK_SEP));
    match probe_next(2, None) {
        ProbeNext::Done(load) => assert_eq!(load, unparsed_list_panes()),
        ProbeNext::Run(_) => panic!("a third run"),
    }
    match probe_next(1, Some(ServerLoad::Unavailable)) {
        ProbeNext::Done(load) => assert_eq!(load, ServerLoad::Unavailable),
        ProbeNext::Run(_) => panic!("a readable run settles the server"),
    }
}
