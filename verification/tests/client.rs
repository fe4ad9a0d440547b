use lazytmux::client::{TargetError, TmuxClient, TmuxClientOptions};
use lazytmux::tmux::{SplitDirection, TmuxCommand, TmuxServer, TmuxTarget};

fn strings(args: &[&str]) -> Vec<String> {
    args.iter().map(|a| a.to_string()).collect()
}

#[test]
fn reads_options_from_the_environment() {
    let options = TmuxClientOptions::from_env(
        Some("/tmp/a:/tmp/b"),
        None,
        Some(" work , ,play"),
        Some("extra"),
        None,
        Some("/run/x"),
    );
    assert_eq!(options.socket_paths, strings(&["/tmp/a", "/tmp/b"]));
    assert_eq!(options.socket_names, strings(&["work", "play", "extra"]));
    assert_eq!(options.socket_dirs, strings(&["/run/x"]));
}

#[test]
fn builds_explicit_servers_once_each() {
    let mut options = TmuxClientOptions::empty();
    options.socket_paths = strings(&["/tmp/a", "/tmp/a"]);
    options.socket_names = strings(&[" work ", "", "work"]);
    options.socket_dirs = strings(&["/run/x"]);
    let client = TmuxClient::with_options(options);
    assert_eq!(client.server(), &TmuxServer::Default);
    assert_eq!(
        client.extra_servers(),
        &vec![TmuxServer::Socket("/tmp/a".into()), TmuxServer::Name("work".into())]
    );
    assert_eq!(client.socket_dirs(), &strings(&["/run/x"]));
}

#[test]
fn builds_commands_for_each_action() {
    let client = TmuxClient::default();
    let server = TmuxServer::Name("w".into());
    let pane = TmuxTarget::pane_on("$1".into(), "@2".into(), "%3".into(), server.clone());
    let session = TmuxTarget::session_on("$1".into(), server.clone());
    let on = |args: &[&str]| TmuxCommand { server: server.clone(), args: strings(args) };

    assert_eq!(
        client.create_session_with("dev", Some(" "), Some("htop")),
        TmuxCommand { server: TmuxServer::Default, args: strings(&["new-session", "-d", "-s", "dev", "htop"]) }
    );
    assert_eq!(client.split_pane(&pane, SplitDirection::Vertical), Ok(on(&["split-window", "-v", "-t", "%3"])));
    assert!(client.split_pane(&session, SplitDirection::Vertical).is_err());
    assert_eq!(client.kill_session(&pane), on(&["kill-session", "-t", "$1"]));
    assert_eq!(client.rename_window(&pane, "x"), Ok(on(&["rename-window", "-t", "@2", "x"])));
    assert_eq!(client.rename_window(&session, "x"), Err(TargetError::MissingWindow));
    assert_eq!(client.kill_pane(&session), Err(TargetError::MissingPane));
    assert_eq!(TargetError::MissingPane.message(), "tmux pane target is missing");
    assert_eq!(
        client.send_keys(&pane, "ls"),
        Ok(on(&["send-keys", "-t", "%3", "ls", "Enter"]))
    );
    assert_eq!(
        client.switch_to_target(&session),
        vec![on(&["switch-client", "-t", "$1"])]
    );
    assert_eq!(
        client.attach_to_target(&pane),
        vec![
            on(&["select-window", "-t", "@2"]),
            on(&["select-pane", "-t", "%3"]),
            on(&["attach-session", "-t", "$1"]),
        ]
    );
    let command = on(&["list-sessions"]);
    assert_eq!(command.argv(), strings(&["-L", "w", "list-sessions"]));
    assert!(!command.clears_tmux_env());
    assert!(client.detach_client().clears_tmux_env());
}
