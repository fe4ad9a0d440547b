use lazytmux::client::candidate_servers;
use lazytmux::discovery::{is_likely_tmux_socket_path, is_tmux_dir};
use lazytmux::listing::{parse_list_panes, FALLBACK_SEP, PRIMARY_SEP};
use lazytmux::tmux::{normalize_captured_content, tmux_command_args, TmuxServer, TmuxTarget};

fn row_fields() -> Vec<&'static str> {
    vec![
        "$1",
        "dev",
        "1",
        "1700000000",
        "1",
        "@2",
        "0",
        "editor",
        "1",
        "1",
        "layout",
        "*",
        "%3",
        "0",
        "1",
        "nvim",
        "/tmp",
        "title",
        "0",
        "0",
        "120",
        "40",
        "123",
        "0",
        "0",
    ]
}

#[test]
fn parses_list_panes_output() {
    let row = row_fields().join(&PRIMARY_SEP.to_string());

    let server = TmuxServer::Socket("/tmp/tmux-1000/default".to_string());
    let state = parse_list_panes(&row, server.clone(), PRIMARY_SEP);

    assert_eq!(state.sessions.len(), 1);
    assert_eq!(state.sessions[0].server, server);
    assert_eq!(state.sessions[0].windows.len(), 1);
    assert_eq!(state.sessions[0].windows[0].panes.len(), 1);
    assert_eq!(state.sessions[0].windows[0].panes[0].command, "nvim");
}

#[test]
fn parses_list_panes_output_with_fallback_separator() {
    let row = row_fields().join(&FALLBACK_SEP.to_string());

    let state = parse_list_panes(&row, TmuxServer::Default, FALLBACK_SEP);

    assert_eq!(state.sessions.len(), 1);
    assert_eq!(state.sessions[0].name, "dev");
    assert_eq!(state.sessions[0].windows[0].panes[0].command, "nvim");
}

fn strings(args: &[&str]) -> Vec<String> {
    args.iter().map(|a| a.to_string()).collect()
}

#[test]
fn prefixes_socket_server_args() {
    let args = tmux_command_args(
        &TmuxServer::Socket("/tmp/tmux-1000/default".to_string()),
        &strings(&["list-panes", "-a"]),
    );

    assert_eq!(
        args,
        strings(&["-S", "/tmp/tmux-1000/default", "list-panes", "-a"])
    );
}

#[test]
fn prefixes_named_server_args() {
    let args = tmux_command_args(&TmuxServer::Name("work".into()), &strings(&["list-panes", "-a"]));

    assert_eq!(args, strings(&["-L", "work", "list-panes", "-a"]));
}

#[test]
fn leaves_default_server_args_unprefixed() {
    let args = tmux_command_args(&TmuxServer::Default, &strings(&["list-panes", "-a"]));

    assert_eq!(args, strings(&["list-panes", "-a"]));
}

#[test]
fn identifies_only_tmux_socket_dirs() {
    assert!(is_tmux_dir("/tmp/tmux-1000"));
    assert!(is_tmux_dir("/run/user/1000/tmux"));
    assert!(!is_tmux_dir("/run/user/1000/bus"));
    assert!(!is_tmux_dir("/run/user/1000/systemd"));
}

#[test]
fn prioritizes_explicit_candidate_servers() {
    let explicit = vec![TmuxServer::Name("work".into())];
    let servers = candidate_servers(&TmuxServer::Default, &explicit, None, &[]);

    assert_eq!(servers.first(), Some(&TmuxServer::Name("work".into())));
    assert!(servers.contains(&TmuxServer::Default));
}

#[test]
fn identifies_likely_top_level_tmux_socket_names() {
    assert!(is_likely_tmux_socket_path("/tmp/my_tmux_socket"));
    assert!(!is_likely_tmux_socket_path("/tmp/project"));
}

#[test]
fn normalizes_captured_content() {
    assert_eq!(normalize_captured_content("line one   \n\n"), "line one");
}

#[test]
fn normalizes_every_line_and_keeps_inner_blank_lines() {
    assert_eq!(
        normalize_captured_content("a \t\r\n\nb  \n  \n\t\n"),
        "a\n\nb"
    );
    assert_eq!(normalize_captured_content(" \n \n"), "");
}

#[test]
fn sorts_parsed_sessions_windows_and_panes() {
    let line = |session: &str, name: &str, window: &str, windex: &str, pane: &str, pindex: &str| {
        let mut f = row_fields();
        f[0] = session;
        f[1] = name;
        f[5] = window;
        f[6] = windex;
        f[12] = pane;
        f[13] = pindex;
        f.join(&PRIMARY_SEP.to_string())
    };
    let output = [
        line("$2", "work", "@5", "10", "%9", "1"),
        line("$1", "dev", "@3", "2", "%4", "0"),
        line("$2", "work", "@6", "9", "%7", "0"),
        line("$2", "work", "@5", "10", "%8", "0"),
        "not a pane line".to_string(),
    ]
    .join("\n");

    let state = parse_list_panes(&output, TmuxServer::Default, PRIMARY_SEP);

    let names: Vec<&str> = state.sessions.iter().map(|s| s.name.as_str()).collect();
    assert_eq!(names, vec!["dev", "work"]);
    let windows: Vec<&str> = state.sessions[1].windows.iter().map(|w| w.index.as_str()).collect();
    assert_eq!(windows, vec!["9", "10"]);
    let panes: Vec<&str> = state.sessions[1].windows[1].panes.iter().map(|p| p.id.as_str()).collect();
    assert_eq!(panes, vec!["%8", "%9"]);
}

#[test]
fn skips_duplicate_panes_and_lines_with_too_few_fields() {
    let row = row_fields().join(&PRIMARY_SEP.to_string());
    let short = row_fields()[..10].join(&PRIMARY_SEP.to_string());
    let output = format!("{row}\n{row}\n{short}\n");

    let state = parse_list_panes(&output, TmuxServer::Default, PRIMARY_SEP);

    assert_eq!(state.sessions.len(), 1);
    assert_eq!(state.sessions[0].windows[0].panes.len(), 1);
    let pane = &state.sessions[0].windows[0].panes[0];
    assert_eq!(pane.width, Some(120));
    assert_eq!(pane.height, Some(40));
    assert!(pane.active);
    assert!(!pane.dead);
    assert_eq!(state.sessions[0].created, Some(1_700_000_000));
}

#[test]
fn parsed_ids_are_distinct_and_sessions_keep_the_server() {
    let line = |session: &str, window: &str, pane: &str| {
        let mut f = row_fields();
        f[0] = session;
        f[5] = window;
        f[12] = pane;
        f.join(&PRIMARY_SEP.to_string())
    };
    let output = [
        line("$1", "@1", "%1"),
        line("$2", "@1", "%1"),
        line("$1", "@1", "%1"),
        line("$1", "@2", "%2"),
        line("$1", "@1", "%3"),
        line("$2", "@1", "%1"),
    ]
    .join("\n");
    let server = TmuxServer::Name("work".to_string());

    let state = parse_list_panes(&output, server.clone(), PRIMARY_SEP);

    let ids: Vec<&str> = state.sessions.iter().map(|s| s.id.as_str()).collect();
    assert_eq!(ids, vec!["$1", "$2"]);
    assert!(state.sessions.iter().all(|s| s.server == server));
    let first: Vec<&str> = state.sessions[0].windows.iter().map(|w| w.id.as_str()).collect();
    assert_eq!(first, vec!["@1", "@2"]);
    let panes: Vec<&str> = state.sessions[0].windows[0].panes.iter().map(|p| p.id.as_str()).collect();
    assert_eq!(panes, vec!["%1", "%3"]);
    assert_eq!(state.sessions[1].windows.len(), 1);
    assert_eq!(state.sessions[1].windows[0].panes.len(), 1);
}

#[test]
fn builds_target_keys_and_labels() {
    let target = TmuxTarget::pane_on(
        "$1".to_string(),
        "@2".to_string(),
        "%3".to_string(),
        TmuxServer::Name("work".to_string()),
    );
    assert_eq!(target.display(), "%3");
    assert_eq!(target.server_label(), "-L work");
    assert_eq!(target.favorite_key(), "-L work|$1|%3");

    let session = TmuxTarget::session_on("$1".to_string(), TmuxServer::Default);
    assert_eq!(session.display(), "$1");
    assert_eq!(session.favorite_key(), "default|$1");
}

#[test]
fn reads_the_server_from_tmux_env() {
    assert_eq!(
        TmuxServer::from_tmux_env(Some("/tmp/tmux-1000/default,1234,0")),
        Some(TmuxServer::Socket("/tmp/tmux-1000/default".to_string()))
    );
    assert_eq!(TmuxServer::from_tmux_env(Some(",1,0")), None);
    assert_eq!(TmuxServer::from_tmux_env(None), None);
}

#[test]
fn puts_discovered_sockets_after_the_default_server_once_each() {
    let servers = candidate_servers(
        &TmuxServer::Name("cur".into()),
        &[],
        Some(TmuxServer::Name("cur".into())),
        &["/tmp/a".to_string(), "/tmp/a".to_string()],
    );
    assert_eq!(
        servers,
        vec![
            TmuxServer::Name("cur".into()),
            TmuxServer::Default,
            TmuxServer::Socket("/tmp/a".into()),
        ]
    );
}
