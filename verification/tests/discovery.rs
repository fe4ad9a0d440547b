use lazytmux::discovery::{join_path, path_file_name, socket_dirs, socket_roots, valid_uid};

fn strings(args: &[&str]) -> Vec<String> {
    args.iter().map(|a| a.to_string()).collect()
}

#[test]
fn names_the_last_path_component() {
    assert_eq!(path_file_name("/tmp/tmux-1000").as_deref(), Some("tmux-1000"));
    assert_eq!(path_file_name("/tmp/tmux-1000/").as_deref(), Some("tmux-1000"));
    assert_eq!(path_file_name("/run/user/./").as_deref(), Some("user"));
    assert_eq!(path_file_name("/tmp/.."), None);
    assert_eq!(path_file_name("/"), None);
}

#[test]
fn joins_paths() {
    assert_eq!(join_path("/tmp", "tmux"), "/tmp/tmux");
    assert_eq!(join_path("/tmp/", "tmux"), "/tmp/tmux");
    assert_eq!(join_path("", "tmux"), "tmux");
}

#[test]
fn accepts_only_numeric_uids() {
    assert_eq!(valid_uid(" 1000\n").as_deref(), Some("1000"));
    assert_eq!(valid_uid(""), None);
    assert_eq!(valid_uid("10a"), None);
    assert_eq!(valid_uid("-1"), None);
}

#[test]
fn lists_socket_roots_once_each() {
    let roots = socket_roots(
        &strings(&["/custom", "/tmp"]),
        "/tmp",
        Some("/var/tmux"),
        None,
        Some("/run/user/1000"),
        Some("1000"),
    );
    assert_eq!(
        roots,
        strings(&["/custom", "/tmp", "/private/tmp", "/var/tmux", "/run/user/1000"])
    );
}

#[test]
fn lists_socket_dirs_of_each_root() {
    let roots = strings(&["/tmp", "/run/user/1000"]);
    let subdirs = vec![
        strings(&["/tmp/tmux-1000", "/tmp/other", "/tmp/tmux-shared"]),
        strings(&["/run/user/1000/tmux", "/run/user/1000/bus"]),
    ];
    let dirs = socket_dirs(&roots, Some("1000"), &subdirs, Some("/srv/sockets"));
    assert_eq!(
        dirs,
        strings(&[
            "/tmp/tmux-1000",
            "/tmp/tmux",
            "/tmp/tmux-shared",
            "/run/user/1000/tmux-1000",
            "/run/user/1000/tmux",
            "/srv/sockets",
        ])
    );
}
