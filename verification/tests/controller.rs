use core::time::Duration;

use lazytmux::args::ArgsError;
use lazytmux::controller::{sequence_next, App, Effect, KeyCode, KeyEvent, SequenceNext};
use lazytmux::listing::{parse_list_panes, PRIMARY_SEP};
use lazytmux::tmux::{CommandOutput, TmuxCommand, TmuxServer, TmuxState, TmuxTarget};
use lazytmux::tree::TreeItemKind;

fn line(session: &str, name: &str, window: &str, windex: &str, wname: &str, pane: &str, pindex: &str, command: &str) -> String {
    let fields = vec![
        session, name, "0", "1700000000", "2", window, windex, wname, "1", "1", "layout", "*", pane,
        pindex, "1", command, "/home/me", "", "0", "0", "80", "24", "42", "0", "0",
    ];
    fields.join(&PRIMARY_SEP.to_string())
}

fn state() -> TmuxState {
    let output = [
        line("$1", "dev", "@2", "0", "editor", "%3", "0", "nvim"),
        line("$2", "work", "@5", "0", "shell", "%6", "0", "bash"),
        line("$2", "work", "@5", "0", "shell", "%7", "1", "htop"),
        line("$2", "work", "@8", "1", "logs", "%9", "0", "tail"),
    ]
    .join("\n");
    parse_list_panes(&output, TmuxServer::Default, PRIMARY_SEP)
}

fn loaded() -> App {
    let mut app = App::new(Duration::from_secs(2));
    app.refresh(Ok(state()));
    app
}

fn key(code: KeyCode) -> KeyEvent {
    KeyEvent { code, control: false, shift: false, super_key: false, release: false }
}

fn ch(c: char) -> KeyEvent {
    key(KeyCode::Char(c))
}

fn ctrl(c: char) -> KeyEvent {
    KeyEvent { code: KeyCode::Char(c), control: true, shift: false, super_key: false, release: false }
}

fn press(app: &mut App, k: KeyEvent) -> Effect {
    app.handle_key(k, false).unwrap()
}

fn type_text(app: &mut App, text: &str) {
    for c in text.chars() {
        assert_eq!(press(app, ch(c)), Effect::Nothing);
    }
}

fn labels(app: &App) -> Vec<String> {
    app.items().iter().map(|i| i.label.clone()).collect()
}

fn strings(args: &[&str]) -> Vec<String> {
    args.iter().map(|a| a.to_string()).collect()
}

fn run(args: &[&str]) -> TmuxCommand {
    TmuxCommand { server: TmuxServer::Default, args: strings(args) }
}

fn select_label(app: &mut App, label: &str) {
    press(app, ch('g'));
    while app.items()[app.selected()].label != label {
        press(app, ch('j'));
    }
}

#[test]
fn starts_empty_and_loads_rows() {
    let app = App::new(Duration::from_secs(2));
    assert_eq!(app.status(), "Starting lazytmux");
    assert!(app.items().is_empty());

    let app = loaded();
    assert_eq!(
        labels(&app),
        vec![
            "[S] dev",
            "[W] 0:editor",
            "[P] 0: nvim",
            "[S] work",
            "[W] 0:shell",
            "[P] 0: bash",
            "[P] 1: htop",
            "[W] 1:logs",
            "[P] 0: tail",
        ]
    );
    assert_eq!(app.status(), "Loaded: 2 sessions, 3 windows, 4 panes");
    assert_eq!(app.counts(), (2, 3, 4));
}

#[test]
fn shows_the_load_notice_or_the_failure() {
    let mut app = App::new(Duration::from_secs(2));
    let mut st = state();
    st.notice = Some("No tmux server is running.".to_string());
    app.refresh(Ok(st));
    assert_eq!(app.status(), "No tmux server is running.");
    app.refresh(Err("boom".to_string()));
    assert_eq!(app.status(), "Refresh failed: boom");
}

#[test]
fn quits_on_q_esc_and_ctrl_c() {
    let mut app = loaded();
    press(&mut app, ch('q'));
    assert!(app.should_quit());

    let mut app = loaded();
    press(&mut app, key(KeyCode::Esc));
    assert!(app.should_quit());

    let mut app = loaded();
    press(&mut app, ch('/'));
    press(&mut app, ctrl('c'));
    assert!(app.should_quit());
}

#[test]
fn ignores_key_releases() {
    let mut app = loaded();
    let released = KeyEvent { code: KeyCode::Char('q'), control: false, shift: false, super_key: false, release: true };
    assert_eq!(press(&mut app, released), Effect::Nothing);
    assert!(!app.should_quit());
}

#[test]
fn moves_the_selection_within_the_rows() {
    let mut app = loaded();
    press(&mut app, ch('k'));
    assert_eq!(app.selected(), 0);
    press(&mut app, ch('j'));
    press(&mut app, key(KeyCode::Down));
    assert_eq!(app.selected(), 2);
    press(&mut app, key(KeyCode::PageDown));
    assert_eq!(app.selected(), 8);
    press(&mut app, key(KeyCode::PageUp));
    assert_eq!(app.selected(), 0);
    press(&mut app, ch('G'));
    assert_eq!(app.selected(), 8);
    press(&mut app, ch('g'));
    assert_eq!(app.selected(), 0);
}

#[test]
fn scrolls_details_and_resets_on_move() {
    let mut app = loaded();
    press(&mut app, ch(']'));
    press(&mut app, ctrl('d'));
    assert_eq!(app.detail_scroll(), 12);
    press(&mut app, ch('['));
    assert_eq!(app.detail_scroll(), 8);
    press(&mut app, ctrl('u'));
    press(&mut app, ctrl('u'));
    assert_eq!(app.detail_scroll(), 0);
    press(&mut app, ch(']'));
    press(&mut app, ch('j'));
    assert_eq!(app.detail_scroll(), 0);
}

#[test]
fn collapses_and_expands_sessions_and_windows() {
    let mut app = loaded();
    select_label(&mut app, "[S] work");
    press(&mut app, ch(' '));
    assert_eq!(labels(&app), vec!["[S] dev", "[W] 0:editor", "[P] 0: nvim", "[S] work"]);
    press(&mut app, ch(' '));
    assert_eq!(app.items().len(), 9);

    select_label(&mut app, "[W] 0:shell");
    press(&mut app, ch('h'));
    assert_eq!(app.items().len(), 7);
    press(&mut app, ch('h'));
    assert_eq!(app.items().len(), 7);
    press(&mut app, key(KeyCode::Right));
    assert_eq!(app.items().len(), 9);
}

#[test]
fn filters_with_fuzzy_words() {
    let mut app = loaded();
    press(&mut app, ch('/'));
    assert_eq!(app.prompt().unwrap().title, "Filter");
    type_text(&mut app, "htp");
    press(&mut app, key(KeyCode::Enter));
    assert_eq!(labels(&app), vec!["[S] work", "[W] 0:shell", "[P] 0: bash", "[P] 1: htop"]);
    assert_eq!(app.filter(), "htp");
    assert_eq!(app.status(), "Filter applied: 2 sessions, 3 windows, 4 panes");

    press(&mut app, ch('/'));
    press(&mut app, ctrl('u'));
    type_text(&mut app, "  WORK logs ");
    press(&mut app, key(KeyCode::Enter));
    assert_eq!(labels(&app), vec!["[S] work", "[W] 1:logs", "[P] 0: tail"]);

    press(&mut app, ch('f'));
    assert_eq!(app.filter(), "");
    assert_eq!(app.items().len(), 9);
    assert_eq!(app.status(), "Filter cleared: 2 sessions, 3 windows, 4 panes");
}

#[test]
fn filter_with_no_match_shows_nothing() {
    let mut app = loaded();
    press(&mut app, ch('/'));
    type_text(&mut app, "zzz");
    press(&mut app, key(KeyCode::Enter));
    assert!(app.items().is_empty());
    assert_eq!(app.selected(), 0);
    assert!(app.selected_item().is_none());
}

#[test]
fn searches_server_labels() {
    let mut app = loaded();
    press(&mut app, ch('/'));
    type_text(&mut app, "default dev");
    press(&mut app, key(KeyCode::Enter));
    assert_eq!(labels(&app), vec!["[S] dev", "[W] 0:editor", "[P] 0: nvim"]);
}

#[test]
fn escape_and_backspace_in_a_prompt() {
    let mut app = loaded();
    press(&mut app, ch('/'));
    type_text(&mut app, "ab");
    press(&mut app, key(KeyCode::Backspace));
    assert_eq!(app.prompt().unwrap().value, "a");
    press(&mut app, key(KeyCode::Esc));
    assert!(app.prompt().is_none());
    assert_eq!(app.filter(), "");
}

#[test]
fn pins_favorites_first_and_keeps_them() {
    let mut app = loaded();
    select_label(&mut app, "[S] work");
    assert_eq!(press(&mut app, ch('*')), Effect::SaveFavorites);
    assert_eq!(app.status(), "Added favorite [S] work");
    assert_eq!(app.favorites(), &vec!["default|$2".to_string()]);
    assert_eq!(app.favorites_count(), 1);
    assert_eq!(app.items()[0].label, "[S] work");
    assert!(app.items()[0].favorite);
    assert!(!app.items()[1].favorite);

    select_label(&mut app, "[P] 1: htop");
    press(&mut app, ch('*'));
    let rows = labels(&app);
    let pos = |l: &str| rows.iter().position(|r| r == l).unwrap();
    assert!(pos("[P] 1: htop") < pos("[P] 0: bash"));

    select_label(&mut app, "[S] work");
    assert_eq!(press(&mut app, ch('*')), Effect::SaveFavorites);
    assert_eq!(app.status(), "Removed favorite [S] work");
    assert_eq!(app.favorites(), &vec!["default|$2|%7".to_string()]);
    assert_eq!(app.items()[0].label, "[S] dev");
}

#[test]
fn loads_stored_favorites_once_each() {
    let mut app = loaded();
    app.set_favorites(&strings(&["default|$2", "default|$2", "gone|$9"]));
    assert_eq!(app.favorites(), &strings(&["default|$2", "gone|$9"]));
    assert_eq!(app.items()[0].label, "[S] work");
}

#[test]
fn renames_the_selected_pane() {
    let mut app = loaded();
    select_label(&mut app, "[P] 0: nvim");
    press(&mut app, ch('r'));
    let prompt = app.prompt().unwrap();
    assert_eq!(prompt.title, "Set pane title");
    assert_eq!(prompt.value, "nvim");
    press(&mut app, ctrl('u'));
    type_text(&mut app, " code ");
    let effect = press(&mut app, key(KeyCode::Enter));
    assert_eq!(
        effect,
        Effect::Tmux {
            label: "Set pane title".to_string(),
            commands: vec![run(&["select-pane", "-t", "%3", "-T", "code"])],
            refresh: true,
        }
    );
    app.finish_tmux("Set pane title", Err("tmux command failed: no pane".to_string()));
    assert_eq!(app.status(), "Set pane title failed: tmux command failed: no pane");
}

#[test]
fn refuses_an_empty_name() {
    let mut app = loaded();
    press(&mut app, ch('r'));
    press(&mut app, ctrl('u'));
    assert_eq!(press(&mut app, key(KeyCode::Enter)), Effect::Nothing);
    assert_eq!(app.status(), "Name cannot be empty");
}

#[test]
fn kills_after_confirmation_only() {
    let mut app = loaded();
    select_label(&mut app, "[W] 1:logs");
    press(&mut app, ch('x'));
    assert_eq!(
        app.confirm().unwrap().message,
        "Kill window [W] 1:logs? Press y to confirm or n/Esc to cancel."
    );
    press(&mut app, ch('n'));
    assert!(app.confirm().is_none());
    press(&mut app, ch('x'));
    let effect = press(&mut app, ch('y'));
    assert_eq!(
        effect,
        Effect::Tmux {
            label: "Killed window".to_string(),
            commands: vec![run(&["kill-window", "-t", "@8"])],
            refresh: true,
        }
    );
}

#[test]
fn creates_sessions_and_windows() {
    let mut app = loaded();
    press(&mut app, ch('n'));
    type_text(&mut app, "notes");
    assert_eq!(
        press(&mut app, key(KeyCode::Enter)),
        Effect::Tmux {
            label: "Created session".to_string(),
            commands: vec![run(&["new-session", "-d", "-s", "notes"])],
            refresh: true,
        }
    );
    select_label(&mut app, "[P] 0: bash");
    press(&mut app, ch('w'));
    type_text(&mut app, "build");
    assert_eq!(
        press(&mut app, key(KeyCode::Enter)),
        Effect::Tmux {
            label: "Created window".to_string(),
            commands: vec![run(&["new-window", "-d", "-t", "$2", "-n", "build"])],
            refresh: true,
        }
    );
}

#[test]
fn launches_a_session_from_a_preset_line() {
    let mut app = loaded();
    press(&mut app, ch('N'));
    assert_eq!(app.prompt().unwrap().hint, "name | start-dir | command");
    type_text(&mut app, "work2 | /srv | htop | less");
    assert_eq!(
        press(&mut app, key(KeyCode::Enter)),
        Effect::Tmux {
            label: "Launched session".to_string(),
            commands: vec![run(&["new-session", "-d", "-s", "work2", "-c", "/srv", "htop | less"])],
            refresh: true,
        }
    );
    press(&mut app, ch('N'));
    type_text(&mut app, "solo ||");
    assert_eq!(
        press(&mut app, key(KeyCode::Enter)),
        Effect::Tmux {
            label: "Launched session".to_string(),
            commands: vec![run(&["new-session", "-d", "-s", "solo"])],
            refresh: true,
        }
    );
    press(&mut app, ch('N'));
    type_text(&mut app, " | /tmp");
    assert_eq!(press(&mut app, key(KeyCode::Enter)), Effect::Nothing);
    assert_eq!(app.status(), "Session name cannot be empty");
}

#[test]
fn sends_keys_to_the_selected_pane() {
    let mut app = loaded();
    press(&mut app, ch('s'));
    assert_eq!(app.status(), "Select a pane before sending keys");
    assert!(app.prompt().is_none());
    select_label(&mut app, "[P] 1: htop");
    press(&mut app, ch('s'));
    assert_eq!(app.prompt().unwrap().title, "Send keys");
    type_text(&mut app, "q");
    assert_eq!(
        press(&mut app, key(KeyCode::Enter)),
        Effect::Tmux {
            label: "Sent keys".to_string(),
            commands: vec![run(&["send-keys", "-t", "%7", "q", "Enter"])],
            refresh: true,
        }
    );
}

#[test]
fn copies_pane_text_to_the_buffer() {
    let mut app = loaded();
    press(&mut app, ch('y'));
    assert_eq!(app.status(), "Select a pane before copying its text");
    select_label(&mut app, "[P] 0: nvim");
    let target = TmuxTarget::pane_on("$1".into(), "@2".into(), "%3".into(), TmuxServer::Default);
    assert_eq!(
        press(&mut app, ch('y')),
        Effect::Capture {
            label: "Copied pane text".to_string(),
            command: run(&["capture-pane", "-p", "-t", "%3"]),
            target: target.clone(),
        }
    );
    let ok = CommandOutput { success: true, stdout: "hello  \n\n".to_string(), stderr: String::new() };
    assert_eq!(
        app.finish_capture("Copied pane text", &target, &ok),
        Effect::Tmux {
            label: "Copied pane text".to_string(),
            commands: vec![run(&["set-buffer", "hello"])],
            refresh: false,
        }
    );
    let failed = CommandOutput { success: false, stdout: String::new(), stderr: " can't find pane \n".to_string() };
    assert_eq!(app.finish_capture("Copied pane text", &target, &failed), Effect::Nothing);
    assert_eq!(
        app.status(),
        "Copied pane text failed: tmux capture-pane failed: can't find pane"
    );
}

#[test]
fn splits_zooms_and_detaches() {
    let mut app = loaded();
    press(&mut app, ch('%'));
    assert_eq!(app.status(), "Select a pane before splitting");
    select_label(&mut app, "[P] 0: tail");
    assert_eq!(
        press(&mut app, ch('%')),
        Effect::Tmux {
            label: "Split pane horizontally".to_string(),
            commands: vec![run(&["split-window", "-h", "-t", "%9"])],
            refresh: true,
        }
    );
    assert_eq!(
        press(&mut app, ch('"')),
        Effect::Tmux {
            label: "Split pane vertically".to_string(),
            commands: vec![run(&["split-window", "-v", "-t", "%9"])],
            refresh: true,
        }
    );
    assert_eq!(
        press(&mut app, ch('z')),
        Effect::Tmux {
            label: "Toggled pane zoom".to_string(),
            commands: vec![run(&["resize-pane", "-Z", "-t", "%9"])],
            refresh: true,
        }
    );
    assert_eq!(
        press(&mut app, ch('d')),
        Effect::Tmux {
            label: "Detached tmux client".to_string(),
            commands: vec![run(&["detach-client"])],
            refresh: false,
        }
    );
    assert_eq!(press(&mut app, ch('R')), Effect::Refresh);
}

#[test]
fn runs_a_typed_command_or_reports_why_not() {
    let mut app = loaded();
    press(&mut app, ch(':'));
    type_text(&mut app, "rename-session -t $1 'new name'");
    assert_eq!(
        press(&mut app, key(KeyCode::Enter)),
        Effect::Tmux {
            label: "Ran tmux command".to_string(),
            commands: vec![run(&["rename-session", "-t", "$1", "new name"])],
            refresh: true,
        }
    );
    press(&mut app, ch(':'));
    type_text(&mut app, "tmux ls");
    assert_eq!(app.handle_key(key(KeyCode::Enter), false), Err(ArgsError::LeadingTmuxWord));
    assert!(app.prompt().is_none());
    press(&mut app, ch(':'));
    assert_eq!(press(&mut app, key(KeyCode::Enter)), Effect::Nothing);
    assert_eq!(app.status(), "No tmux command entered");
}

#[test]
fn enter_attaches_outside_tmux_and_switches_inside() {
    let mut app = loaded();
    select_label(&mut app, "[P] 0: bash");
    assert_eq!(
        app.handle_key(key(KeyCode::Enter), true).unwrap(),
        Effect::Tmux {
            label: "Switched target".to_string(),
            commands: vec![
                run(&["select-window", "-t", "@5"]),
                run(&["select-pane", "-t", "%6"]),
                run(&["switch-client", "-t", "$2"]),
            ],
            refresh: false,
        }
    );
    assert!(!app.should_quit());

    assert_eq!(press(&mut app, key(KeyCode::Enter)), Effect::Nothing);
    assert!(app.should_quit());
    let target = app.take_attach_target().unwrap();
    assert_eq!(target.pane_id.as_deref(), Some("%6"));
    assert!(app.take_attach_target().is_none());
}

#[test]
fn opens_scrolls_and_closes_the_shortcuts_page() {
    let mut app = loaded();
    press(&mut app, key(KeyCode::F(1)));
    assert!(app.show_help());
    assert_eq!(
        app.status(),
        "Shortcuts page open. Scroll with j/k or arrows; close with ?/F1/q/Esc."
    );
    press(&mut app, ch('j'));
    press(&mut app, key(KeyCode::PageDown));
    assert_eq!(app.help_scroll(), 9);
    press(&mut app, ch('q'));
    assert!(!app.show_help());
    assert!(!app.should_quit());
    assert_eq!(app.help_scroll(), 0);
    let shifted = KeyEvent { code: KeyCode::Char('/'), control: false, shift: true, super_key: false, release: false };
    press(&mut app, shifted);
    assert!(app.show_help());
}

#[test]
fn opens_scrolls_and_closes_diagnostics() {
    let mut app = App::new(Duration::from_secs(2));
    let mut st = state();
    st.diagnostics = strings(&["Candidate servers: 1", "default: 2 sessions"]);
    app.refresh(Ok(st));
    press(&mut app, ch('D'));
    assert!(app.show_diagnostics());
    assert_eq!(app.status(), "Diagnostics open. Close with D/q/Esc.");
    assert_eq!(app.diagnostics(), &strings(&["Candidate servers: 1", "default: 2 sessions"]));
    press(&mut app, ch('j'));
    press(&mut app, ctrl('d'));
    assert_eq!(app.diagnostics_scroll(), 9);
    press(&mut app, ch('g'));
    assert_eq!(app.diagnostics_scroll(), 0);
    press(&mut app, ch('D'));
    assert!(!app.show_diagnostics());
    assert!(!app.should_quit());
}

#[test]
fn details_name_the_server() {
    let app = loaded();
    let item = &app.items()[0];
    assert_eq!(item.kind, TreeItemKind::Session);
    assert!(item.details.contains(&("Server".to_string(), "default".to_string())));
    let pane = &app.items()[2];
    assert_eq!(pane.subtitle, "nvim - /home/me");
    assert_eq!(pane.preview.as_ref().unwrap().panes[0].content, "(no captured content)");
}

#[test]
fn stored_favorites_read_back_unchanged() {
    let mut app = loaded();
    select_label(&mut app, "[W] 1:logs");
    press(&mut app, ch('*'));
    select_label(&mut app, "[P] 0: nvim");
    press(&mut app, ch('*'));
    let stored = app.favorites().clone();
    let mut other = loaded();
    other.set_favorites(&stored);
    assert_eq!(other.favorites(), &stored);
    assert_eq!(labels(&other), labels(&app));
}

#[test]
fn keeps_the_refresh_interval() {
    let app = App::new(Duration::from_secs(5));
    assert_eq!(app.refresh_interval(), Duration::from_secs(5));
}

#[test]
fn refresh_keeps_or_clamps_the_selection() {
    let mut app = loaded();
    select_label(&mut app, "[P] 0: tail");
    assert_eq!(app.selected(), 8);
    press(&mut app, ch(']'));
    let scroll = app.detail_scroll();
    assert!(scroll > 0);

    app.refresh(Ok(state()));
    assert_eq!(app.selected(), 8);
    assert_eq!(app.detail_scroll(), scroll);

    let smaller = parse_list_panes(
        &line("$1", "dev", "@2", "0", "editor", "%3", "0", "nvim"),
        TmuxServer::Default,
        PRIMARY_SEP,
    );
    app.refresh(Ok(smaller));
    assert_eq!(app.items().len(), 3);
    assert_eq!(app.selected(), 2);
    assert_eq!(app.detail_scroll(), 0);

    app.refresh(Ok(parse_list_panes("", TmuxServer::Default, PRIMARY_SEP)));
    assert!(app.items().is_empty());
    assert_eq!(app.selected(), 0);
    assert_eq!(app.filter(), "");
}

#[test]
fn runs_a_sequence_until_the_first_failure() {
    assert!(matches!(sequence_next(2, 0, Ok(())), SequenceNext::Run(0)));
    assert!(matches!(sequence_next(2, 1, Ok(())), SequenceNext::Run(1)));
    assert!(matches!(sequence_next(2, 2, Ok(())), SequenceNext::Finished(Ok(()))));
    match sequence_next(3, 1, Err("boom".to_string())) {
        SequenceNext::Finished(Err(e)) => assert_eq!(e, "boom"),
        _ => panic!("a failure ends the sequence"),
    }
    assert!(matches!(sequence_next(0, 0, Ok(())), SequenceNext::Finished(Ok(()))));
}

#[test]
fn keys_and_refreshes_keep_the_refresh_interval() {
    let mut app = App::new(Duration::from_secs(7));
    app.refresh(Ok(state()));
    press(&mut app, ch('j'));
    press(&mut app, ch('/'));
    type_text(&mut app, "zz");
    press(&mut app, key(KeyCode::Esc));
    press(&mut app, ctrl('c'));
    app.rebuild_items();
    assert!(app.take_attach_target().is_none());
    assert_eq!(app.refresh_interval(), Duration::from_secs(7));
}

#[test]
fn rebuild_clamps_the_selection() {
    let mut app = loaded();
    select_label(&mut app, "[P] 0: tail");
    press(&mut app, ch(']'));
    let scroll = app.detail_scroll();
    app.rebuild_items();
    assert_eq!(app.selected(), 8);
    assert_eq!(app.detail_scroll(), scroll);
}
