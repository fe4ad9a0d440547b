use lazytmux::args::{split_tmux_args, ArgsError};

#[test]
fn splits_tmux_command_with_quotes() {
    let args = split_tmux_args("rename-window -t @1 'work notes'").unwrap();
    assert_eq!(args, vec!["rename-window", "-t", "@1", "work notes"]);
}

#[test]
fn rejects_leading_tmux_word() {
    let error = split_tmux_args("tmux list-sessions").unwrap_err();
    assert!(error.message().contains("omit"));
}

#[test]
fn reports_an_unclosed_quote() {
    let error = split_tmux_args("rename-window \"work").unwrap_err();
    assert_eq!(error, ArgsError::UnclosedQuote('"'));
    assert_eq!(error.message(), "unclosed quote \"");
}

#[test]
fn keeps_escaped_spaces_and_quotes() {
    let args = split_tmux_args(r#"send-keys a\ b "it's" ''"#).unwrap();
    assert_eq!(args, vec!["send-keys", "a b", "it's", ""]);
}

#[test]
fn keeps_a_trailing_backslash() {
    let args = split_tmux_args("display \\").unwrap();
    assert_eq!(args, vec!["display", "\\"]);
}

#[test]
fn splits_nothing_from_blank_input() {
    let args = split_tmux_args("  \t ").unwrap();
    assert!(args.is_empty());
}

#[test]
fn allows_tmux_later_in_the_line() {
    let args = split_tmux_args("display-message tmux").unwrap();
    assert_eq!(args, vec!["display-message", "tmux"]);
}
