use lazytmux::favorites::{favorites_from_text, favorites_text};

fn strings(keys: &[&str]) -> Vec<String> {
    keys.iter().map(|k| k.to_string()).collect()
}

#[test]
fn writes_one_key_per_line() {
    let keys = strings(&["default\tsession:$1", "-L work\twindow:@2"]);
    assert_eq!(favorites_text(&keys), "default\tsession:$1\n-L work\twindow:@2\n");
    assert_eq!(favorites_text(&[]), "");
}

#[test]
fn reads_lines_and_skips_blank_ones() {
    let text = "a\n\n  \r\nb\r\n c \n";
    assert_eq!(favorites_from_text(text), strings(&["a", "b", " c "]));
    assert!(favorites_from_text("").is_empty());
    assert_eq!(favorites_from_text("last"), strings(&["last"]));
}

#[test]
fn reads_back_what_it_wrote() {
    let keys = strings(&["default\tpane:%3", "-S /tmp/tmux-1000/default\tsession:$2", "x"]);
    assert_eq!(favorites_from_text(&favorites_text(&keys)), keys);
}
