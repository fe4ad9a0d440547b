use lazytmux::layout::{preview_source_size, scale_coordinate, scaled_pane_rect, Area};
use lazytmux::tree::{TerminalPanePreview, TerminalPreview};

fn pane(left: u16, top: u16, width: u16, height: u16) -> TerminalPanePreview {
    TerminalPanePreview {
        title: "0 sh".to_string(),
        content: String::new(),
        left,
        top,
        width,
        height,
        active: false,
        dead: false,
    }
}

#[test]
fn scales_coordinates() {
    assert_eq!(scale_coordinate(40, 80, 20), 10);
    assert_eq!(scale_coordinate(79, 80, 20), 19);
    assert_eq!(scale_coordinate(5, 0, 20), 0);
    assert_eq!(scale_coordinate(20, 10, 60000), 54464);
}

#[test]
fn places_panes_inside_the_area() {
    let area = Area { x: 2, y: 3, width: 20, height: 10 };
    let left = scaled_pane_rect(area, &pane(0, 0, 40, 24), 81, 24).unwrap();
    assert_eq!(left, Area { x: 2, y: 3, width: 9, height: 10 });
    let right = scaled_pane_rect(area, &pane(41, 0, 40, 24), 81, 24).unwrap();
    assert_eq!(right, Area { x: 12, y: 3, width: 10, height: 10 });
    let tiny = scaled_pane_rect(area, &pane(80, 23, 1, 1), 81, 24).unwrap();
    assert_eq!(tiny, Area { x: 21, y: 12, width: 1, height: 1 });
}

#[test]
fn keeps_the_right_edge_within_the_screen_coordinates() {
    let area = Area { x: 65530, y: 0, width: 20, height: 10 };
    let rect = scaled_pane_rect(area, &pane(0, 0, 40, 24), 81, 24).unwrap();
    assert_eq!(rect, Area { x: 65530, y: 0, width: 5, height: 10 });
}

#[test]
fn skips_panes_outside_or_an_empty_area() {
    let area = Area { x: 0, y: 0, width: 20, height: 10 };
    assert_eq!(scaled_pane_rect(area, &pane(90, 0, 10, 10), 81, 24), None);
    let empty = Area { x: 0, y: 0, width: 0, height: 10 };
    assert_eq!(scaled_pane_rect(empty, &pane(0, 0, 10, 10), 81, 24), None);
}

#[test]
fn measures_the_source_of_a_preview() {
    let preview = TerminalPreview {
        title: "w".to_string(),
        panes: vec![pane(0, 0, 40, 24), pane(41, 0, 40, 12), pane(41, 13, 40, 11)],
    };
    assert_eq!(preview_source_size(&preview), (81, 24));
    let empty = TerminalPreview { title: "w".to_string(), panes: vec![] };
    assert_eq!(preview_source_size(&empty), (1, 1));
    let edge = TerminalPreview { title: "w".to_string(), panes: vec![pane(65535, 0, 10, 1)] };
    assert_eq!(preview_source_size(&edge), (65535, 1));
}
