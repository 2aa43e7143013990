use spotlight_dimmer::geometry::{
    calculate_tmux_overlay_rects, pixels_fit_check, OverlayRect, TerminalGeometry,
};
use spotlight_dimmer::pane::TmuxPaneInfo;
use spotlight_dimmer::platform::WindowRect;

#[test]
fn test_overlay_rect_new() {
    let rect = OverlayRect::new(10, 20, 100, 200);
    assert_eq!(rect.left, 10);
    assert_eq!(rect.top, 20);
    assert_eq!(rect.right, 100);
    assert_eq!(rect.bottom, 200);
}

#[test]
fn test_overlay_rect_dimensions() {
    let rect = OverlayRect::new(10, 20, 100, 200);
    assert_eq!(rect.width(), 90);
    assert_eq!(rect.height(), 180);
}

#[test]
fn test_overlay_rect_is_valid() {
    let valid = OverlayRect::new(10, 20, 100, 200);
    assert!(valid.is_valid());

    let invalid_width = OverlayRect::new(100, 20, 10, 200);
    assert!(!invalid_width.is_valid());

    let invalid_height = OverlayRect::new(10, 200, 100, 20);
    assert!(!invalid_height.is_valid());

    let zero_width = OverlayRect::new(10, 20, 10, 200);
    assert!(!zero_width.is_valid());
}

#[test]
fn test_terminal_geometry_col_to_x() {
    let geo = TerminalGeometry::new(10, 20, 5, 35);
    assert_eq!(geo.col_to_x(0), 5);
    assert_eq!(geo.col_to_x(1), 15);
    assert_eq!(geo.col_to_x(10), 105);
}

#[test]
fn test_terminal_geometry_row_to_y() {
    let geo = TerminalGeometry::new(10, 20, 5, 35);
    assert_eq!(geo.row_to_y(0), 35);
    assert_eq!(geo.row_to_y(1), 55);
    assert_eq!(geo.row_to_y(10), 235);
}

#[test]
fn test_terminal_geometry_x_to_col() {
    let geo = TerminalGeometry::new(10, 20, 5, 35);
    assert_eq!(geo.x_to_col(5), 0);
    assert_eq!(geo.x_to_col(15), 1);
    assert_eq!(geo.x_to_col(105), 10);
}

#[test]
fn test_terminal_geometry_y_to_row() {
    let geo = TerminalGeometry::new(10, 20, 5, 35);
    assert_eq!(geo.y_to_row(35), 0);
    assert_eq!(geo.y_to_row(55), 1);
    assert_eq!(geo.y_to_row(235), 10);
}

fn pane(left: i32, top: i32, right: i32, bottom: i32, width: i32, height: i32) -> TmuxPaneInfo {
    TmuxPaneInfo {
        pane_left: left,
        pane_top: top,
        pane_right: right,
        pane_bottom: bottom,
        window_width: width,
        window_height: height,
    }
}

#[test]
fn test_calculate_tmux_overlay_rects_full_screen_pane() {
    let pane_info = pane(0, 0, 119, 29, 120, 30);
    let terminal_window = WindowRect { left: 100, top: 100, right: 1300, bottom: 700 };
    let geometry = TerminalGeometry::new(10, 20, 0, 0);
    let overlays = calculate_tmux_overlay_rects(&pane_info, &terminal_window, &geometry);
    assert_eq!(overlays.len(), 0);
}

#[test]
fn test_calculate_tmux_overlay_rects_left_pane() {
    let pane_info = pane(0, 0, 59, 29, 120, 30);
    let terminal_window = WindowRect { left: 0, top: 0, right: 1200, bottom: 600 };
    let geometry = TerminalGeometry::new(10, 20, 0, 0);
    let overlays = calculate_tmux_overlay_rects(&pane_info, &terminal_window, &geometry);
    assert_eq!(overlays.len(), 1);
    let right_overlay = &overlays[0];
    assert_eq!(right_overlay.left, 600);
    assert_eq!(right_overlay.top, 0);
    assert_eq!(right_overlay.right, 1200);
    assert_eq!(right_overlay.bottom, 600);
}

#[test]
fn test_calculate_tmux_overlay_rects_top_left_quadrant() {
    let pane_info = pane(0, 0, 59, 14, 120, 30);
    let terminal_window = WindowRect { left: 0, top: 0, right: 1200, bottom: 600 };
    let geometry = TerminalGeometry::new(10, 20, 0, 0);
    let overlays = calculate_tmux_overlay_rects(&pane_info, &terminal_window, &geometry);
    assert_eq!(overlays.len(), 2);
}

#[test]
fn test_calculate_tmux_overlay_rects_with_padding() {
    let pane_info = pane(0, 0, 59, 29, 120, 30);
    let terminal_window = WindowRect { left: 100, top: 100, right: 1300, bottom: 735 };
    let geometry = TerminalGeometry::new(10, 20, 5, 35);
    let overlays = calculate_tmux_overlay_rects(&pane_info, &terminal_window, &geometry);
    assert_eq!(overlays.len(), 1);
    let right_overlay = &overlays[0];
    assert_eq!(right_overlay.left, 100 + 5 + 600);
    assert_eq!(right_overlay.top, 100 + 35);
}

#[test]
fn test_calculate_tmux_overlay_rects_invalid_pane() {
    let pane_info = pane(-1, 0, 59, 29, 120, 30);
    let terminal_window = WindowRect { left: 0, top: 0, right: 1200, bottom: 600 };
    let geometry = TerminalGeometry::new(10, 20, 0, 0);
    let overlays = calculate_tmux_overlay_rects(&pane_info, &terminal_window, &geometry);
    assert_eq!(overlays.len(), 0);
}

#[test]
fn centre_pane_gets_four_strips_in_order() {
    let pane_info = pane(10, 5, 19, 9, 40, 20);
    let terminal_window = WindowRect { left: 50, top: 60, right: 500, bottom: 500 };
    let geometry = TerminalGeometry::new(8, 16, 2, 30);
    let overlays = calculate_tmux_overlay_rects(&pane_info, &terminal_window, &geometry);
    // content: x 52..372, y 90..410; pane: x 132..212, y 170..250
    assert_eq!(
        overlays,
        vec![
            OverlayRect::new(52, 90, 372, 170),
            OverlayRect::new(52, 250, 372, 410),
            OverlayRect::new(52, 170, 132, 250),
            OverlayRect::new(212, 170, 372, 250),
        ]
    );
}

#[test]
fn count_matches_edges_clear_of_window() {
    let terminal_window = WindowRect { left: 0, top: 0, right: 800, bottom: 600 };
    let geometry = TerminalGeometry::new(10, 20, 0, 0);
    let cases = [
        (pane(0, 0, 79, 29, 80, 30), 0),
        (pane(1, 0, 79, 29, 80, 30), 1),
        (pane(0, 3, 79, 29, 80, 30), 1),
        (pane(0, 0, 40, 29, 80, 30), 1),
        (pane(0, 0, 79, 10, 80, 30), 1),
        (pane(5, 5, 79, 10, 80, 30), 3),
        (pane(5, 5, 70, 10, 80, 30), 4),
    ];
    for (p, n) in cases.iter() {
        assert_eq!(calculate_tmux_overlay_rects(p, &terminal_window, &geometry).len(), *n);
    }
}

#[test]
fn pixel_round_trip_within_one_cell() {
    let geo = TerminalGeometry::new(7, 13, 11, 23);
    for p in 0..200 {
        let x = geo.col_to_x(geo.x_to_col(p));
        assert!((x - p).abs() < 7);
        let y = geo.row_to_y(geo.y_to_row(p));
        assert!((y - p).abs() < 13);
    }
    // below the padding the column rounds toward zero
    assert_eq!(geo.x_to_col(0), -1);
    assert_eq!(geo.col_to_x(-1), 4);
}

#[test]
fn pixel_fit_detects_overflow() {
    let p = pane(0, 0, 10, 10, 100, 100);
    let w = WindowRect { left: 0, top: 0, right: 100, bottom: 100 };
    assert!(pixels_fit_check(&p, &w, &TerminalGeometry::new(10, 20, 0, 0)));
    assert!(!pixels_fit_check(&p, &w, &TerminalGeometry::new(100_000_000, 20, 0, 0)));
    let far = WindowRect { left: i32::MAX - 10, top: 0, right: i32::MAX, bottom: 100 };
    assert!(!pixels_fit_check(&p, &far, &TerminalGeometry::new(10, 20, 0, 0)));
}
