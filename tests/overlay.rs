use spotlight_dimmer::color::OverlayColor;
use spotlight_dimmer::geometry::TerminalGeometry;
use spotlight_dimmer::overlay::{compute_margins, OverlayManager, Placement, SurfaceKind, SurfaceOp};
use spotlight_dimmer::pane::TmuxPaneInfo;
use spotlight_dimmer::platform::{DisplayInfo, WindowRect};

fn display(id: &str, x: i32, y: i32, width: i32, height: i32) -> DisplayInfo {
    DisplayInfo {
        id: id.to_string(),
        name: format!("Display {}", id),
        x,
        y,
        width,
        height,
        is_primary: x == 0 && y == 0,
    }
}

fn gray() -> OverlayColor {
    OverlayColor::new(10, 20, 30, 127)
}

fn place(x: i32, y: i32, width: i32, height: i32) -> Placement {
    Placement { x, y, width, height }
}

#[test]
fn four_margins_and_window_cover_the_display() {
    let d = display("A", 0, 0, 1920, 1080);
    let w = WindowRect { left: 100, top: 100, right: 900, bottom: 700 };
    let parts = compute_margins(&w, &d).unwrap();
    assert_eq!(
        parts,
        vec![
            place(0, 0, 1920, 100),
            place(0, 700, 1920, 380),
            place(0, 100, 100, 600),
            place(900, 100, 1020, 600),
        ]
    );
    for p in parts.iter() {
        assert!(p.width > 0 && p.height > 0);
    }
    // every pixel of the display lies in exactly one margin or in the window
    for y in (0..1080).step_by(7) {
        for x in (0..1920).step_by(7) {
            let in_window = x >= 100 && x < 900 && y >= 100 && y < 700;
            let hits = parts
                .iter()
                .filter(|p| x >= p.x && x < p.x + p.width && y >= p.y && y < p.y + p.height)
                .count();
            assert_eq!(hits + in_window as usize, 1);
        }
    }
    let area: i64 = parts.iter().map(|p| p.width as i64 * p.height as i64).sum();
    assert_eq!(area + 800 * 600, 1920 * 1080);
}

#[test]
fn window_near_left_edge_has_no_left_margin() {
    let d = display("A", 0, 0, 1920, 1080);
    let w = WindowRect { left: 4, top: 100, right: 900, bottom: 700 };
    let parts = compute_margins(&w, &d).unwrap();
    assert_eq!(
        parts,
        vec![place(0, 0, 1920, 100), place(0, 700, 1920, 380), place(900, 100, 1020, 600)]
    );
    let w = WindowRect { left: -5, top: 100, right: 900, bottom: 700 };
    assert_eq!(compute_margins(&w, &d).unwrap().len(), 3);
    let w = WindowRect { left: 6, top: 100, right: 900, bottom: 700 };
    assert_eq!(compute_margins(&w, &d).unwrap().len(), 4);
}

#[test]
fn maximized_window_needs_no_margins() {
    let d = display("A", -1920, 0, 1920, 1080);
    let w = WindowRect { left: -1928, top: -8, right: 8, bottom: 1088 };
    assert!(compute_margins(&w, &d).unwrap().is_empty());
}

#[test]
fn margins_out_of_range_are_refused() {
    let d = display("A", i32::MAX - 10, 0, 1920, 1080);
    let w = WindowRect { left: 0, top: 0, right: 10, bottom: 10 };
    assert!(compute_margins(&w, &d).is_none());
    let mut m = OverlayManager::new(gray(), None);
    assert!(m.create_partial_overlays("A", w, &d).is_err());
    assert!(m.take_ops().is_empty());
}

#[test]
fn two_displays_inactive_only_visibility_follows_focus() {
    let displays = vec![display("A", 0, 0, 1920, 1080), display("B", 1920, 0, 1920, 1080)];
    let mut m = OverlayManager::new(gray(), None);
    m.create_inactive_overlays(&displays);
    m.create_active_overlays(&displays);
    assert_eq!(m.inactive_count(), 2);
    assert_eq!(m.active_count(), 0);
    assert!(m.inactive_surface("A").unwrap().visible);
    assert!(m.inactive_surface("B").unwrap().visible);
    assert_eq!(m.inactive_surface("B").unwrap().placement, place(1920, 0, 1920, 1080));

    let ops = m.take_ops();
    assert_eq!(ops.len(), 2);
    assert!(ops.iter().all(|op| matches!(op, SurfaceOp::Create { kind: SurfaceKind::Inactive, .. })));

    m.update_visibility("A");
    assert!(!m.inactive_surface("A").unwrap().visible);
    assert!(m.inactive_surface("B").unwrap().visible);
    let a = m.inactive_surface("A").unwrap().id;
    let b = m.inactive_surface("B").unwrap().id;
    let ops = m.take_ops();
    assert_eq!(ops.len(), 2);
    assert!(matches!(ops[0], SurfaceOp::Hide { id } if id == a));
    assert!(matches!(ops[1], SurfaceOp::Show { id } if id == b));
}

#[test]
fn active_surface_shows_only_on_active_display() {
    let displays = vec![display("A", 0, 0, 1920, 1080), display("B", 1920, 0, 1920, 1080)];
    let mut m = OverlayManager::new(gray(), Some(OverlayColor::new(255, 255, 255, 20)));
    m.create_active_overlays(&displays);
    assert_eq!(m.active_count(), 2);
    m.update_visibility("B");
    assert!(!m.active_surface("A").unwrap().visible);
    assert!(m.active_surface("B").unwrap().visible);
    let ops = m.take_ops();
    assert!(matches!(ops[0], SurfaceOp::Create { kind: SurfaceKind::Active, color, .. } if color.r == 255));
}

#[test]
fn update_partial_needs_recreate_when_margin_count_changes() {
    let d = display("A", 0, 0, 1920, 1080);
    let mut m = OverlayManager::new(gray(), None);
    let w = WindowRect { left: 100, top: 100, right: 900, bottom: 700 };
    m.create_partial_overlays("A", w, &d).unwrap();
    let before = m.margin_surfaces("A");
    assert_eq!(before.len(), 4);
    m.take_ops();

    // window now flush with the left edge: three margins are needed
    let touching = WindowRect { left: 0, top: 100, right: 900, bottom: 700 };
    assert_eq!(m.update_partial_overlays("A", touching, &d), Ok(false));
    assert_eq!(m.margin_surfaces("A"), before);
    assert!(m.take_ops().is_empty());

    // no margins at all for another display
    assert_eq!(m.update_partial_overlays("B", w, &d), Ok(false));

    // same count: moved in place, in one batch
    let moved = WindowRect { left: 200, top: 150, right: 1000, bottom: 750 };
    assert_eq!(m.update_partial_overlays("A", moved, &d), Ok(true));
    let after = m.margin_surfaces("A");
    assert_eq!(after.len(), 4);
    for i in 0..4 {
        assert_eq!(after[i].id, before[i].id);
    }
    assert_eq!(after[0].placement, place(0, 0, 1920, 150));
    assert_eq!(after[3].placement, place(1000, 150, 920, 600));
    let ops = m.take_ops();
    assert_eq!(ops.len(), 1);
    match &ops[0] {
        SurfaceOp::Reposition { moves } => assert_eq!(moves.len(), 4),
        _ => panic!("expected one batched move"),
    }

    // recreating replaces the set
    m.create_partial_overlays("A", touching, &d).unwrap();
    assert_eq!(m.margin_surfaces("A").len(), 3);
    let ops = m.take_ops();
    assert_eq!(ops.iter().filter(|op| matches!(op, SurfaceOp::Destroy { .. })).count(), 4);
    assert_eq!(ops.iter().filter(|op| matches!(op, SurfaceOp::Create { kind: SurfaceKind::Partial, .. })).count(), 3);
}

#[test]
fn atomic_update_moves_active_surface_in_same_batch() {
    let d = display("A", 0, 0, 1920, 1080);
    let mut m = OverlayManager::new(gray(), Some(OverlayColor::new(0, 0, 255, 40)));
    m.create_active_overlays(&[d.clone()]);
    let w = WindowRect { left: 100, top: 100, right: 900, bottom: 700 };
    m.create_partial_overlays("A", w, &d).unwrap();
    m.take_ops();
    let moved = WindowRect { left: 110, top: 100, right: 910, bottom: 700 };
    assert_eq!(m.update_partial_and_active_overlays_atomic("A", moved, &d, true, false), Ok(true));
    assert_eq!(m.active_surface("A").unwrap().placement, place(110, 100, 800, 600));
    let ops = m.take_ops();
    assert_eq!(ops.len(), 1);
    match &ops[0] {
        SurfaceOp::Reposition { moves } => {
            assert_eq!(moves.len(), 5);
            assert_eq!(moves[4].placement, place(110, 100, 800, 600));
        }
        _ => panic!("expected one batched move"),
    }
    assert_eq!(m.update_partial_and_active_overlays_atomic("A", moved, &d, true, true), Ok(true));
    assert_eq!(m.active_surface("A").unwrap().placement, place(0, 0, 1920, 1080));
}

#[test]
fn resize_and_restore_active_surface() {
    let d = display("A", 0, 0, 1920, 1080);
    let mut m = OverlayManager::new(gray(), Some(gray()));
    let w = WindowRect { left: 10, top: 20, right: 110, bottom: 220 };
    let err = m.resize_active_overlay("A", w).unwrap_err();
    assert_eq!(err, "No active overlay found for display A");
    assert!(m.restore_active_overlay_full_size("A", &d).is_err());
    m.create_active_overlays(&[d.clone()]);
    m.resize_active_overlay("A", w).unwrap();
    assert_eq!(m.active_surface("A").unwrap().placement, place(10, 20, 100, 200));
    m.restore_active_overlay_full_size("A", &d).unwrap();
    assert_eq!(m.active_surface("A").unwrap().placement, place(0, 0, 1920, 1080));
}

#[test]
fn close_all_then_create_behaves_as_cold_start() {
    let displays = vec![display("A", 0, 0, 1920, 1080), display("B", 1920, 0, 1920, 1080)];
    let mut m = OverlayManager::new(gray(), Some(gray()));
    m.create_inactive_overlays(&displays);
    m.create_active_overlays(&displays);
    m.create_partial_overlays("A", WindowRect { left: 100, top: 100, right: 900, bottom: 700 }, &displays[0]).unwrap();
    let pane = TmuxPaneInfo { pane_left: 0, pane_top: 0, pane_right: 9, pane_bottom: 4, window_width: 20, window_height: 10 };
    m.create_tmux_overlays(&pane, &WindowRect { left: 0, top: 0, right: 200, bottom: 200 }, &TerminalGeometry::new(10, 20, 0, 0)).unwrap();
    assert_eq!(m.tmux_surfaces().len(), 2);
    m.hide_all();
    m.take_ops();

    m.close_all();
    assert_eq!(m.inactive_count(), 0);
    assert_eq!(m.active_count(), 0);
    assert!(m.margin_surfaces("A").is_empty());
    assert_eq!(m.tmux_surfaces().len(), 0);
    let ops = m.take_ops();
    assert_eq!(ops.len(), 2 + 2 + 4 + 2);
    assert!(ops.iter().all(|op| matches!(op, SurfaceOp::Destroy { .. })));

    m.create_inactive_overlays(&displays);
    m.create_active_overlays(&displays);
    assert_eq!(m.inactive_count(), 2);
    assert_eq!(m.active_count(), 2);
    assert!(m.inactive_surface("A").unwrap().visible);
    let ops = m.take_ops();
    assert_eq!(ops.len(), 4);
    assert!(ops.iter().all(|op| matches!(op, SurfaceOp::Create { .. })));
}

#[test]
fn hide_and_show_cover_every_category() {
    let d = display("A", 0, 0, 1920, 1080);
    let mut m = OverlayManager::new(gray(), Some(gray()));
    m.create_inactive_overlays(&[d.clone()]);
    m.create_active_overlays(&[d.clone()]);
    m.create_partial_overlays("A", WindowRect { left: 100, top: 100, right: 900, bottom: 700 }, &d).unwrap();
    let pane = TmuxPaneInfo { pane_left: 0, pane_top: 0, pane_right: 9, pane_bottom: 4, window_width: 20, window_height: 10 };
    m.create_tmux_overlays(&pane, &WindowRect { left: 0, top: 0, right: 200, bottom: 200 }, &TerminalGeometry::new(10, 20, 0, 0)).unwrap();
    m.take_ops();
    m.hide_all();
    assert!(!m.inactive_surface("A").unwrap().visible);
    assert!(!m.active_surface("A").unwrap().visible);
    assert!(m.margin_surfaces("A").iter().all(|s| !s.visible));
    assert!(m.tmux_surfaces().iter().all(|s| !s.visible));
    let ops = m.take_ops();
    assert_eq!(ops.len(), 1 + 1 + 4 + 2);
    assert!(ops.iter().all(|op| matches!(op, SurfaceOp::Hide { .. })));
    m.show_all();
    assert!(m.margin_surfaces("A").iter().all(|s| s.visible));
    assert!(m.take_ops().iter().all(|op| matches!(op, SurfaceOp::Show { .. })));
}

#[test]
fn tmux_surfaces_follow_the_pane() {
    let mut m = OverlayManager::new(gray(), None);
    let pane = TmuxPaneInfo { pane_left: 0, pane_top: 0, pane_right: 59, pane_bottom: 29, window_width: 120, window_height: 30 };
    let w = WindowRect { left: 100, top: 100, right: 1300, bottom: 735 };
    m.create_tmux_overlays(&pane, &w, &TerminalGeometry::new(10, 20, 5, 35)).unwrap();
    assert_eq!(m.tmux_surfaces().len(), 1);
    assert_eq!(m.tmux_surfaces()[0].placement, place(705, 135, 600, 600));
    let invalid = TmuxPaneInfo { pane_left: -1, ..pane };
    m.create_tmux_overlays(&invalid, &w, &TerminalGeometry::new(10, 20, 5, 35)).unwrap();
    assert_eq!(m.tmux_surfaces().len(), 0);
    let huge = TerminalGeometry::new(100_000_000, 20, 5, 35);
    assert!(m.create_tmux_overlays(&pane, &w, &huge).is_err());
    m.clear_tmux_overlays();
}

#[test]
fn clearing_one_display_keeps_the_others() {
    let a = display("A", 0, 0, 1920, 1080);
    let b = display("B", 1920, 0, 1920, 1080);
    let mut m = OverlayManager::new(gray(), None);
    m.create_partial_overlays("A", WindowRect { left: 100, top: 100, right: 900, bottom: 700 }, &a).unwrap();
    m.create_partial_overlays("B", WindowRect { left: 2000, top: 0, right: 3840, bottom: 700 }, &b).unwrap();
    assert_eq!(m.margin_surfaces("B").len(), 2);
    m.clear_partial_overlays_for_display("A");
    assert!(m.margin_surfaces("A").is_empty());
    assert_eq!(m.margin_surfaces("B").len(), 2);
    m.clear_all_partial_overlays();
    assert!(m.margin_surfaces("B").is_empty());
}

#[test]
fn colors_apply_to_new_surfaces() {
    let d = display("A", 0, 0, 800, 600);
    let mut m = OverlayManager::new(gray(), None);
    m.update_inactive_color_only(OverlayColor::new(1, 2, 3, 4));
    m.create_inactive_overlays(&[d.clone()]);
    let ops = m.take_ops();
    assert!(matches!(ops[0], SurfaceOp::Create { color, .. } if color == OverlayColor::new(1, 2, 3, 4)));
    m.set_inactive_color(OverlayColor::new(9, 9, 9, 9), &[d.clone()]);
    let ops = m.take_ops();
    assert!(matches!(ops[0], SurfaceOp::Destroy { .. }));
    assert!(matches!(ops[1], SurfaceOp::Create { color, .. } if color == OverlayColor::new(9, 9, 9, 9)));
    m.set_active_color(Some(OverlayColor::new(5, 5, 5, 5)), &[d.clone()]);
    assert_eq!(m.active_count(), 1);
    m.set_active_color(None, &[d.clone()]);
    assert_eq!(m.active_count(), 0);
    m.update_active_color_only(Some(gray()));
    m.recreate_active_overlays(&[d.clone()]);
    assert_eq!(m.active_count(), 1);
    m.recreate_inactive_overlays(&[]);
    assert_eq!(m.inactive_count(), 0);
    m.close_active();
    m.close_inactive();
    assert_eq!(m.active_count(), 0);
}
