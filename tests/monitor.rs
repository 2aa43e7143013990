use spotlight_dimmer::color::OverlayColor;
use spotlight_dimmer::geometry::TerminalGeometry;
use spotlight_dimmer::monitor::{contains, is_own_surface_title, step_sleep_ms, Monitor, Settings};
use spotlight_dimmer::overlay::{SurfaceKind, SurfaceOp};
use spotlight_dimmer::pane::TmuxPaneInfo;
use spotlight_dimmer::platform::{ActiveWindowInfo, DisplayInfo, WindowRect};
use spotlight_dimmer::signals::EventSignals;

fn display(id: &str, x: i32) -> DisplayInfo {
    DisplayInfo {
        id: id.to_string(),
        name: id.to_string(),
        x,
        y: 0,
        width: 1920,
        height: 1080,
        is_primary: x == 0,
    }
}

fn settings() -> Settings {
    Settings {
        inactive_color: OverlayColor::new(0, 0, 0, 127),
        active_color: None,
        is_dimming_enabled: true,
        is_active_overlay_enabled: false,
        is_partial_dimming_enabled: false,
        is_paused: false,
        is_tmux_mode_enabled: false,
        terminal_geometry: TerminalGeometry::new(10, 20, 0, 0),
        drag_start_ms: 150,
        drag_settle_ms: 200,
    }
}

fn window(handle: u64, display_id: &str, title: &str) -> ActiveWindowInfo {
    ActiveWindowInfo {
        handle,
        display_id: display_id.to_string(),
        process_name: "app.exe".to_string(),
        window_title: title.to_string(),
    }
}

#[test]
fn two_displays_focus_hides_only_the_focused_display() {
    let displays = vec![display("A", 0), display("B", 1920)];
    let mut m = Monitor::new(settings(), &displays);
    assert_eq!(m.overlays().inactive_count(), 2);
    assert_eq!(m.overlays().active_count(), 0);
    assert!(m.overlays().inactive_surface("A").unwrap().visible);
    assert!(m.overlays().inactive_surface("B").unwrap().visible);
    m.take_ops();

    assert!(m.on_active_window(&window(7, "A", "Editor")));
    assert!(!m.overlays().inactive_surface("A").unwrap().visible);
    assert!(m.overlays().inactive_surface("B").unwrap().visible);
    assert_eq!(m.last_window_handle(), Some(7));
    assert_eq!(m.take_ops().len(), 2);

    // same window again: nothing to do
    assert!(m.on_active_window(&window(7, "A", "Editor")));
    assert!(m.take_ops().is_empty());

    // the monitor's own surfaces are ignored
    assert!(!m.on_active_window(&window(9, "B", "Spotlight Dimmer Overlay Inactive B")));
    assert_eq!(m.last_window_handle(), Some(7));
}

#[test]
fn topology_change_recreated_at_final_check() {
    let two = vec![display("A", 0), display("B", 1920)];
    let three = vec![display("A", 0), display("B", 1920), display("C", 3840)];
    let mut signals = EventSignals::new();
    let mut m = Monitor::new(settings(), &two);
    m.take_ops();
    assert!(m.on_active_window(&window(1, "A", "Editor")));
    m.take_ops();

    signals.record_display_change(10_000);
    assert_eq!(signals.check_display_change_ready(10_499), None);
    assert_eq!(signals.check_display_change_ready(10_500), Some(false));
    // the fast check still sees two displays
    assert!(!m.on_display_check(false, &two));
    assert!(m.take_ops().is_empty());
    assert_eq!(signals.check_display_change_ready(12_000), None);
    assert_eq!(signals.check_display_change_ready(14_999), None);
    assert_eq!(signals.check_display_change_ready(15_000), Some(true));
    // the final check recreates, and the count did change by then
    assert!(m.on_display_check(true, &three));
    assert_eq!(m.overlays().inactive_count(), 3);
    assert_eq!(m.last_display_count(), 3);
    assert_eq!(m.last_window_handle(), None);
    let ops = m.take_ops();
    assert_eq!(ops.iter().filter(|op| matches!(op, SurfaceOp::Destroy { .. })).count(), 2);
    assert_eq!(ops.iter().filter(|op| matches!(op, SurfaceOp::Create { kind: SurfaceKind::Inactive, .. })).count(), 3);
    assert_eq!(signals.check_display_change_ready(100_000), None);
}

#[test]
fn final_check_recreates_even_without_count_change() {
    let two = vec![display("A", 0), display("B", 1920)];
    let mut m = Monitor::new(settings(), &two);
    m.take_ops();
    assert!(!m.on_display_check(false, &two));
    assert!(m.on_display_check(true, &two));
    assert_eq!(m.take_ops().len(), 4);
}

#[test]
fn new_signal_restarts_the_stabilization() {
    let mut s = EventSignals::new();
    assert_eq!(s.check_display_change_ready(1_000), None);
    s.record_display_change(1_000);
    assert_eq!(s.check_display_change_ready(1_600), Some(false));
    s.record_display_change(2_000);
    assert_eq!(s.check_display_change_ready(2_400), None);
    assert_eq!(s.check_display_change_ready(2_500), Some(false));
    assert_eq!(s.check_display_change_ready(6_999), None);
    assert_eq!(s.check_display_change_ready(7_000), Some(true));
    // a clock that went backwards counts as no time elapsed
    s.record_display_change(9_000);
    assert_eq!(s.check_display_change_ready(8_000), None);
}

#[test]
fn pause_hides_and_resume_shows() {
    let displays = vec![display("A", 0), display("B", 1920)];
    let mut m = Monitor::new(settings(), &displays);
    m.take_ops();
    assert!(!m.update_pause(false, None));
    assert!(m.take_ops().is_empty());
    assert!(m.update_pause(true, None));
    assert!(!m.overlays().inactive_surface("A").unwrap().visible);
    assert!(!m.overlays().inactive_surface("B").unwrap().visible);
    m.take_ops();
    let w = window(3, "B", "Browser");
    assert!(!m.update_pause(false, Some(&w)));
    assert!(m.overlays().inactive_surface("A").unwrap().visible);
    assert!(!m.overlays().inactive_surface("B").unwrap().visible);
}

#[test]
fn starting_paused_hides_everything() {
    let mut s = settings();
    s.is_paused = true;
    let m = Monitor::new(s, &[display("A", 0)]);
    assert!(!m.overlays().inactive_surface("A").unwrap().visible);
}

#[test]
fn settings_changes_apply_only_the_deltas() {
    let displays = vec![display("A", 0), display("B", 1920)];
    let mut m = Monitor::new(settings(), &displays);
    m.take_ops();

    // unchanged snapshot: nothing happens
    assert_eq!(m.apply_settings(settings(), Some(&displays), None), None);
    assert!(m.take_ops().is_empty());

    // turning dimming off closes the inactive surfaces
    let mut s = settings();
    s.is_dimming_enabled = false;
    assert_eq!(m.apply_settings(s, Some(&displays), None), None);
    assert_eq!(m.overlays().inactive_count(), 0);
    assert!(m.all_overlays_disabled());

    // an active color with the active overlay on creates active surfaces
    let mut s2 = s;
    s2.active_color = Some(OverlayColor::new(255, 255, 255, 30));
    s2.is_active_overlay_enabled = true;
    s2.is_paused = true;
    let w = window(5, "B", "Mail");
    assert_eq!(m.apply_settings(s2, Some(&displays), Some(&w)), Some(true));
    assert_eq!(m.overlays().active_count(), 2);
    assert!(m.overlays().active_surface("B").unwrap().visible);
    assert!(!m.overlays().active_surface("A").unwrap().visible);
    assert_eq!(m.settings(), s2);

    // a new inactive color while dimming is off is kept for later
    let mut s3 = s2;
    s3.inactive_color = OverlayColor::new(9, 9, 9, 9);
    m.take_ops();
    m.apply_settings(s3, Some(&displays), None);
    assert!(m.take_ops().is_empty());
    assert_eq!(m.overlays().inactive_count(), 0);
}

#[test]
fn partial_dimming_tracks_the_window() {
    let a = display("A", 0);
    let mut s = settings();
    s.is_partial_dimming_enabled = true;
    s.is_active_overlay_enabled = true;
    s.active_color = Some(OverlayColor::new(255, 255, 255, 30));
    let mut m = Monitor::new(s, &[a.clone()]);
    let w = window(1, "A", "Editor");
    assert!(m.on_active_window(&w));
    m.take_ops();

    let r1 = WindowRect { left: 100, top: 100, right: 900, bottom: 700 };
    m.on_window_geometry(&w, Some(r1), Some(&a), false, 1000);
    assert_eq!(m.last_window_rect(), Some(r1));
    assert_eq!(m.overlays().margin_surfaces("A").len(), 4);
    let active = m.overlays().active_surface("A").unwrap().placement;
    assert_eq!((active.x, active.y, active.width, active.height), (100, 100, 800, 600));
    m.take_ops();

    // same rectangle: nothing
    m.on_window_geometry(&w, Some(r1), Some(&a), false, 2000);
    assert!(m.take_ops().is_empty());

    // moved: one batched move of the margins and the active surface
    let r2 = WindowRect { left: 120, top: 100, right: 920, bottom: 700 };
    m.on_window_geometry(&w, Some(r2), Some(&a), false, 3000);
    let ops = m.take_ops();
    assert_eq!(ops.len(), 1);
    assert!(matches!(&ops[0], SurfaceOp::Reposition { moves } if moves.len() == 5));

    // maximized: margins go, the active surface covers the display
    let r3 = WindowRect { left: -8, top: -8, right: 1928, bottom: 1088 };
    m.on_window_geometry(&w, Some(r3), Some(&a), true, 4000);
    assert!(m.overlays().margin_surfaces("A").is_empty());
    let active = m.overlays().active_surface("A").unwrap().placement;
    assert_eq!((active.x, active.y, active.width, active.height), (0, 0, 1920, 1080));

    // switching partial dimming off clears what is left
    let mut off = s;
    off.is_partial_dimming_enabled = false;
    m.apply_settings(off, Some(&[a.clone()]), Some(&w));
    assert_eq!(m.last_window_rect(), None);
}

#[test]
fn display_switch_clears_margins() {
    let a = display("A", 0);
    let b = display("B", 1920);
    let mut s = settings();
    s.is_partial_dimming_enabled = true;
    let mut m = Monitor::new(s, &[a.clone(), b.clone()]);
    let w = window(1, "A", "Editor");
    m.on_active_window(&w);
    m.on_window_geometry(&w, Some(WindowRect { left: 100, top: 100, right: 900, bottom: 700 }), Some(&a), false, 5000);
    assert_eq!(m.overlays().margin_surfaces("A").len(), 4);
    let moved = window(1, "B", "Editor");
    m.on_active_window(&moved);
    assert!(m.overlays().margin_surfaces("A").is_empty());
    assert_eq!(m.last_window_rect(), None);
    m.on_no_active_window();
    assert_eq!(m.last_window_handle(), None);
    m.shutdown();
    assert_eq!(m.overlays().inactive_count(), 0);
}

#[test]
fn terminal_panes_follow_focus_and_pane_changes() {
    let mut s = settings();
    s.is_tmux_mode_enabled = true;
    let mut m = Monitor::new(s, &[display("A", 0)]);
    assert!(m.needs_pane_read(false));
    assert!(m.on_terminal_focus(Some(true)));
    let pane = TmuxPaneInfo { pane_left: 0, pane_top: 0, pane_right: 59, pane_bottom: 29, window_width: 120, window_height: 30 };
    let rect = WindowRect { left: 0, top: 0, right: 1200, bottom: 600 };
    m.on_pane_info(pane, Some(rect));
    assert_eq!(m.overlays().tmux_surfaces().len(), 1);
    assert!(!m.needs_pane_read(false));
    assert!(m.needs_pane_read(true));
    m.take_ops();
    m.on_pane_info(pane, Some(rect));
    assert!(m.take_ops().is_empty());
    assert!(!m.on_terminal_focus(Some(false)));
    assert_eq!(m.overlays().tmux_surfaces().len(), 0);
    assert!(m.needs_pane_read(false));
}

#[test]
fn own_surfaces_are_recognised_by_title() {
    assert!(is_own_surface_title("Spotlight Dimmer Overlay Partial 0x1 Top"));
    assert!(!is_own_surface_title("Spotlight Dimmer"));
    assert!(contains("abc", ""));
    assert!(contains("abcabd", "abd"));
    assert!(!contains("ab", "abc"));
}

#[test]
fn quick_changes_start_a_drag_that_ends_when_stable() {
    let a = display("A", 0);
    let mut s = settings();
    s.is_partial_dimming_enabled = true;
    s.is_active_overlay_enabled = true;
    s.active_color = Some(OverlayColor::new(255, 255, 255, 30));
    let mut m = Monitor::new(s, &[a.clone()]);
    let w = window(1, "A", "Editor");
    m.on_active_window(&w);
    let r1 = WindowRect { left: 100, top: 100, right: 900, bottom: 700 };
    m.on_window_geometry(&w, Some(r1), Some(&a), false, 10_000);
    assert_eq!(m.overlays().margin_surfaces("A").len(), 4);
    m.take_ops();

    // a second change 40 ms later starts a drag
    let r2 = WindowRect { left: 130, top: 100, right: 930, bottom: 700 };
    m.on_window_geometry(&w, Some(r2), Some(&a), false, 10_040);
    assert!(m.overlays().margin_surfaces("A").is_empty());
    let full = m.overlays().active_surface("A").unwrap().placement;
    assert_eq!((full.x, full.y, full.width, full.height), (0, 0, 1920, 1080));
    m.take_ops();

    // more movement while dragging does no surface work
    let r3 = WindowRect { left: 160, top: 100, right: 960, bottom: 700 };
    m.on_window_geometry(&w, Some(r3), Some(&a), false, 10_300);
    assert!(m.take_ops().is_empty());
    // not yet stable long enough
    m.on_window_geometry(&w, Some(r3), Some(&a), false, 10_450);
    assert!(m.take_ops().is_empty());
    // stable for 200 ms: margins rebuilt at the final rectangle
    m.on_window_geometry(&w, Some(r3), Some(&a), false, 10_500);
    let margins = m.overlays().margin_surfaces("A");
    assert_eq!(margins.len(), 4);
    assert_eq!(margins[2].placement.width, 160);
    let active = m.overlays().active_surface("A").unwrap().placement;
    assert_eq!((active.x, active.width), (160, 800));
    // and the next isolated change is an ordinary in-place move
    let r4 = WindowRect { left: 170, top: 100, right: 970, bottom: 700 };
    m.take_ops();
    m.on_window_geometry(&w, Some(r4), Some(&a), false, 20_000);
    let ops = m.take_ops();
    assert_eq!(ops.len(), 1);
    assert!(matches!(&ops[0], SurfaceOp::Reposition { moves } if moves.len() == 5));
}

#[test]
fn sleep_adapts_to_activity() {
    assert_eq!(step_sleep_ms(0), 50);
    assert_eq!(step_sleep_ms(1_999), 50);
    assert_eq!(step_sleep_ms(2_000), 200);
}
