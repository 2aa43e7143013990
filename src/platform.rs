//! Snapshots of the display topology and of the focused window, and the queries
//! that produce them.

use vstd::prelude::*;

verus! {

/// One physical monitor: a stable id within one topology generation, a name,
/// its bounds in screen pixels, and whether it is the primary monitor.
#[derive(Debug, Clone)]
pub struct DisplayInfo {
    pub id: String,
    pub name: String,
    pub x: i32,
    pub y: i32,
    pub width: i32,
    pub height: i32,
    pub is_primary: bool,
}

/// The foreground window: its handle, the monitor it is on, the name of its
/// process and its title.
#[derive(Debug, Clone)]
pub struct ActiveWindowInfo {
    pub handle: u64,
    pub display_id: String,
    pub process_name: String,
    pub window_title: String,
}

/// A window's bounding rectangle in screen pixels; right and bottom exclusive.
#[derive(Debug, Clone, Copy, PartialEq, Eq, Structural)]
pub struct WindowRect {
    pub left: i32,
    pub top: i32,
    pub right: i32,
    pub bottom: i32,
}

/// Enumerates the monitors.
pub trait DisplayManager {
    fn get_displays(&self) -> Result<Vec<DisplayInfo>, String>;

    fn get_primary_display(&self) -> Result<DisplayInfo, String>;

    fn get_display_count(&self) -> Result<usize, String>;
}

/// Answers questions about the foreground window.
pub trait WindowManager {
    fn get_active_window(&self) -> Result<ActiveWindowInfo, String>;

    fn get_window_display(&self, window_handle: u64) -> Result<DisplayInfo, String>;

    fn get_window_rect(&self, window_handle: u64) -> Result<WindowRect, String>;

    fn is_window_maximized(&self, window_handle: u64) -> Result<bool, String>;
}

} // verus!
