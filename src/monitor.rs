//! The decisions of the monitoring loop. The loop itself (sleeping, draining
//! notifications, querying the system, carrying out surface operations) runs
//! outside; each step here takes what was observed and updates the tracked
//! state and the overlay surfaces.

use vstd::prelude::*;
use crate::color::OverlayColor;
use crate::geometry::TerminalGeometry;
use crate::overlay::{
    same_text,
    active_closed, active_color_set, active_created, active_recolored, active_recreated,
    active_resized, active_restored, after_close_all, all_hidden, all_shown, fresh_view,
    inactive_closed, inactive_color_set, inactive_created, inactive_recolored, partial_cleared,
    partial_created, partial_moved, partial_moved_alone, tmux_cleared, tmux_created,
    visibility_updated, display_partial_cleared, ManagerView, OverlayManager, SurfaceOp,
};
use crate::pane::TmuxPaneInfo;
use crate::platform::{ActiveWindowInfo, DisplayInfo, WindowRect};
use vstd::string::StrSliceExecFns;

verus! {

/// Sleep between steps shortly after activity.
pub const ACTIVE_SLEEP_MS: u64 = 50;

/// Sleep between steps when nothing happened for `IDLE_AFTER_MS`.
pub const IDLE_SLEEP_MS: u64 = 200;

/// How long without activity counts as idle.
pub const IDLE_AFTER_MS: u64 = 2000;

/// Sleep between steps while paused or with every overlay switched off.
pub const QUIET_SLEEP_MS: u64 = 400;

/// How long to sleep before the next step, `since_activity_ms` after the last
/// detected change: short while things move, longer when idle.
pub fn step_sleep_ms(since_activity_ms: u64) -> (r: u64)
    ensures
        r == (if since_activity_ms < IDLE_AFTER_MS {
            ACTIVE_SLEEP_MS
        } else {
            IDLE_SLEEP_MS
        }),
{
    if since_activity_ms < IDLE_AFTER_MS {
        ACTIVE_SLEEP_MS
    } else {
        IDLE_SLEEP_MS
    }
}

/// The fields of the configuration that the monitor acts on.
#[derive(Debug, Clone, Copy, PartialEq, Eq, Structural)]
pub struct Settings {
    pub inactive_color: OverlayColor,
    pub active_color: Option<OverlayColor>,
    pub is_dimming_enabled: bool,
    pub is_active_overlay_enabled: bool,
    pub is_partial_dimming_enabled: bool,
    pub is_paused: bool,
    pub is_tmux_mode_enabled: bool,
    pub terminal_geometry: TerminalGeometry,
    /// Two changes of the focused window's rectangle less than this many
    /// milliseconds apart start a drag.
    pub drag_start_ms: u64,
    /// A drag ends once the rectangle has been stable this many milliseconds.
    pub drag_settle_ms: u64,
}

/// Text that every overlay surface's title holds, so that the monitor can tell
/// its own surfaces from the user's windows.
pub open spec fn own_title_mark() -> Seq<char> {
    "Spotlight Dimmer Overlay"@
}

/// Whether `needle` occurs in `hay`.
pub open spec fn contains_text(hay: Seq<char>, needle: Seq<char>) -> bool {
    exists|i: int| 0 <= i <= hay.len() - needle.len() && #[trigger] hay.subrange(i, i + needle.len()) == needle
}

/// Whether `needle` occurs in `hay`.
pub fn contains(hay: &str, needle: &str) -> (r: bool)
    ensures
        r == contains_text(hay@, needle@),
{
    let n = hay.unicode_len();
    let m = needle.unicode_len();
    if m > n {
        return false;
    }
    if m == 0 {
        assert(hay@.subrange(0int, 0int + needle@.len()) =~= needle@);
        return true;
    }
    let mut i: usize = 0;
    while i <= n - m
        invariant
            1 <= m <= n,
            n == hay@.len(),
            m == needle@.len(),
            forall|j: int| 0 <= j < i ==> #[trigger] hay@.subrange(j, j + m) != needle@,
        decreases n - m + 1 - i,
    {
        let mut k: usize = 0;
        let mut same = true;
        assert(hay@.subrange(i as int, i as int) =~= needle@.subrange(0, 0));
        while k < m
            invariant
                k <= m,
                i + m <= n,
                n == hay@.len(),
                m == needle@.len(),
                same == (hay@.subrange(i as int, i + k) == needle@.subrange(0, k as int)),
            decreases m - k,
        {
            if same {
                let equal = hay.get_char(i + k) == needle.get_char(k);
                if !equal {
                    assert(hay@.subrange(i as int, i + k + 1)[k as int] != needle@.subrange(0, k + 1)[k as int]);
                }
                same = equal;
                if same {
                    assert(hay@.subrange(i as int, i + k + 1) =~= hay@.subrange(i as int, i + k).push(hay@[i + k]));
                    assert(needle@.subrange(0, k + 1) =~= needle@.subrange(0, k as int).push(needle@[k as int]));
                }
            } else {
                assert(hay@.subrange(i as int, i + k + 1).subrange(0, k as int) =~= hay@.subrange(i as int, i + k));
                assert(needle@.subrange(0, k + 1).subrange(0, k as int) =~= needle@.subrange(0, k as int));
            }
            k = k + 1;
        }
        assert(needle@.subrange(0, m as int) =~= needle@);
        if same {
            return true;
        }
        i = i + 1;
        assert forall|j: int| 0 <= j < i implies #[trigger] hay@.subrange(j, j + m) != needle@ by {
            if j == i - 1 {
                assert(!same);
            }
        }
    }
    false
}

/// Whether a window with this title is one of the overlay surfaces.
pub fn is_own_surface_title(title: &str) -> (r: bool)
    ensures
        r == contains_text(title@, own_title_mark()),
{
    contains(title, "Spotlight Dimmer Overlay")
}


/// The state the monitor tracks between steps, and the overlay surfaces.
#[derive(Debug)]
pub struct Monitor {
    overlays: OverlayManager,
    settings: Settings,
    last_window_handle: Option<u64>,
    last_display_id: Option<String>,
    last_display_count: usize,
    last_window_rect: Option<WindowRect>,
    last_paused: bool,
    last_tmux_pane: Option<TmuxPaneInfo>,
    last_geometry_change: Option<u64>,
    dragging: bool,
}

/// What a `Monitor` holds: the surfaces, the settings in force, and what was
/// last seen of the focused window, its display, the number of displays, the
/// pause flag and the multiplexer pane; when the focused window's rectangle
/// last changed, and whether it is being dragged.
pub ghost struct MonitorView {
    pub overlays: ManagerView,
    pub settings: Settings,
    pub last_window_handle: Option<u64>,
    pub last_display_id: Option<Seq<char>>,
    pub last_display_count: usize,
    pub last_window_rect: Option<WindowRect>,
    pub last_paused: bool,
    pub last_tmux_pane: Option<TmuxPaneInfo>,
    pub last_geometry_change: Option<u64>,
    pub dragging: bool,
}

pub open spec fn text_of(o: Option<String>) -> Option<Seq<char>> {
    match o {
        Some(s) => Some(s@),
        None => None,
    }
}

impl View for Monitor {
    type V = MonitorView;

    closed spec fn view(&self) -> MonitorView {
        MonitorView {
            overlays: self.overlays@,
            settings: self.settings,
            last_window_handle: self.last_window_handle,
            last_display_id: text_of(self.last_display_id),
            last_display_count: self.last_display_count,
            last_window_rect: self.last_window_rect,
            last_paused: self.last_paused,
            last_tmux_pane: self.last_tmux_pane,
            last_geometry_change: self.last_geometry_change,
            dragging: self.dragging,
        }
    }
}

/// One way of starting: the inactive surfaces created if dimming is on (`a`),
/// then the active ones if that overlay is on (`b`), then everything hidden if
/// paused (`m`).
pub open spec fn start_path(s: Settings, ds: Seq<DisplayInfo>, a: ManagerView, b: ManagerView, m: ManagerView) -> bool {
    &&& if s.is_dimming_enabled {
        inactive_created(fresh_view(s.inactive_color, s.active_color), a, ds)
    } else {
        a == fresh_view(s.inactive_color, s.active_color)
    }
    &&& if s.is_active_overlay_enabled {
        active_created(a, b, ds)
    } else {
        b == a
    }
    &&& if s.is_paused {
        all_hidden(b, m)
    } else {
        m == b
    }
}

/// Recreating after a topology change: the inactive surfaces if dimming is on
/// (`a`), then the active ones if that overlay is on (`m`).
pub open spec fn recreate_path(s: Settings, ds: Seq<DisplayInfo>, before: ManagerView, a: ManagerView, m: ManagerView) -> bool {
    &&& if s.is_dimming_enabled {
        inactive_created(before, a, ds)
    } else {
        a == before
    }
    &&& if s.is_active_overlay_enabled {
        active_recreated(a, m, ds)
    } else {
        m == a
    }
}

/// After a display switch or a re-check, the display to show is the one last
/// seen, else that of the focused window if one is known (which becomes the
/// one last seen).
pub open spec fn visibility_refreshed(
    before: ManagerView,
    after: ManagerView,
    id_before: Option<Seq<char>>,
    id_after: Option<Seq<char>>,
    active: Option<Seq<char>>,
) -> bool {
    match id_before {
        Some(id) => visibility_updated(before, after, id) && id_after == id_before,
        None => match active {
            Some(id) => visibility_updated(before, after, id) && id_after == Some(id),
            None => after == before && id_after == id_before,
        },
    }
}

/// With dimming off: the inactive surfaces closed if the flag flipped (`mid`),
/// then the new color kept for later if it changed (`after`).
pub open spec fn inactive_off_path(
    before: ManagerView,
    mid: ManagerView,
    after: ManagerView,
    old_s: Settings,
    new_s: Settings,
) -> bool {
    &&& if old_s.is_dimming_enabled != new_s.is_dimming_enabled {
        inactive_closed(before, mid)
    } else {
        mid == before
    }
    &&& if old_s.inactive_color != new_s.inactive_color {
        inactive_color_set(mid, after, new_s.inactive_color)
    } else {
        after == mid
    }
}

/// The same for the active surfaces.
pub open spec fn active_off_path(
    before: ManagerView,
    mid: ManagerView,
    after: ManagerView,
    old_s: Settings,
    new_s: Settings,
) -> bool {
    &&& if old_s.is_active_overlay_enabled != new_s.is_active_overlay_enabled {
        active_closed(before, mid)
    } else {
        mid == before
    }
    &&& if old_s.active_color != new_s.active_color {
        active_color_set(mid, after, new_s.active_color)
    } else {
        after == mid
    }
}

/// How a new inactive color or dimming flag is applied: with dimming on, the
/// surfaces are recreated in the new color (if the displays could be
/// enumerated) and visibility refreshed; with it off, the surfaces are closed
/// if the flag flipped and the color kept for later.
pub open spec fn inactive_settings_applied(
    before: ManagerView,
    after: ManagerView,
    id_before: Option<Seq<char>>,
    id_after: Option<Seq<char>>,
    old_s: Settings,
    new_s: Settings,
    displays: Option<Seq<DisplayInfo>>,
    active: Option<Seq<char>>,
) -> bool {
    let flag_changed = old_s.is_dimming_enabled != new_s.is_dimming_enabled;
    let color_changed = old_s.inactive_color != new_s.inactive_color;
    if !(flag_changed || color_changed) {
        after == before && id_after == id_before
    } else if new_s.is_dimming_enabled {
        match displays {
            Some(ds) => exists|mid: ManagerView|
                inactive_recolored(before, mid, new_s.inactive_color, ds) && #[trigger] visibility_refreshed(
                    mid,
                    after,
                    id_before,
                    id_after,
                    active,
                ),
            None => after == before && id_after == id_before,
        }
    } else {
        &&& id_after == id_before
        &&& exists|mid: ManagerView|
            #[trigger] inactive_off_path(before, mid, after, old_s, new_s)
    }
}

/// The same for the active color and the active-overlay flag.
pub open spec fn active_settings_applied(
    before: ManagerView,
    after: ManagerView,
    id_before: Option<Seq<char>>,
    id_after: Option<Seq<char>>,
    old_s: Settings,
    new_s: Settings,
    displays: Option<Seq<DisplayInfo>>,
    active: Option<Seq<char>>,
) -> bool {
    let flag_changed = old_s.is_active_overlay_enabled != new_s.is_active_overlay_enabled;
    let color_changed = old_s.active_color != new_s.active_color;
    if !(flag_changed || color_changed) {
        after == before && id_after == id_before
    } else if new_s.is_active_overlay_enabled {
        match displays {
            Some(ds) => exists|mid: ManagerView|
                active_recolored(before, mid, new_s.active_color, ds) && #[trigger] visibility_refreshed(
                    mid,
                    after,
                    id_before,
                    id_after,
                    active,
                ),
            None => after == before && id_after == id_before,
        }
    } else {
        &&& id_after == id_before
        &&& exists|mid: ManagerView|
            #[trigger] active_off_path(before, mid, after, old_s, new_s)
    }
}

/// Applying new settings: the inactive category (giving `a` and the display
/// last seen `id_mid`), then the active one (giving `b`), then the margins.
pub open spec fn settings_path(
    before: MonitorView,
    after: MonitorView,
    new_s: Settings,
    displays: Option<Seq<DisplayInfo>>,
    active: Option<Seq<char>>,
    a: ManagerView,
    b: ManagerView,
    id_mid: Option<Seq<char>>,
) -> bool {
    &&& inactive_settings_applied(
        before.overlays,
        a,
        before.last_display_id,
        id_mid,
        before.settings,
        new_s,
        displays,
        active,
    )
    &&& active_settings_applied(
        a,
        b,
        id_mid,
        after.last_display_id,
        before.settings,
        new_s,
        displays,
        active,
    )
    &&& if before.settings.is_partial_dimming_enabled != new_s.is_partial_dimming_enabled
        && !new_s.is_partial_dimming_enabled {
        partial_cleared(b, after.overlays) && after.last_window_rect is None
    } else {
        after.overlays == b && after.last_window_rect == before.last_window_rect
    }
}

/// Following a changed window rectangle `w` on display `d`: the in-place
/// update first (`mid`, result `r1`), and only where it did not succeed the
/// margins recreated (`m2`, result `r2`) and the active surface sized to the
/// window, or to the display for a maximized window (result `r3`).
pub open spec fn geometry_path(
    s: Settings,
    before: ManagerView,
    after: ManagerView,
    id: Seq<char>,
    w: WindowRect,
    d: DisplayInfo,
    is_maximized: bool,
    mid: ManagerView,
    r1: Result<bool, String>,
    m2: ManagerView,
    r2: Result<(), String>,
    r3: Result<(), String>,
) -> bool {
    &&& if s.is_active_overlay_enabled {
        partial_moved(before, mid, id, w, d, true, is_maximized, r1)
    } else {
        partial_moved_alone(before, mid, id, w, d, r1)
    }
    &&& if r1 == Ok::<bool, String>(true) {
        after == mid
    } else {
        rebuild_path(s, mid, after, id, w, d, is_maximized, m2, r2, r3)
    }
}

/// Rebuilding the margins of display `d` around window `w` (`m2`, result
/// `r2`), then sizing the active surface to the window, or to the display for
/// a maximized window (result `r3`), where that overlay is on.
pub open spec fn rebuild_path(
    s: Settings,
    before: ManagerView,
    after: ManagerView,
    id: Seq<char>,
    w: WindowRect,
    d: DisplayInfo,
    is_maximized: bool,
    m2: ManagerView,
    r2: Result<(), String>,
    r3: Result<(), String>,
) -> bool {
    &&& partial_created(before, m2, id, w, d, r2)
    &&& if !s.is_active_overlay_enabled {
        after == m2
    } else if is_maximized {
        active_restored(m2, after, id, d, r3)
    } else {
        active_resized(m2, after, id, w, r3)
    }
}

/// Entering a drag on display `d`: its margins cleared (`mid`), and the active
/// surface widened to the whole display (result `r`) where that overlay is on.
pub open spec fn drag_enter_path(
    s: Settings,
    before: ManagerView,
    after: ManagerView,
    id: Seq<char>,
    d: DisplayInfo,
    mid: ManagerView,
    r: Result<(), String>,
) -> bool {
    &&& display_partial_cleared(before, mid, id)
    &&& if s.is_active_overlay_enabled {
        active_restored(mid, after, id, d, r)
    } else {
        after == mid
    }
}

/// Milliseconds from `from` to `now`; none where the clock went back.
pub open spec fn elapsed(now: u64, from: u64) -> int {
    if now >= from {
        now - from
    } else {
        0
    }
}

/// Partial dimming switched off: the margins cleared (`mid`), then the active
/// surface restored to its display (result `r`) where that overlay is on and
/// the display is known.
pub open spec fn partial_off_path(
    s: Settings,
    before: ManagerView,
    mid: ManagerView,
    after: ManagerView,
    id: Seq<char>,
    display: Option<&DisplayInfo>,
    r: Result<(), String>,
) -> bool {
    &&& partial_cleared(before, mid)
    &&& match display {
        Some(d) => if s.is_active_overlay_enabled {
            active_restored(mid, after, id, *d, r)
        } else {
            after == mid
        },
        None => after == mid,
    }
}

/// Losing the focused window: the margins cleared if partial dimming is on
/// (`mid`), then the pane surfaces if a pane was seen.
pub open spec fn clear_path(before: MonitorView, mid: ManagerView, after: ManagerView) -> bool {
    &&& if before.settings.is_partial_dimming_enabled {
        partial_cleared(before.overlays, mid)
    } else {
        mid == before.overlays
    }
    &&& if before.last_tmux_pane is Some {
        tmux_cleared(mid, after)
    } else {
        after == mid
    }
}

pub open spec fn displays_seq(d: Option<&[DisplayInfo]>) -> Option<Seq<DisplayInfo>> {
    match d {
        Some(ds) => Some(ds@),
        None => None,
    }
}

pub open spec fn display_text(a: Option<&ActiveWindowInfo>) -> Option<Seq<char>> {
    match a {
        Some(w) => Some(w.display_id@),
        None => None,
    }
}

impl Monitor {
    /// Starts monitoring `displays` with `settings`: the enabled surface
    /// categories are created, and hidden at once if paused.
    pub fn new(settings: Settings, displays: &[DisplayInfo]) -> (m: Self)
        ensures
            m@.settings == settings,
            m@.last_window_handle is None,
            m@.last_display_id is None,
            m@.last_display_count == displays@.len(),
            m@.last_window_rect is None,
            m@.last_paused == settings.is_paused,
            m@.last_tmux_pane is None,
            m@.last_geometry_change is None,
            !m@.dragging,
            exists|a: ManagerView, b: ManagerView| #[trigger] start_path(settings, displays@, a, b, m@.overlays),
    {
        let mut overlays = OverlayManager::new(settings.inactive_color, settings.active_color);
        if settings.is_dimming_enabled {
            overlays.create_inactive_overlays(displays);
        }
        let ghost a = overlays@;
        if settings.is_active_overlay_enabled {
            overlays.create_active_overlays(displays);
        }
        let ghost b = overlays@;
        if settings.is_paused {
            overlays.hide_all();
        }
        let m = Monitor {
            overlays,
            settings,
            last_window_handle: None,
            last_display_id: None,
            last_display_count: displays.len(),
            last_window_rect: None,
            last_paused: settings.is_paused,
            last_tmux_pane: None,
            last_geometry_change: None,
            dragging: false,
        };
        assert(start_path(settings, displays@, a, b, m@.overlays));
        m
    }

    /// The overlay surfaces.
    pub fn overlays(&self) -> (r: &OverlayManager)
        ensures
            r@ == self@.overlays,
    {
        &self.overlays
    }

    /// Hands over the surface operations queued so far, oldest first.
    pub fn take_ops(&mut self) -> (ops: Vec<SurfaceOp>)
        ensures
            ops@ == old(self)@.overlays.pending,
            final(self)@ == (MonitorView {
                overlays: ManagerView { pending: Seq::empty(), ..old(self)@.overlays },
                ..old(self)@
            }),
    {
        self.overlays.take_ops()
    }

    /// Follows the pause flag: on entering pause every surface is hidden, on
    /// leaving it every surface is shown and visibility set for the focused
    /// window's display, if one is known. Gives whether the monitor is paused
    /// (the rest of the step is then skipped).
    pub fn update_pause(&mut self, paused: bool, active: Option<&ActiveWindowInfo>) -> (r: bool)
        ensures
            r == paused,
            paused == old(self)@.last_paused ==> final(self)@ == old(self)@,
            paused != old(self)@.last_paused ==> {
                &&& final(self)@ == (MonitorView {
                    overlays: final(self)@.overlays,
                    last_paused: paused,
                    ..old(self)@
                })
                &&& paused ==> all_hidden(old(self)@.overlays, final(self)@.overlays)
                &&& !paused ==> exists|mid: ManagerView|
                    #[trigger] all_shown(old(self)@.overlays, mid) && match active {
                        Some(a) => visibility_updated(mid, final(self)@.overlays, a.display_id@),
                        None => final(self)@.overlays == mid,
                    }
            },
    {
        if paused != self.last_paused {
            self.last_paused = paused;
            if paused {
                self.overlays.hide_all();
            } else {
                self.overlays.show_all();
                let ghost mid = self.overlays@;
                match active {
                    Some(a) => {
                        self.overlays.update_visibility(a.display_id.as_str());
                    },
                    None => {},
                }
                assert(all_shown(old(self)@.overlays, mid));
            }
        }
        paused
    }

    /// Shows the display last seen, else that of `active`, which then becomes
    /// the display last seen.
    fn refresh_visibility(&mut self, active: Option<&ActiveWindowInfo>)
        ensures
            visibility_refreshed(
                old(self)@.overlays,
                final(self)@.overlays,
                old(self)@.last_display_id,
                final(self)@.last_display_id,
                display_text(active),
            ),
            final(self)@ == (MonitorView {
                overlays: final(self)@.overlays,
                last_display_id: final(self)@.last_display_id,
                ..old(self)@
            }),
    {
        match &self.last_display_id {
            Some(id) => {
                let id = id.clone();
                self.overlays.update_visibility(id.as_str());
            },
            None => match active {
                Some(a) => {
                    self.overlays.update_visibility(a.display_id.as_str());
                    self.last_display_id = Some(a.display_id.clone());
                },
                None => {},
            },
        }
    }

    fn apply_inactive_settings(&mut self, new_s: Settings, displays: Option<&[DisplayInfo]>, active: Option<&ActiveWindowInfo>)
        ensures
            inactive_settings_applied(
                old(self)@.overlays,
                final(self)@.overlays,
                old(self)@.last_display_id,
                final(self)@.last_display_id,
                old(self)@.settings,
                new_s,
                displays_seq(displays),
                display_text(active),
            ),
            final(self)@ == (MonitorView {
                overlays: final(self)@.overlays,
                last_display_id: final(self)@.last_display_id,
                ..old(self)@
            }),
    {
        let old_s = self.settings;
        let flag_changed = old_s.is_dimming_enabled != new_s.is_dimming_enabled;
        let color_changed = old_s.inactive_color != new_s.inactive_color;
        if !(flag_changed || color_changed) {
            return;
        }
        if new_s.is_dimming_enabled {
            match displays {
                Some(ds) => {
                    self.overlays.set_inactive_color(new_s.inactive_color, ds);
                    let ghost mid = self.overlays@;
                    let ghost id_before = self@.last_display_id;
                    self.refresh_visibility(active);
                    assert(visibility_refreshed(mid, self@.overlays, id_before, self@.last_display_id, display_text(active)));
                    assert(inactive_settings_applied(
                        old(self)@.overlays,
                        self@.overlays,
                        old(self)@.last_display_id,
                        self@.last_display_id,
                        old(self)@.settings,
                        new_s,
                        displays_seq(displays),
                        display_text(active),
                    ));
                },
                None => {},
            }
        } else {
            if flag_changed {
                self.overlays.close_inactive();
            }
            let ghost mid = self.overlays@;
            if color_changed {
                self.overlays.update_inactive_color_only(new_s.inactive_color);
            }
            assert(inactive_off_path(old(self)@.overlays, mid, self@.overlays, old_s, new_s));
            assert(inactive_settings_applied(
                old(self)@.overlays,
                self@.overlays,
                old(self)@.last_display_id,
                self@.last_display_id,
                old(self)@.settings,
                new_s,
                displays_seq(displays),
                display_text(active),
            ));
        }
    }

    fn apply_active_settings(&mut self, new_s: Settings, displays: Option<&[DisplayInfo]>, active: Option<&ActiveWindowInfo>)
        ensures
            active_settings_applied(
                old(self)@.overlays,
                final(self)@.overlays,
                old(self)@.last_display_id,
                final(self)@.last_display_id,
                old(self)@.settings,
                new_s,
                displays_seq(displays),
                display_text(active),
            ),
            final(self)@ == (MonitorView {
                overlays: final(self)@.overlays,
                last_display_id: final(self)@.last_display_id,
                ..old(self)@
            }),
    {
        let old_s = self.settings;
        let flag_changed = old_s.is_active_overlay_enabled != new_s.is_active_overlay_enabled;
        let color_changed = old_s.active_color != new_s.active_color;
        if !(flag_changed || color_changed) {
            return;
        }
        if new_s.is_active_overlay_enabled {
            match displays {
                Some(ds) => {
                    self.overlays.set_active_color(new_s.active_color, ds);
                    let ghost mid = self.overlays@;
                    let ghost id_before = self@.last_display_id;
                    self.refresh_visibility(active);
                    assert(visibility_refreshed(mid, self@.overlays, id_before, self@.last_display_id, display_text(active)));
                    assert(active_settings_applied(
                        old(self)@.overlays,
                        self@.overlays,
                        old(self)@.last_display_id,
                        self@.last_display_id,
                        old(self)@.settings,
                        new_s,
                        displays_seq(displays),
                        display_text(active),
                    ));
                },
                None => {},
            }
        } else {
            if flag_changed {
                self.overlays.close_active();
            }
            let ghost mid = self.overlays@;
            if color_changed {
                self.overlays.update_active_color_only(new_s.active_color);
            }
            assert(active_off_path(old(self)@.overlays, mid, self@.overlays, old_s, new_s));
            assert(active_settings_applied(
                old(self)@.overlays,
                self@.overlays,
                old(self)@.last_display_id,
                self@.last_display_id,
                old(self)@.settings,
                new_s,
                displays_seq(displays),
                display_text(active),
            ));
        }
    }

    /// Applies a new configuration snapshot field by field against the one in
    /// force: the inactive category, then the active one, each recreated in a
    /// new color or closed when switched off; the margins cleared when partial
    /// dimming is switched off. `displays` is the current enumeration (`None`
    /// where it failed), `active` the focused window if known. Gives the new
    /// pause flag where the snapshot changes it.
    pub fn apply_settings(&mut self, new_s: Settings, displays: Option<&[DisplayInfo]>, active: Option<&ActiveWindowInfo>) -> (r: Option<bool>)
        ensures
            r == (if old(self)@.settings.is_paused != new_s.is_paused {
                Some(new_s.is_paused)
            } else {
                None
            }),
            final(self)@.settings == new_s,
            final(self)@.last_window_handle == old(self)@.last_window_handle,
            final(self)@.last_display_count == old(self)@.last_display_count,
            final(self)@.last_paused == old(self)@.last_paused,
            final(self)@.last_tmux_pane == old(self)@.last_tmux_pane,
            exists|a: ManagerView, b: ManagerView, id_mid: Option<Seq<char>>|
                #[trigger] settings_path(old(self)@, final(self)@, new_s, displays_seq(displays), display_text(active), a, b, id_mid),
    {
        let r = if self.settings.is_paused != new_s.is_paused {
            Some(new_s.is_paused)
        } else {
            None
        };
        self.apply_inactive_settings(new_s, displays, active);
        let ghost a = self@.overlays;
        let ghost id_mid = self@.last_display_id;
        self.apply_active_settings(new_s, displays, active);
        let ghost b = self@.overlays;
        if self.settings.is_partial_dimming_enabled != new_s.is_partial_dimming_enabled
            && !new_s.is_partial_dimming_enabled {
            self.overlays.clear_all_partial_overlays();
            self.last_window_rect = None;
        }
        self.settings = new_s;
        assert(settings_path(old(self)@, self@, new_s, displays_seq(displays), display_text(active), a, b, id_mid));
        r
    }

    /// Acts on a due re-check of a topology change, given the displays just
    /// enumerated: if their number changed, or on the final re-check, the
    /// enabled inactive and active categories are recreated for them and what
    /// was last seen of the focused window is forgotten (display ids may be
    /// invalid now). Gives whether it did so (the rest of the step is then
    /// skipped).
    pub fn on_display_check(&mut self, is_final: bool, displays: &[DisplayInfo]) -> (r: bool)
        ensures
            r == (displays@.len() != old(self)@.last_display_count || is_final),
            !r ==> final(self)@ == old(self)@,
            r ==> {
                &&& final(self)@ == (MonitorView {
                    overlays: final(self)@.overlays,
                    last_window_handle: None,
                    last_display_id: None,
                    last_display_count: displays@.len() as usize,
                    last_window_rect: None,
                    dragging: false,
                    ..old(self)@
                })
                &&& exists|a: ManagerView|
                    #[trigger] recreate_path(old(self)@.settings, displays@, old(self)@.overlays, a, final(self)@.overlays)
            },
    {
        let count_changed = displays.len() != self.last_display_count;
        if count_changed || is_final {
            if self.settings.is_dimming_enabled {
                self.overlays.recreate_inactive_overlays(displays);
            }
            let ghost a = self.overlays@;
            if self.settings.is_active_overlay_enabled {
                self.overlays.recreate_active_overlays(displays);
            }
            self.last_display_count = displays.len();
            self.last_window_handle = None;
            self.last_display_id = None;
            self.last_window_rect = None;
            self.dragging = false;
            assert(recreate_path(old(self)@.settings, displays@, old(self)@.overlays, a, self@.overlays));
            true
        } else {
            false
        }
    }

    /// Acts on the focused window: one of the overlay surfaces is ignored
    /// (gives `false`, the rest of the step is skipped). When the window or its
    /// display differs from the last seen, visibility is set for its display
    /// and, on a display switch, the margins are cleared (they belong to the
    /// old display).
    pub fn on_active_window(&mut self, active: &ActiveWindowInfo) -> (r: bool)
        ensures
            r == !contains_text(active.window_title@, own_title_mark()),
            !r ==> final(self)@ == old(self)@,
            r ==> ({
                let window_changed = old(self)@.last_window_handle != Some(active.handle);
                let display_changed = old(self)@.last_display_id != Some(active.display_id@);
                if window_changed || display_changed {
                    &&& final(self)@.last_window_handle == Some(active.handle)
                    &&& final(self)@.last_display_id == Some(active.display_id@)
                    &&& final(self)@ == (MonitorView {
                        overlays: final(self)@.overlays,
                        last_window_handle: final(self)@.last_window_handle,
                        last_display_id: final(self)@.last_display_id,
                        last_window_rect: final(self)@.last_window_rect,
                        dragging: final(self)@.dragging,
                        ..old(self)@
                    })
                    &&& exists|mid: ManagerView|
                        #[trigger] visibility_updated(old(self)@.overlays, mid, active.display_id@) && if display_changed {
                            partial_cleared(mid, final(self)@.overlays) && final(self)@.last_window_rect is None
                                && !final(self)@.dragging
                        } else {
                            final(self)@.overlays == mid && final(self)@.last_window_rect == old(self)@.last_window_rect
                                && final(self)@.dragging == old(self)@.dragging
                        }
                } else {
                    final(self)@ == old(self)@
                }
            }),
    {
        if is_own_surface_title(active.window_title.as_str()) {
            return false;
        }
        let window_changed = match self.last_window_handle {
            Some(h) => h != active.handle,
            None => true,
        };
        let display_changed = match &self.last_display_id {
            Some(id) => !same_text(id.as_str(), active.display_id.as_str()),
            None => true,
        };
        if window_changed || display_changed {
            self.overlays.update_visibility(active.display_id.as_str());
            let ghost mid = self.overlays@;
            if display_changed {
                self.overlays.clear_all_partial_overlays();
                self.last_window_rect = None;
                self.dragging = false;
            }
            self.last_window_handle = Some(active.handle);
            self.last_display_id = Some(active.display_id.clone());
            assert(visibility_updated(old(self)@.overlays, mid, active.display_id@));
        }
        true
    }

    /// Follows the focused window's rectangle while partial dimming is on and
    /// a display is known. A rectangle that differs from the last seen moves
    /// the margins (and the active surface) in place, or recreates them where
    /// that is not possible, on `display`. A change that comes less than
    /// `drag_start_ms` after the previous one starts a drag: the margins of
    /// the display are cleared and the active surface widened to the display
    /// until the rectangle has been stable for `drag_settle_ms`, when the
    /// margins are rebuilt at the final rectangle. With partial dimming off,
    /// margins left over are cleared and the active surface restored to its
    /// display. `now` is the time in milliseconds.
    pub fn on_window_geometry(
        &mut self,
        active: &ActiveWindowInfo,
        rect: Option<WindowRect>,
        display: Option<&DisplayInfo>,
        is_maximized: bool,
        now: u64,
    )
        ensures
            ({
                let before = old(self)@;
                let after = final(self)@;
                let id = active.display_id@;
                if before.settings.is_partial_dimming_enabled && before.last_display_id is Some {
                    match rect {
                        Some(cur) => {
                            let changed = before.last_window_rect != Some(cur);
                            let quick = match before.last_geometry_change {
                                Some(t) => elapsed(now, t) < before.settings.drag_start_ms,
                                None => false,
                            };
                            if changed && (before.dragging || quick) {
                                &&& after == (MonitorView {
                                    overlays: after.overlays,
                                    last_window_rect: Some(cur),
                                    last_geometry_change: Some(now),
                                    dragging: true,
                                    ..before
                                })
                                &&& if before.dragging {
                                    after.overlays == before.overlays
                                } else {
                                    match display {
                                        Some(d) => exists|mid: ManagerView, r: Result<(), String>|
                                            #[trigger] drag_enter_path(before.settings, before.overlays, after.overlays, id, *d, mid, r),
                                        None => after.overlays == before.overlays,
                                    }
                                }
                            } else if changed {
                                &&& after == (MonitorView {
                                    overlays: after.overlays,
                                    last_window_rect: Some(cur),
                                    last_geometry_change: Some(now),
                                    ..before
                                })
                                &&& match display {
                                    Some(d) => exists|mid: ManagerView, r1: Result<bool, String>, m2: ManagerView, r2: Result<(), String>, r3: Result<(), String>|
                                        #[trigger] geometry_path(before.settings, before.overlays, after.overlays, id, cur, *d, is_maximized, mid, r1, m2, r2, r3),
                                    None => after.overlays == before.overlays,
                                }
                            } else if before.dragging && before.last_geometry_change is Some && elapsed(
                                now,
                                before.last_geometry_change->Some_0,
                            ) >= before.settings.drag_settle_ms {
                                &&& after == (MonitorView { overlays: after.overlays, dragging: false, ..before })
                                &&& match display {
                                    Some(d) => exists|m2: ManagerView, r2: Result<(), String>, r3: Result<(), String>|
                                        #[trigger] rebuild_path(before.settings, before.overlays, after.overlays, id, cur, *d, is_maximized, m2, r2, r3),
                                    None => after.overlays == before.overlays,
                                }
                            } else {
                                after == before
                            }
                        },
                        None => after == before,
                    }
                } else if !before.settings.is_partial_dimming_enabled && before.last_window_rect is Some {
                    &&& after == (MonitorView {
                        overlays: after.overlays,
                        last_window_rect: None,
                        dragging: false,
                        ..before
                    })
                    &&& exists|mid: ManagerView, r: Result<(), String>|
                        #[trigger] partial_off_path(before.settings, before.overlays, mid, after.overlays, id, display, r)
                } else {
                    after == before
                }
            }),
    {
        let id = active.display_id.as_str();
        if self.settings.is_partial_dimming_enabled && self.last_display_id.is_some() {
            let cur = match rect {
                Some(cur) => cur,
                None => return,
            };
            let changed = match self.last_window_rect {
                Some(last) => last != cur,
                None => true,
            };
            let quick = match self.last_geometry_change {
                Some(t) => now.saturating_sub(t) < self.settings.drag_start_ms,
                None => false,
            };
            if changed && (self.dragging || quick) {
                if !self.dragging {
                    match display {
                        Some(d) => {
                            self.overlays.clear_partial_overlays_for_display(id);
                            let ghost mid = self.overlays@;
                            let mut r: Result<(), String> = Ok(());
                            if self.settings.is_active_overlay_enabled {
                                r = self.overlays.restore_active_overlay_full_size(id, d);
                            }
                            assert(drag_enter_path(old(self)@.settings, old(self)@.overlays, self@.overlays, id@, *d, mid, r));
                        },
                        None => {},
                    }
                }
                self.dragging = true;
            } else if changed {
                match display {
                    Some(d) => {
                        let r1 = if self.settings.is_active_overlay_enabled {
                            self.overlays.update_partial_and_active_overlays_atomic(id, cur, d, true, is_maximized)
                        } else {
                            self.overlays.update_partial_overlays(id, cur, d)
                        };
                        let ghost mid = self.overlays@;
                        let updated = match r1 {
                            Ok(b) => b,
                            Err(_) => false,
                        };
                        if updated {
                            assert(geometry_path(old(self)@.settings, old(self)@.overlays, self@.overlays, id@, cur, *d, is_maximized, mid, r1, mid, Ok(()), Ok(())));
                        } else {
                            let (m2, r2, r3) = self.rebuild(id, cur, d, is_maximized);
                            assert(geometry_path(old(self)@.settings, old(self)@.overlays, self@.overlays, id@, cur, *d, is_maximized, mid, r1, m2@, r2, r3));
                        }
                    },
                    None => {},
                }
            } else {
                let settled = match self.last_geometry_change {
                    Some(t) => now.saturating_sub(t) >= self.settings.drag_settle_ms,
                    None => false,
                };
                if self.dragging && settled {
                    match display {
                        Some(d) => {
                            let (m2, r2, r3) = self.rebuild(id, cur, d, is_maximized);
                            assert(rebuild_path(old(self)@.settings, old(self)@.overlays, self@.overlays, id@, cur, *d, is_maximized, m2@, r2, r3));
                        },
                        None => {},
                    }
                    self.dragging = false;
                }
                return;
            }
            self.last_geometry_change = Some(now);
            self.last_window_rect = Some(cur);
        } else if !self.settings.is_partial_dimming_enabled && self.last_window_rect.is_some() {
            self.overlays.clear_all_partial_overlays();
            let ghost mid = self.overlays@;
            self.last_window_rect = None;
            self.dragging = false;
            let mut r: Result<(), String> = Ok(());
            if self.settings.is_active_overlay_enabled {
                match display {
                    Some(d) => {
                        r = self.overlays.restore_active_overlay_full_size(id, d);
                    },
                    None => {},
                }
            }
            assert(partial_off_path(old(self)@.settings, old(self)@.overlays, mid, self@.overlays, id@, display, r));
        }
    }

    /// Rebuilds the margins of `d` around `w` and sizes the active surface to
    /// the window (or to the display for a maximized window); gives the view
    /// between the two and both results.
    fn rebuild(&mut self, id: &str, w: WindowRect, d: &DisplayInfo, is_maximized: bool) -> (r: (Ghost<ManagerView>, Result<(), String>, Result<(), String>))
        ensures
            rebuild_path(old(self)@.settings, old(self)@.overlays, final(self)@.overlays, id@, w, *d, is_maximized, r.0@, r.1, r.2),
            final(self)@ == (MonitorView { overlays: final(self)@.overlays, ..old(self)@ }),
    {
        let r2 = self.overlays.create_partial_overlays(id, w, d);
        let m2 = Ghost(self.overlays@);
        let mut r3: Result<(), String> = Ok(());
        if self.settings.is_active_overlay_enabled {
            r3 = if !is_maximized {
                self.overlays.resize_active_overlay(id, w)
            } else {
                self.overlays.restore_active_overlay_full_size(id, d)
            };
        }
        (m2, r2, r3)
    }

    /// Follows whether the focused window is the terminal that the
    /// multiplexer runs in (`None` where that could not be told). Gives
    /// whether pane information should be read. With terminal-pane mode off,
    /// or another window focused, pane surfaces left over are cleared.
    pub fn on_terminal_focus(&mut self, is_terminal: Option<bool>) -> (r: bool)
        ensures
            r == (old(self)@.settings.is_tmux_mode_enabled && is_terminal == Some(true)),
            ({
                let clear = old(self)@.last_tmux_pane is Some && (!old(self)@.settings.is_tmux_mode_enabled
                    || is_terminal == Some(false));
                if clear {
                    &&& tmux_cleared(old(self)@.overlays, final(self)@.overlays)
                    &&& final(self)@ == (MonitorView {
                        overlays: final(self)@.overlays,
                        last_tmux_pane: None,
                        ..old(self)@
                    })
                } else {
                    final(self)@ == old(self)@
                }
            }),
    {
        let wants = match is_terminal {
            Some(t) => t,
            None => false,
        };
        let other_window = match is_terminal {
            Some(t) => !t,
            None => false,
        };
        if (!self.settings.is_tmux_mode_enabled || other_window) && self.last_tmux_pane.is_some() {
            self.overlays.clear_tmux_overlays();
            self.last_tmux_pane = None;
        }
        self.settings.is_tmux_mode_enabled && wants
    }

    /// Whether the pane information must be read: its source changed, or no
    /// pane was seen yet.
    pub fn needs_pane_read(&self, source_changed: bool) -> (r: bool)
        ensures
            r == (source_changed || self@.last_tmux_pane is None),
    {
        source_changed || self.last_tmux_pane.is_none()
    }

    /// Acts on pane information just read: a valid pane that differs from the
    /// last seen replaces the pane surfaces over the terminal window
    /// `terminal_rect` (if its rectangle is known) and becomes the last seen.
    pub fn on_pane_info(&mut self, pane: TmuxPaneInfo, terminal_rect: Option<WindowRect>)
        ensures
            ({
                if pane.valid() && old(self)@.last_tmux_pane != Some(pane) {
                    &&& final(self)@ == (MonitorView {
                        overlays: final(self)@.overlays,
                        last_tmux_pane: Some(pane),
                        ..old(self)@
                    })
                    &&& match terminal_rect {
                        Some(w) => exists|r: Result<(), String>|
                            #[trigger] tmux_created(
                                old(self)@.overlays,
                                final(self)@.overlays,
                                pane,
                                w,
                                old(self)@.settings.terminal_geometry,
                                r,
                            ),
                        None => final(self)@.overlays == old(self)@.overlays,
                    }
                } else {
                    final(self)@ == old(self)@
                }
            }),
    {
        if !pane.is_valid() {
            return;
        }
        let changed = match self.last_tmux_pane {
            Some(last) => last != pane,
            None => true,
        };
        if !changed {
            return;
        }
        match terminal_rect {
            Some(w) => {
                let g = self.settings.terminal_geometry;
                let r = self.overlays.create_tmux_overlays(&pane, &w, &g);
                assert(tmux_created(old(self)@.overlays, self@.overlays, pane, w, g, r));
            },
            None => {},
        }
        self.last_tmux_pane = Some(pane);
    }

    /// Acts on a failed query for the focused window: if a window was being
    /// tracked, what was seen of it is forgotten and its margins and pane
    /// surfaces cleared.
    pub fn on_no_active_window(&mut self)
        ensures
            old(self)@.last_window_handle is None ==> final(self)@ == old(self)@,
            old(self)@.last_window_handle is Some ==> {
                &&& final(self)@ == (MonitorView {
                    overlays: final(self)@.overlays,
                    last_window_handle: None,
                    last_display_id: None,
                    last_window_rect: None,
                    last_tmux_pane: None,
                    dragging: false,
                    ..old(self)@
                })
                &&& exists|mid: ManagerView|
                    #[trigger] clear_path(old(self)@, mid, final(self)@.overlays)
            },
    {
        if self.last_window_handle.is_some() {
            self.last_window_handle = None;
            self.last_display_id = None;
            self.last_window_rect = None;
            self.dragging = false;
            if self.settings.is_partial_dimming_enabled {
                self.overlays.clear_all_partial_overlays();
            }
            let ghost mid = self.overlays@;
            if self.last_tmux_pane.is_some() {
                self.overlays.clear_tmux_overlays();
                self.last_tmux_pane = None;
            }
            assert(clear_path(old(self)@, mid, self@.overlays));
        }
    }

    /// Releases every surface: each is destroyed once.
    pub fn shutdown(&mut self)
        ensures
            final(self)@ == (MonitorView { overlays: after_close_all(old(self)@.overlays), ..old(self)@ }),
    {
        self.overlays.close_all();
    }

    /// The settings in force.
    pub fn settings(&self) -> (r: Settings)
        ensures
            r == self@.settings,
    {
        self.settings
    }

    /// How many displays the last enumeration found.
    pub fn last_display_count(&self) -> (r: usize)
        ensures
            r == self@.last_display_count,
    {
        self.last_display_count
    }

    /// The focused window's rectangle as last seen.
    pub fn last_window_rect(&self) -> (r: Option<WindowRect>)
        ensures
            r == self@.last_window_rect,
    {
        self.last_window_rect
    }

    /// The focused window's handle as last seen.
    pub fn last_window_handle(&self) -> (r: Option<u64>)
        ensures
            r == self@.last_window_handle,
    {
        self.last_window_handle
    }

    /// Whether every overlay category is switched off.
    pub fn all_overlays_disabled(&self) -> (r: bool)
        ensures
            r == (!self@.settings.is_dimming_enabled && !self@.settings.is_active_overlay_enabled
                && !self@.settings.is_partial_dimming_enabled),
    {
        !self.settings.is_dimming_enabled && !self.settings.is_active_overlay_enabled
            && !self.settings.is_partial_dimming_enabled
    }
}

} // verus!
