//! Bookkeeping of the overlay surfaces: which exist, for which display, where
//! they stand and whether they are shown. Every change is also queued as a
//! `SurfaceOp` for the windowing layer to carry out, in order.

use vstd::prelude::*;
use crate::color::OverlayColor;
use crate::platform::{DisplayInfo, WindowRect};
use crate::geometry::{
    calculate_tmux_overlay_rects, extents_fit, fits_i32, lemma_tmux_rect_extents, pixels_fit,
    pixels_fit_check, tmux_rects, OverlayRect, TerminalGeometry,
};
use crate::pane::TmuxPaneInfo;
use vstd::string::StringExecFns;
use vstd::string::StrSliceExecFns;

verus! {

/// The four categories of overlay surfaces.
#[derive(Debug, Clone, Copy, PartialEq, Eq, Structural)]
pub enum SurfaceKind {
    Inactive,
    Active,
    Partial,
    Tmux,
}

/// Position and size of a surface in screen pixels.
#[derive(Debug, Clone, Copy, PartialEq, Eq, Structural)]
pub struct Placement {
    pub x: i32,
    pub y: i32,
    pub width: i32,
    pub height: i32,
}

/// One overlay surface as the manager tracks it.
#[derive(Debug, Clone, Copy, PartialEq, Eq, Structural)]
pub struct Surface {
    pub id: u64,
    pub placement: Placement,
    pub visible: bool,
}

/// A new placement for an existing surface.
#[derive(Debug, Clone, Copy, PartialEq, Eq, Structural)]
pub struct SurfaceMove {
    pub id: u64,
    pub placement: Placement,
}

/// One change that the windowing layer must make to its surfaces.
#[derive(Debug)]
pub enum SurfaceOp {
    /// Create a borderless, click-through, always-on-top, non-activating
    /// surface, shown, painted in `color`.
    Create { id: u64, kind: SurfaceKind, placement: Placement, color: OverlayColor },
    /// Move and resize all these surfaces in one compositor update.
    Reposition { moves: Vec<SurfaceMove> },
    Show { id: u64 },
    Hide { id: u64 },
    Destroy { id: u64 },
}

/// The surface that one category keeps for one display.
#[derive(Debug)]
pub struct DisplaySurface {
    pub display_id: String,
    pub surface: Surface,
}

/// The margin surfaces (top, bottom, left, right, those needed) of one display.
#[derive(Debug)]
pub struct MarginSet {
    pub display_id: String,
    pub margins: Vec<Surface>,
}

/// Owner of every overlay surface, by category.
#[derive(Debug)]
pub struct OverlayManager {
    inactive: Vec<DisplaySurface>,
    active: Vec<DisplaySurface>,
    partial: Vec<MarginSet>,
    tmux: Vec<Surface>,
    inactive_color: OverlayColor,
    active_color: Option<OverlayColor>,
    next_id: u64,
    pending: Vec<SurfaceOp>,
}

/// What an `OverlayManager` holds: per display the inactive surface, the active
/// surface and the margin surfaces; the terminal-pane surfaces; the two colors;
/// and the operations not yet handed to the windowing layer.
pub ghost struct ManagerView {
    pub inactive: Seq<(Seq<char>, Surface)>,
    pub active: Seq<(Seq<char>, Surface)>,
    pub partial: Seq<(Seq<char>, Seq<Surface>)>,
    pub tmux: Seq<Surface>,
    pub inactive_color: OverlayColor,
    pub active_color: Option<OverlayColor>,
    pub pending: Seq<SurfaceOp>,
}

pub open spec fn entries_view(v: Seq<DisplaySurface>) -> Seq<(Seq<char>, Surface)> {
    v.map_values(|e: DisplaySurface| (e.display_id@, e.surface))
}

pub open spec fn margin_sets_view(v: Seq<MarginSet>) -> Seq<(Seq<char>, Seq<Surface>)> {
    v.map_values(|m: MarginSet| (m.display_id@, m.margins@))
}

impl View for OverlayManager {
    type V = ManagerView;

    closed spec fn view(&self) -> ManagerView {
        ManagerView {
            inactive: entries_view(self.inactive@),
            active: entries_view(self.active@),
            partial: margin_sets_view(self.partial@),
            tmux: self.tmux@,
            inactive_color: self.inactive_color,
            active_color: self.active_color,
            pending: self.pending@,
        }
    }
}

/// Where a surface covering the whole of display `d` stands.
pub open spec fn display_placement(d: DisplayInfo) -> Placement {
    Placement { x: d.x, y: d.y, width: d.width, height: d.height }
}

/// The surfaces of a per-display category.
pub open spec fn surfaces_of(s: Seq<(Seq<char>, Surface)>) -> Seq<Surface> {
    s.map_values(|e: (Seq<char>, Surface)| e.1)
}

/// Every margin surface, display by display.
pub open spec fn all_margins(p: Seq<(Seq<char>, Seq<Surface>)>) -> Seq<Surface>
    decreases p.len(),
{
    if p.len() == 0 {
        Seq::empty()
    } else {
        all_margins(p.drop_last()) + p.last().1
    }
}

pub open spec fn destroy_ops(s: Seq<Surface>) -> Seq<SurfaceOp> {
    s.map_values(|x: Surface| SurfaceOp::Destroy { id: x.id })
}

pub open spec fn create_ops(s: Seq<Surface>, kind: SurfaceKind, color: OverlayColor) -> Seq<SurfaceOp> {
    s.map_values(
        |x: Surface| SurfaceOp::Create { id: x.id, kind: kind, placement: x.placement, color: color },
    )
}

/// Show or hide each surface as `visible` says.
pub open spec fn visibility_ops(s: Seq<Surface>) -> Seq<SurfaceOp> {
    s.map_values(
        |x: Surface|
            if x.visible {
                SurfaceOp::Show { id: x.id }
            } else {
                SurfaceOp::Hide { id: x.id }
            },
    )
}

/// One shown surface per display, in the order of `ds`, each covering its
/// display.
pub open spec fn covers_displays(s: Seq<(Seq<char>, Surface)>, ds: Seq<DisplayInfo>) -> bool {
    &&& s.len() == ds.len()
    &&& forall|i: int|
        0 <= i < s.len() ==> (#[trigger] s[i]).0 == ds[i].id@ && s[i].1.placement
            == display_placement(ds[i]) && s[i].1.visible
}

/// A manager with no surfaces and nothing pending.
pub open spec fn fresh_view(inactive_color: OverlayColor, active_color: Option<OverlayColor>) -> ManagerView {
    ManagerView {
        inactive: Seq::empty(),
        active: Seq::empty(),
        partial: Seq::empty(),
        tmux: Seq::empty(),
        inactive_color,
        active_color,
        pending: Seq::empty(),
    }
}

/// `m` with every surface destroyed and forgotten.
pub open spec fn after_close_all(m: ManagerView) -> ManagerView {
    ManagerView {
        inactive: Seq::empty(),
        active: Seq::empty(),
        partial: Seq::empty(),
        tmux: Seq::empty(),
        pending: m.pending + destroy_ops(surfaces_of(m.inactive)) + destroy_ops(surfaces_of(m.active))
            + destroy_ops(all_margins(m.partial)) + destroy_ops(m.tmux),
        ..m
    }
}

/// `after` is `before` with its inactive surfaces replaced by one shown
/// surface per display of `ds`, covering it, in the inactive color.
pub open spec fn inactive_created(before: ManagerView, after: ManagerView, ds: Seq<DisplayInfo>) -> bool {
    &&& covers_displays(after.inactive, ds)
    &&& after == (ManagerView {
        inactive: after.inactive,
        pending: before.pending + destroy_ops(surfaces_of(before.inactive)) + create_ops(
            surfaces_of(after.inactive),
            SurfaceKind::Inactive,
            before.inactive_color,
        ),
        ..before
    })
}

/// With an active color, `after` is `before` with its active surfaces replaced
/// by one shown surface per display of `ds`, covering it, in that color;
/// without one, `after` is `before`.
pub open spec fn active_created(before: ManagerView, after: ManagerView, ds: Seq<DisplayInfo>) -> bool {
    match before.active_color {
        None => after == before,
        Some(c) => {
            &&& covers_displays(after.active, ds)
            &&& after == (ManagerView {
                active: after.active,
                pending: before.pending + destroy_ops(surfaces_of(before.active)) + create_ops(
                    surfaces_of(after.active),
                    SurfaceKind::Active,
                    c,
                ),
                ..before
            })
        },
    }
}

/// The entries of `s` with each surface shown exactly where its display id
/// equals `shown_on` (`on_match`) or differs from it (`!on_match`).
pub open spec fn with_visibility(s: Seq<(Seq<char>, Surface)>, shown_on: Seq<char>, on_match: bool) -> Seq<
    (Seq<char>, Surface),
> {
    s.map_values(
        |e: (Seq<char>, Surface)| (e.0, Surface { visible: (e.0 == shown_on) == on_match, ..e.1 }),
    )
}

/// The surfaces `s`, all shown (`visible`) or all hidden.
pub open spec fn all_set(s: Seq<Surface>, visible: bool) -> Seq<Surface> {
    s.map_values(|x: Surface| Surface { visible: visible, ..x })
}

pub open spec fn entries_set(s: Seq<(Seq<char>, Surface)>, visible: bool) -> Seq<(Seq<char>, Surface)> {
    s.map_values(|e: (Seq<char>, Surface)| (e.0, Surface { visible: visible, ..e.1 }))
}

pub open spec fn margin_sets_set(p: Seq<(Seq<char>, Seq<Surface>)>, visible: bool) -> Seq<
    (Seq<char>, Seq<Surface>),
> {
    p.map_values(|e: (Seq<char>, Seq<Surface>)| (e.0, all_set(e.1, visible)))
}

/// Whether two strings hold the same characters.
pub fn same_text(a: &str, b: &str) -> (r: bool)
    ensures
        r == (a@ == b@),
{
    let n = a.unicode_len();
    if n != b.unicode_len() {
        return false;
    }
    let mut i: usize = 0;
    while i < n
        invariant
            i <= n,
            n == a@.len(),
            n == b@.len(),
            a@.subrange(0, i as int) == b@.subrange(0, i as int),
        decreases n - i,
    {
        if a.get_char(i) != b.get_char(i) {
            return false;
        }
        assert(a@.subrange(0, i + 1) =~= a@.subrange(0, i as int).push(a@[i as int]));
        assert(b@.subrange(0, i + 1) =~= b@.subrange(0, i as int).push(b@[i as int]));
        i = i + 1;
    }
    assert(a@ =~= a@.subrange(0, n as int));
    assert(b@ =~= b@.subrange(0, n as int));
    true
}

/// Queues the destruction of the surfaces of `s`.
fn queue_destroy_entries(pending: &mut Vec<SurfaceOp>, s: &Vec<DisplaySurface>)
    ensures
        final(pending)@ == old(pending)@ + destroy_ops(surfaces_of(entries_view(s@))),
{
    let ghost start = pending@;
    let mut i: usize = 0;
    while i < s.len()
        invariant
            i <= s@.len(),
            pending@ == start + destroy_ops(surfaces_of(entries_view(s@.subrange(0, i as int)))),
        decreases s@.len() - i,
    {
        pending.push(SurfaceOp::Destroy { id: s[i].surface.id });
        assert(destroy_ops(surfaces_of(entries_view(s@.subrange(0, i + 1)))) =~= destroy_ops(
            surfaces_of(entries_view(s@.subrange(0, i as int))),
        ).push(SurfaceOp::Destroy { id: s@[i as int].surface.id }));
        i = i + 1;
    }
    assert(s@.subrange(0, s@.len() as int) =~= s@);
}

/// Queues the destruction of the surfaces `s`.
fn queue_destroy_surfaces(pending: &mut Vec<SurfaceOp>, s: &Vec<Surface>)
    ensures
        final(pending)@ == old(pending)@ + destroy_ops(s@),
{
    let ghost start = pending@;
    let mut i: usize = 0;
    while i < s.len()
        invariant
            i <= s@.len(),
            pending@ == start + destroy_ops(s@.subrange(0, i as int)),
        decreases s@.len() - i,
    {
        pending.push(SurfaceOp::Destroy { id: s[i].id });
        assert(destroy_ops(s@.subrange(0, i + 1)) =~= destroy_ops(s@.subrange(0, i as int)).push(
            SurfaceOp::Destroy { id: s@[i as int].id },
        ));
        i = i + 1;
    }
    assert(s@.subrange(0, s@.len() as int) =~= s@);
}

proof fn lemma_destroy_ops_concat(a: Seq<Surface>, b: Seq<Surface>)
    ensures
        destroy_ops(a + b) == destroy_ops(a) + destroy_ops(b),
{
    assert(destroy_ops(a + b) =~= destroy_ops(a) + destroy_ops(b));
}

/// Queues the destruction of every margin surface of `p`.
fn queue_destroy_margin_sets(pending: &mut Vec<SurfaceOp>, p: &Vec<MarginSet>)
    ensures
        final(pending)@ == old(pending)@ + destroy_ops(all_margins(margin_sets_view(p@))),
{
    let ghost start = pending@;
    let mut i: usize = 0;
    while i < p.len()
        invariant
            i <= p@.len(),
            pending@ == start + destroy_ops(all_margins(margin_sets_view(p@.subrange(0, i as int)))),
        decreases p@.len() - i,
    {
        let ghost before = pending@;
        queue_destroy_surfaces(pending, &p[i].margins);
        proof {
            let prev = margin_sets_view(p@.subrange(0, i as int));
            let next = margin_sets_view(p@.subrange(0, i + 1));
            assert(next.drop_last() =~= prev);
            assert(all_margins(next) == all_margins(prev) + p@[i as int].margins@);
            lemma_destroy_ops_concat(all_margins(prev), p@[i as int].margins@);
        }
        i = i + 1;
    }
    assert(p@.subrange(0, p@.len() as int) =~= p@);
}

/// The entries of `entries`, each surface shown exactly where its display id
/// matches `shown_on` (`on_match`) or differs from it (`!on_match`); queues
/// the matching show and hide operations.
fn restyle_entries(
    entries: &Vec<DisplaySurface>,
    shown_on: &str,
    on_match: bool,
    pending: &mut Vec<SurfaceOp>,
) -> (r: Vec<DisplaySurface>)
    ensures
        entries_view(r@) == with_visibility(entries_view(entries@), shown_on@, on_match),
        final(pending)@ == old(pending)@ + visibility_ops(surfaces_of(entries_view(r@))),
{
    let ghost start = pending@;
    let mut r: Vec<DisplaySurface> = Vec::new();
    let mut i: usize = 0;
    while i < entries.len()
        invariant
            i <= entries@.len(),
            entries_view(r@) == with_visibility(
                entries_view(entries@.subrange(0, i as int)),
                shown_on@,
                on_match,
            ),
            pending@ == start + visibility_ops(surfaces_of(entries_view(r@))),
        decreases entries@.len() - i,
    {
        let e = &entries[i];
        let show = same_text(e.display_id.as_str(), shown_on) == on_match;
        let surface = Surface { visible: show, ..e.surface };
        if show {
            pending.push(SurfaceOp::Show { id: surface.id });
        } else {
            pending.push(SurfaceOp::Hide { id: surface.id });
        }
        let ghost before = r@;
        r.push(DisplaySurface { display_id: e.display_id.clone(), surface });
        proof {
            assert(entries_view(r@) =~= entries_view(before).push((e.display_id@, surface)));
            assert(entries_view(entries@.subrange(0, i + 1)) =~= entries_view(
                entries@.subrange(0, i as int),
            ).push((e.display_id@, e.surface)));
            assert(with_visibility(entries_view(entries@.subrange(0, i + 1)), shown_on@, on_match)
                =~= with_visibility(entries_view(entries@.subrange(0, i as int)), shown_on@, on_match).push(
                (e.display_id@, surface),
            ));
            assert(visibility_ops(surfaces_of(entries_view(r@))) =~= visibility_ops(
                surfaces_of(entries_view(before)),
            ).push(
                if show {
                    SurfaceOp::Show { id: surface.id }
                } else {
                    SurfaceOp::Hide { id: surface.id }
                },
            ));
        }
        i = i + 1;
    }
    assert(entries@.subrange(0, entries@.len() as int) =~= entries@);
    r
}

/// The entries of `entries` with every surface shown (`visible`) or hidden;
/// queues the matching operations.
fn set_entries_visible(entries: &Vec<DisplaySurface>, visible: bool, pending: &mut Vec<SurfaceOp>) -> (r: Vec<
    DisplaySurface,
>)
    ensures
        entries_view(r@) == entries_set(entries_view(entries@), visible),
        final(pending)@ == old(pending)@ + visibility_ops(surfaces_of(entries_view(r@))),
{
    let ghost start = pending@;
    let mut r: Vec<DisplaySurface> = Vec::new();
    let mut i: usize = 0;
    while i < entries.len()
        invariant
            i <= entries@.len(),
            entries_view(r@) == entries_set(entries_view(entries@.subrange(0, i as int)), visible),
            pending@ == start + visibility_ops(surfaces_of(entries_view(r@))),
        decreases entries@.len() - i,
    {
        let e = &entries[i];
        let surface = Surface { visible, ..e.surface };
        if visible {
            pending.push(SurfaceOp::Show { id: surface.id });
        } else {
            pending.push(SurfaceOp::Hide { id: surface.id });
        }
        let ghost before = r@;
        r.push(DisplaySurface { display_id: e.display_id.clone(), surface });
        proof {
            assert(entries_view(r@) =~= entries_view(before).push((e.display_id@, surface)));
            assert(entries_view(entries@.subrange(0, i + 1)) =~= entries_view(
                entries@.subrange(0, i as int),
            ).push((e.display_id@, e.surface)));
            assert(entries_set(entries_view(entries@.subrange(0, i + 1)), visible) =~= entries_set(
                entries_view(entries@.subrange(0, i as int)),
                visible,
            ).push((e.display_id@, surface)));
            assert(visibility_ops(surfaces_of(entries_view(r@))) =~= visibility_ops(
                surfaces_of(entries_view(before)),
            ).push(
                if visible {
                    SurfaceOp::Show { id: surface.id }
                } else {
                    SurfaceOp::Hide { id: surface.id }
                },
            ));
        }
        i = i + 1;
    }
    assert(entries@.subrange(0, entries@.len() as int) =~= entries@);
    r
}

/// The surfaces `s`, every one shown (`visible`) or hidden; queues the
/// matching operations.
fn set_surfaces_visible(s: &Vec<Surface>, visible: bool, pending: &mut Vec<SurfaceOp>) -> (r: Vec<Surface>)
    ensures
        r@ == all_set(s@, visible),
        final(pending)@ == old(pending)@ + visibility_ops(r@),
{
    let ghost start = pending@;
    let mut r: Vec<Surface> = Vec::new();
    let mut i: usize = 0;
    while i < s.len()
        invariant
            i <= s@.len(),
            r@ == all_set(s@.subrange(0, i as int), visible),
            pending@ == start + visibility_ops(r@),
        decreases s@.len() - i,
    {
        let surface = Surface { visible, ..s[i] };
        if visible {
            pending.push(SurfaceOp::Show { id: surface.id });
        } else {
            pending.push(SurfaceOp::Hide { id: surface.id });
        }
        let ghost before = r@;
        r.push(surface);
        proof {
            assert(all_set(s@.subrange(0, i + 1), visible) =~= all_set(s@.subrange(0, i as int), visible).push(
                surface,
            ));
            assert(visibility_ops(r@) =~= visibility_ops(before).push(
                if visible {
                    SurfaceOp::Show { id: surface.id }
                } else {
                    SurfaceOp::Hide { id: surface.id }
                },
            ));
        }
        i = i + 1;
    }
    assert(s@.subrange(0, s@.len() as int) =~= s@);
    r
}

proof fn lemma_visibility_ops_concat(a: Seq<Surface>, b: Seq<Surface>)
    ensures
        visibility_ops(a + b) == visibility_ops(a) + visibility_ops(b),
{
    assert(visibility_ops(a + b) =~= visibility_ops(a) + visibility_ops(b));
}

/// The margin sets `p` with every surface shown (`visible`) or hidden; queues
/// the matching operations.
fn set_margin_sets_visible(p: &Vec<MarginSet>, visible: bool, pending: &mut Vec<SurfaceOp>) -> (r: Vec<
    MarginSet,
>)
    ensures
        margin_sets_view(r@) == margin_sets_set(margin_sets_view(p@), visible),
        final(pending)@ == old(pending)@ + visibility_ops(all_margins(margin_sets_view(r@))),
{
    let ghost start = pending@;
    let mut r: Vec<MarginSet> = Vec::new();
    let mut i: usize = 0;
    while i < p.len()
        invariant
            i <= p@.len(),
            margin_sets_view(r@) == margin_sets_set(margin_sets_view(p@.subrange(0, i as int)), visible),
            pending@ == start + visibility_ops(all_margins(margin_sets_view(r@))),
        decreases p@.len() - i,
    {
        let m = &p[i];
        let margins = set_surfaces_visible(&m.margins, visible, pending);
        let ghost before = r@;
        let ghost new_margins = margins@;
        r.push(MarginSet { display_id: m.display_id.clone(), margins });
        proof {
            assert(margin_sets_view(r@) =~= margin_sets_view(before).push((m.display_id@, new_margins)));
            assert(margin_sets_view(p@.subrange(0, i + 1)) =~= margin_sets_view(
                p@.subrange(0, i as int),
            ).push((m.display_id@, m.margins@)));
            assert(margin_sets_set(margin_sets_view(p@.subrange(0, i + 1)), visible) =~= margin_sets_set(
                margin_sets_view(p@.subrange(0, i as int)),
                visible,
            ).push((m.display_id@, new_margins)));
            assert(margin_sets_view(r@).drop_last() =~= margin_sets_view(before));
            lemma_visibility_ops_concat(all_margins(margin_sets_view(before)), new_margins);
        }
        i = i + 1;
    }
    assert(p@.subrange(0, p@.len() as int) =~= p@);
    r
}

/// A window edge within this many pixels of a display edge counts as touching it.
pub const EDGE_TOLERANCE: i32 = 5;

pub open spec fn abs(v: int) -> int {
    if v < 0 {
        -v
    } else {
        v
    }
}

/// The placement `(x, y, width, height)` if `keep` holds; nothing otherwise.
pub open spec fn place(keep: bool, x: int, y: int, width: int, height: int) -> Seq<Placement> {
    if keep {
        seq![Placement { x: x as i32, y: y as i32, width: width as i32, height: height as i32 }]
    } else {
        Seq::empty()
    }
}

/// The margins that dim display `d` around window `w`, in the order top,
/// bottom, left, right: the top and bottom ones span the display's width, the
/// left and right ones the window's height. A margin is left out where the
/// window touches that display edge (within `EDGE_TOLERANCE`) or leaves no
/// room beyond it.
pub open spec fn margin_parts(w: WindowRect, d: DisplayInfo) -> Seq<Placement> {
    let display_left = d.x as int;
    let display_top = d.y as int;
    let display_right = d.x + d.width;
    let display_bottom = d.y + d.height;
    let touches_left = abs(w.left - display_left) <= EDGE_TOLERANCE;
    let touches_right = abs(w.right - display_right) <= EDGE_TOLERANCE;
    let touches_top = abs(w.top - display_top) <= EDGE_TOLERANCE;
    let touches_bottom = abs(w.bottom - display_bottom) <= EDGE_TOLERANCE;
    let window_height = w.bottom - w.top;
    place(!touches_top && w.top > display_top, display_left, display_top, d.width as int, w.top - display_top)
        + place(
        !touches_bottom && w.bottom < display_bottom,
        display_left,
        w.bottom as int,
        d.width as int,
        display_bottom - w.bottom,
    ) + place(
        !touches_left && w.left > display_left && window_height > 0,
        display_left,
        w.top as int,
        w.left - display_left,
        window_height,
    ) + place(
        !touches_right && w.right < display_right && window_height > 0,
        w.right as int,
        w.top as int,
        display_right - w.right,
        window_height,
    )
}

/// Every coordinate and extent that the margins of `d` around `w`, or the
/// window itself, may need fits in `i32`.
pub open spec fn margins_fit(w: WindowRect, d: DisplayInfo) -> bool {
    &&& fits_i32(d.x + d.width)
    &&& fits_i32(d.y + d.height)
    &&& fits_i32(w.top - d.y)
    &&& fits_i32(d.y + d.height - w.bottom)
    &&& fits_i32(w.left - d.x)
    &&& fits_i32(d.x + d.width - w.right)
    &&& fits_i32(w.bottom - w.top)
    &&& fits_i32(w.right - w.left)
}

/// Where a surface covering window `w` stands.
pub open spec fn rect_placement(w: WindowRect) -> Placement {
    Placement {
        x: w.left,
        y: w.top,
        width: (w.right - w.left) as i32,
        height: (w.bottom - w.top) as i32,
    }
}

pub open spec fn rect_fits(w: WindowRect) -> bool {
    fits_i32(w.right - w.left) && fits_i32(w.bottom - w.top)
}

/// The margins of `d` around `w`, or `None` where they do not fit in `i32`.
pub fn compute_margins(w: &WindowRect, d: &DisplayInfo) -> (r: Option<Vec<Placement>>)
    ensures
        r is Some <==> margins_fit(*w, *d),
        r matches Some(v) ==> v@ == margin_parts(*w, *d),
{
    let lo = i32::MIN as i64;
    let hi = i32::MAX as i64;
    let display_left = d.x as i64;
    let display_top = d.y as i64;
    let display_right = d.x as i64 + d.width as i64;
    let display_bottom = d.y as i64 + d.height as i64;
    let top_room = w.top as i64 - display_top;
    let bottom_room = display_bottom - w.bottom as i64;
    let left_room = w.left as i64 - display_left;
    let right_room = display_right - w.right as i64;
    let window_height = w.bottom as i64 - w.top as i64;
    let window_width = w.right as i64 - w.left as i64;
    if !(lo <= display_right && display_right <= hi && lo <= display_bottom && display_bottom <= hi
        && lo <= top_room && top_room <= hi && lo <= bottom_room && bottom_room <= hi && lo
        <= left_room && left_room <= hi && lo <= right_room && right_room <= hi && lo
        <= window_height && window_height <= hi && lo <= window_width && window_width <= hi) {
        return None;
    }
    let tolerance = EDGE_TOLERANCE as i64;
    let touches_left = -tolerance <= left_room && left_room <= tolerance;
    let touches_right = -tolerance <= right_room && right_room <= tolerance;
    let touches_top = -tolerance <= top_room && top_room <= tolerance;
    let touches_bottom = -tolerance <= bottom_room && bottom_room <= tolerance;
    let mut parts: Vec<Placement> = Vec::new();
    if !touches_top && top_room > 0 {
        parts.push(Placement { x: d.x, y: d.y, width: d.width, height: top_room as i32 });
    }
    let ghost after_top = parts@;
    if !touches_bottom && bottom_room > 0 {
        parts.push(Placement { x: d.x, y: w.bottom, width: d.width, height: bottom_room as i32 });
    }
    let ghost after_bottom = parts@;
    if !touches_left && left_room > 0 && window_height > 0 {
        parts.push(
            Placement { x: d.x, y: w.top, width: left_room as i32, height: window_height as i32 },
        );
    }
    let ghost after_left = parts@;
    if !touches_right && right_room > 0 && window_height > 0 {
        parts.push(
            Placement {
                x: w.right,
                y: w.top,
                width: right_room as i32,
                height: window_height as i32,
            },
        );
    }
    proof {
        let dl = d.x as int;
        let dt = d.y as int;
        let dr = d.x + d.width;
        let db = d.y + d.height;
        let top = place(!(abs(w.top - dt) <= 5) && w.top > dt, dl, dt, d.width as int, w.top - dt);
        let bottom = place(!(abs(w.bottom - db) <= 5) && w.bottom < db, dl, w.bottom as int, d.width as int, db - w.bottom);
        let left = place(!(abs(w.left - dl) <= 5) && w.left > dl && w.bottom - w.top > 0, dl, w.top as int, w.left - dl, w.bottom - w.top);
        let right = place(!(abs(w.right - dr) <= 5) && w.right < dr && w.bottom - w.top > 0, w.right as int, w.top as int, dr - w.right, w.bottom - w.top);
        assert(after_top =~= top);
        assert(after_bottom =~= top + bottom);
        assert(after_left =~= top + bottom + left);
        assert(parts@ =~= top + bottom + left + right);
    }
    Some(parts)
}

/// Where a surface covering rectangle `r` stands.
pub open spec fn overlay_placement(r: OverlayRect) -> Placement {
    Placement {
        x: r.left,
        y: r.top,
        width: (r.right - r.left) as i32,
        height: (r.bottom - r.top) as i32,
    }
}

/// Where the surfaces dimming the inactive panes stand.
pub open spec fn tmux_placements(p: TmuxPaneInfo, w: WindowRect, g: TerminalGeometry) -> Seq<Placement> {
    tmux_rects(p, w, g).map_values(|r: OverlayRect| overlay_placement(r))
}

/// `created` are shown surfaces standing at `parts`, one for each.
pub open spec fn placed(created: Seq<Surface>, parts: Seq<Placement>) -> bool {
    &&& created.len() == parts.len()
    &&& forall|i: int|
        0 <= i < created.len() ==> (#[trigger] created[i]).placement == parts[i] && created[i].visible
}

/// Position of the first entry of `s` for display `id`.
pub open spec fn index_of<T>(s: Seq<(Seq<char>, T)>, id: Seq<char>) -> Option<int>
    decreases s.len(),
{
    if s.len() == 0 {
        None
    } else {
        match index_of(s.drop_last(), id) {
            Some(i) => Some(i),
            None => if s.last().0 == id {
                Some(s.len() - 1)
            } else {
                None
            },
        }
    }
}

/// The margin sets of `p` but those of display `id`.
pub open spec fn without_display(p: Seq<(Seq<char>, Seq<Surface>)>, id: Seq<char>) -> Seq<
    (Seq<char>, Seq<Surface>),
>
    decreases p.len(),
{
    if p.len() == 0 {
        Seq::empty()
    } else if p.last().0 == id {
        without_display(p.drop_last(), id)
    } else {
        without_display(p.drop_last(), id).push(p.last())
    }
}

/// The margin surfaces of display `id` in `p`.
pub open spec fn margins_of_display(p: Seq<(Seq<char>, Seq<Surface>)>, id: Seq<char>) -> Seq<Surface>
    decreases p.len(),
{
    if p.len() == 0 {
        Seq::empty()
    } else if p.last().0 == id {
        margins_of_display(p.drop_last(), id) + p.last().1
    } else {
        margins_of_display(p.drop_last(), id)
    }
}

/// The surfaces `s` moved, in order, to `parts`.
pub open spec fn moved(s: Seq<Surface>, parts: Seq<Placement>) -> Seq<Surface> {
    Seq::new(s.len(), |i: int| Surface { placement: parts[i], ..s[i] })
}

/// The moves that take the surfaces `s`, in order, to `parts`.
pub open spec fn moves_to(s: Seq<Surface>, parts: Seq<Placement>) -> Seq<SurfaceMove> {
    Seq::new(s.len(), |i: int| SurfaceMove { id: s[i].id, placement: parts[i] })
}

/// `after` is `before` with one batched move of `moves` queued.
pub open spec fn queued_reposition(before: Seq<SurfaceOp>, after: Seq<SurfaceOp>, moves: Seq<SurfaceMove>) -> bool {
    &&& after.len() == before.len() + 1
    &&& after.subrange(0, before.len() as int) == before
    &&& after.last() matches SurfaceOp::Reposition { moves: m } && m@ == moves
}

/// Position of the first entry for display `id`.
fn find_entry(s: &Vec<DisplaySurface>, id: &str) -> (r: Option<usize>)
    ensures
        r matches Some(i) ==> index_of(entries_view(s@), id@) == Some(i as int),
        r is None ==> index_of(entries_view(s@), id@) is None,
{
    let mut i: usize = 0;
    while i < s.len()
        invariant
            i <= s@.len(),
            index_of(entries_view(s@.subrange(0, i as int)), id@) is None,
        decreases s@.len() - i,
    {
        let ghost next = entries_view(s@.subrange(0, i + 1));
        assert(next.drop_last() =~= entries_view(s@.subrange(0, i as int)));
        if same_text(s[i].display_id.as_str(), id) {
            proof { lemma_index_of_prefix(entries_view(s@), id@, i + 1); assert(entries_view(s@).subrange(0, i + 1) =~= next); }
            return Some(i);
        }
        i = i + 1;
    }
    proof { assert(entries_view(s@.subrange(0, s@.len() as int)) =~= entries_view(s@)); }
    None
}

/// Position of the first margin set for display `id`.
fn find_margin_set(p: &Vec<MarginSet>, id: &str) -> (r: Option<usize>)
    ensures
        r matches Some(i) ==> index_of(margin_sets_view(p@), id@) == Some(i as int),
        r is None ==> index_of(margin_sets_view(p@), id@) is None,
{
    let mut i: usize = 0;
    while i < p.len()
        invariant
            i <= p@.len(),
            index_of(margin_sets_view(p@.subrange(0, i as int)), id@) is None,
        decreases p@.len() - i,
    {
        let ghost next = margin_sets_view(p@.subrange(0, i + 1));
        assert(next.drop_last() =~= margin_sets_view(p@.subrange(0, i as int)));
        if same_text(p[i].display_id.as_str(), id) {
            proof { lemma_index_of_prefix(margin_sets_view(p@), id@, i + 1); assert(margin_sets_view(p@).subrange(0, i + 1) =~= next); }
            return Some(i);
        }
        i = i + 1;
    }
    proof { assert(margin_sets_view(p@.subrange(0, p@.len() as int)) =~= margin_sets_view(p@)); }
    None
}

/// A match found in a prefix is the first match of the whole.
proof fn lemma_index_of_prefix<T>(s: Seq<(Seq<char>, T)>, id: Seq<char>, n: int)
    requires
        0 <= n <= s.len(),
        index_of(s.subrange(0, n), id) is Some,
    ensures
        index_of(s, id) == index_of(s.subrange(0, n), id),
    decreases s.len() - n,
{
    if n < s.len() {
        assert(s.subrange(0, n + 1).drop_last() =~= s.subrange(0, n));
        lemma_index_of_prefix(s, id, n + 1);
    } else {
        assert(s.subrange(0, n) =~= s);
    }
}

proof fn lemma_index_of_bounds<T>(s: Seq<(Seq<char>, T)>, id: Seq<char>)
    ensures
        index_of(s, id) matches Some(i) ==> 0 <= i < s.len() && s[i].0 == id,
    decreases s.len(),
{
    if s.len() > 0 {
        lemma_index_of_bounds(s.drop_last(), id);
    }
}

/// Every inactive surface shown but those of display `active_display_id`, only
/// the active surfaces of that display shown; one show or hide queued each.
pub open spec fn visibility_updated(before: ManagerView, after: ManagerView, active_display_id: Seq<char>) -> bool {
    &&& after == (ManagerView {
        inactive: with_visibility(before.inactive, active_display_id, false),
        active: with_visibility(before.active, active_display_id, true),
        pending: before.pending + visibility_ops(
            surfaces_of(with_visibility(before.inactive, active_display_id, false)),
        ) + visibility_ops(
            surfaces_of(with_visibility(before.active, active_display_id, true)),
        ),
        ..before
    })
}

/// Every surface of every category hidden; one hide queued each.
pub open spec fn all_hidden(before: ManagerView, after: ManagerView) -> bool {
    &&& after == (ManagerView {
        inactive: entries_set(before.inactive, false),
        active: entries_set(before.active, false),
        partial: margin_sets_set(before.partial, false),
        tmux: all_set(before.tmux, false),
        pending: before.pending + visibility_ops(
            surfaces_of(entries_set(before.inactive, false)),
        ) + visibility_ops(surfaces_of(entries_set(before.active, false)))
            + visibility_ops(all_margins(margin_sets_set(before.partial, false)))
            + visibility_ops(all_set(before.tmux, false)),
        ..before
    })
}

/// Every surface of every category shown; one show queued each.
pub open spec fn all_shown(before: ManagerView, after: ManagerView) -> bool {
    &&& after == (ManagerView {
        inactive: entries_set(before.inactive, true),
        active: entries_set(before.active, true),
        partial: margin_sets_set(before.partial, true),
        tmux: all_set(before.tmux, true),
        pending: before.pending + visibility_ops(
            surfaces_of(entries_set(before.inactive, true)),
        ) + visibility_ops(surfaces_of(entries_set(before.active, true)))
            + visibility_ops(all_margins(margin_sets_set(before.partial, true)))
            + visibility_ops(all_set(before.tmux, true)),
        ..before
    })
}

/// The inactive surfaces destroyed and forgotten.
pub open spec fn inactive_closed(before: ManagerView, after: ManagerView) -> bool {
    &&& after == (ManagerView {
        inactive: Seq::empty(),
        pending: before.pending + destroy_ops(surfaces_of(before.inactive)),
        ..before
    })
}

/// The active surfaces destroyed and forgotten.
pub open spec fn active_closed(before: ManagerView, after: ManagerView) -> bool {
    &&& after == (ManagerView {
        active: Seq::empty(),
        pending: before.pending + destroy_ops(surfaces_of(before.active)),
        ..before
    })
}

/// The margin surfaces of every display destroyed and forgotten.
pub open spec fn partial_cleared(before: ManagerView, after: ManagerView) -> bool {
    &&& after == (ManagerView {
        partial: Seq::empty(),
        pending: before.pending + destroy_ops(all_margins(before.partial)),
        ..before
    })
}

/// The terminal-pane surfaces destroyed and forgotten.
pub open spec fn tmux_cleared(before: ManagerView, after: ManagerView) -> bool {
    &&& after == (ManagerView {
        tmux: Seq::empty(),
        pending: before.pending + destroy_ops(before.tmux),
        ..before
    })
}

/// The active surfaces destroyed, then, with an active color, one shown
/// surface per display of `ds` created in it.
pub open spec fn active_recreated(before: ManagerView, after: ManagerView, ds: Seq<DisplayInfo>) -> bool {
    &&& before.active_color is None ==> after == (ManagerView {
        active: Seq::empty(),
        pending: before.pending + destroy_ops(surfaces_of(before.active)),
        ..before
    })
    &&& before.active_color matches Some(c) ==> {
        &&& covers_displays(after.active, ds)
        &&& after == (ManagerView {
            active: after.active,
            pending: before.pending + destroy_ops(surfaces_of(before.active))
                + create_ops(surfaces_of(after.active), SurfaceKind::Active, c),
            ..before
        })
    }
}

/// The inactive color set to `color` and the inactive surfaces recreated in it,
/// one per display of `ds`.
pub open spec fn inactive_recolored(before: ManagerView, after: ManagerView, color: OverlayColor, ds: Seq<DisplayInfo>) -> bool {
    &&& covers_displays(after.inactive, ds)
    &&& after == (ManagerView {
        inactive: after.inactive,
        inactive_color: color,
        pending: before.pending + destroy_ops(surfaces_of(before.inactive)) + create_ops(
            surfaces_of(after.inactive),
            SurfaceKind::Inactive,
            color,
        ),
        ..before
    })
}

/// The active color set to `color` and the active surfaces recreated in it (none
/// for `None`), one per display of `ds`.
pub open spec fn active_recolored(before: ManagerView, after: ManagerView, color: Option<OverlayColor>, ds: Seq<DisplayInfo>) -> bool {
    &&& color is None ==> after == (ManagerView {
        active: Seq::empty(),
        active_color: color,
        pending: before.pending + destroy_ops(surfaces_of(before.active)),
        ..before
    })
    &&& color matches Some(c) ==> {
        &&& covers_displays(after.active, ds)
        &&& after == (ManagerView {
            active: after.active,
            active_color: color,
            pending: before.pending + destroy_ops(surfaces_of(before.active))
                + create_ops(surfaces_of(after.active), SurfaceKind::Active, c),
            ..before
        })
    }
}

/// `create_partial_overlays`: fails exactly where the margins do not fit in
/// `i32`, changing nothing; otherwise the margin surfaces of `display_id` are
/// replaced by shown surfaces at `margin_parts`, in the inactive color.
pub open spec fn partial_created(before: ManagerView, after: ManagerView, display_id: Seq<char>, window_rect: WindowRect, display: DisplayInfo, r: Result<(), String>) -> bool {
    &&& r is Ok <==> margins_fit(window_rect, display)
    &&& r is Err ==> after == before
    &&& r is Ok ==> ({
        let kept = without_display(before.partial, display_id);
        let parts = margin_parts(window_rect, display);
        let created = if parts.len() == 0 {
            Seq::empty()
        } else {
            after.partial.last().1
        };
        &&& placed(created, parts)
        &&& after == (ManagerView {
            partial: if parts.len() == 0 {
                kept
            } else {
                kept.push((display_id, created))
            },
            pending: before.pending + destroy_ops(
                margins_of_display(before.partial, display_id),
            ) + create_ops(created, SurfaceKind::Partial, before.inactive_color),
            ..before
        })
    })
}

/// `update_partial_and_active_overlays_atomic`: no margin set for the display,
/// or a number of margins needed that differs from the number it has, gives
/// `Ok(false)` and changes nothing; margins that do not fit in `i32` give an
/// error and change nothing; otherwise the margins (and, with
/// `update_active`, the display's active surface) move in one batch.
pub open spec fn partial_moved(before: ManagerView, after: ManagerView, display_id: Seq<char>, window_rect: WindowRect, display: DisplayInfo, update_active: bool, is_maximized: bool, r: Result<bool, String>) -> bool {
    &&& index_of(before.partial, display_id) is None ==> r == Ok::<bool, String>(false)
        && after == before
    &&& index_of(before.partial, display_id) matches Some(i) ==> {
        let existing = before.partial[i].1;
        let parts = margin_parts(window_rect, display);
        let margin_moves = moves_to(existing, parts);
        let target = if is_maximized {
            display_placement(display)
        } else {
            rect_placement(window_rect)
        };
        &&& !margins_fit(window_rect, display) ==> r is Err && after == before
        &&& margins_fit(window_rect, display) && parts.len() != existing.len() ==> r == Ok::<
            bool,
            String,
        >(false) && after == before
        &&& margins_fit(window_rect, display) && parts.len() == existing.len() ==> {
            &&& r == Ok::<bool, String>(true)
            &&& (if update_active && index_of(before.active, display_id) is Some {
                let j = index_of(before.active, display_id)->Some_0;
                let surface = before.active[j].1;
                &&& queued_reposition(
                    before.pending,
                    after.pending,
                    margin_moves.push(SurfaceMove { id: surface.id, placement: target }),
                )
                &&& after.active == before.active.update(
                    j,
                    (display_id, Surface { placement: target, ..surface }),
                )
            } else {
                &&& queued_reposition(before.pending, after.pending, margin_moves)
                &&& after.active == before.active
            })
            &&& after == (ManagerView {
                partial: before.partial.update(i, (display_id, moved(existing, parts))),
                active: after.active,
                pending: after.pending,
                ..before
            })
        }
    }
}

/// `update_partial_overlays`: as `partial_moved`, without the active surface.
pub open spec fn partial_moved_alone(before: ManagerView, after: ManagerView, display_id: Seq<char>, window_rect: WindowRect, display: DisplayInfo, r: Result<bool, String>) -> bool {
    &&& index_of(before.partial, display_id) is None ==> r == Ok::<bool, String>(false)
        && after == before
    &&& index_of(before.partial, display_id) matches Some(i) ==> {
        let existing = before.partial[i].1;
        let parts = margin_parts(window_rect, display);
        &&& !margins_fit(window_rect, display) ==> r is Err && after == before
        &&& margins_fit(window_rect, display) && parts.len() != existing.len() ==> r == Ok::<
            bool,
            String,
        >(false) && after == before
        &&& margins_fit(window_rect, display) && parts.len() == existing.len() ==> {
            &&& r == Ok::<bool, String>(true)
            &&& queued_reposition(before.pending, after.pending, moves_to(existing, parts))
            &&& after == (ManagerView {
                partial: before.partial.update(i, (display_id, moved(existing, parts))),
                pending: after.pending,
                ..before
            })
        }
    }
}

/// `resize_active_overlay`: the display's active surface moved over the window,
/// or an error, changing nothing, where there is none or the size does not
/// fit in `i32`.
pub open spec fn active_resized(before: ManagerView, after: ManagerView, display_id: Seq<char>, window_rect: WindowRect, r: Result<(), String>) -> bool {
    &&& r is Ok <==> index_of(before.active, display_id) is Some && rect_fits(window_rect)
    &&& r is Err ==> after == before
    &&& r is Ok ==> ({
        let j = index_of(before.active, display_id)->Some_0;
        let surface = before.active[j].1;
        &&& queued_reposition(
            before.pending,
            after.pending,
            seq![SurfaceMove { id: surface.id, placement: rect_placement(window_rect) }],
        )
        &&& after == (ManagerView {
            active: before.active.update(
                j,
                (display_id, Surface { placement: rect_placement(window_rect), ..surface }),
            ),
            pending: after.pending,
            ..before
        })
    })
}

/// `restore_active_overlay_full_size`: the display's active surface moved over
/// the whole display, or an error, changing nothing, where there is none.
pub open spec fn active_restored(before: ManagerView, after: ManagerView, display_id: Seq<char>, display: DisplayInfo, r: Result<(), String>) -> bool {
    &&& r is Ok <==> index_of(before.active, display_id) is Some
    &&& r is Err ==> after == before
    &&& r is Ok ==> ({
        let j = index_of(before.active, display_id)->Some_0;
        let surface = before.active[j].1;
        &&& queued_reposition(
            before.pending,
            after.pending,
            seq![SurfaceMove { id: surface.id, placement: display_placement(display) }],
        )
        &&& after == (ManagerView {
            active: before.active.update(
                j,
                (display_id, Surface { placement: display_placement(display), ..surface }),
            ),
            pending: after.pending,
            ..before
        })
    })
}

/// `create_tmux_overlays`: fails exactly where a valid pane's content area
/// does not fit in `i32`, changing nothing; otherwise the pane surfaces are
/// replaced by shown surfaces at `tmux_placements`, in the inactive color.
pub open spec fn tmux_created(before: ManagerView, after: ManagerView, pane_info: TmuxPaneInfo, terminal_window_rect: WindowRect, terminal_geometry: TerminalGeometry, r: Result<(), String>) -> bool {
    &&& r is Ok <==> (pane_info.valid() ==> pixels_fit(pane_info, terminal_window_rect, terminal_geometry))
    &&& r is Err ==> after == before
    &&& r is Ok ==> {
        &&& placed(after.tmux, tmux_placements(pane_info, terminal_window_rect, terminal_geometry))
        &&& after == (ManagerView {
            tmux: after.tmux,
            pending: before.pending + destroy_ops(before.tmux) + create_ops(
                after.tmux,
                SurfaceKind::Tmux,
                before.inactive_color,
            ),
            ..before
        })
    }
}

/// Only the inactive color changed.
pub open spec fn inactive_color_set(before: ManagerView, after: ManagerView, color: OverlayColor) -> bool {
    &&& after == (ManagerView { inactive_color: color, ..before })
}

/// Only the active color changed.
pub open spec fn active_color_set(before: ManagerView, after: ManagerView, color: Option<OverlayColor>) -> bool {
    &&& after == (ManagerView { active_color: color, ..before })
}

/// The margin surfaces of display `display_id` destroyed and forgotten.
pub open spec fn display_partial_cleared(before: ManagerView, after: ManagerView, display_id: Seq<char>) -> bool {
    &&& after == (ManagerView {
        partial: without_display(before.partial, display_id),
        pending: before.pending + destroy_ops(
            margins_of_display(before.partial, display_id),
        ),
        ..before
    })
}

impl OverlayManager {
    /// A manager with no surfaces and nothing pending.
    pub fn new(inactive_color: OverlayColor, active_color: Option<OverlayColor>) -> (m: Self)
        ensures
            m@ == fresh_view(inactive_color, active_color),
    {
        let m = OverlayManager {
            inactive: Vec::new(),
            active: Vec::new(),
            partial: Vec::new(),
            tmux: Vec::new(),
            inactive_color,
            active_color,
            next_id: 1,
            pending: Vec::new(),
        };
        assert(entries_view(m.inactive@) =~= Seq::empty());
        assert(entries_view(m.active@) =~= Seq::empty());
        assert(margin_sets_view(m.partial@) =~= Seq::empty());
        m
    }

    /// Hands over the operations queued so far, oldest first.
    pub fn take_ops(&mut self) -> (ops: Vec<SurfaceOp>)
        ensures
            ops@ == old(self)@.pending,
            final(self)@ == (ManagerView { pending: Seq::empty(), ..old(self)@ }),
    {
        let mut ops = Vec::new();
        std::mem::swap(&mut ops, &mut self.pending);
        ops
    }

    /// Takes a fresh id for a new, shown surface and queues its creation.
    fn alloc_surface(&mut self, kind: SurfaceKind, placement: Placement, color: OverlayColor) -> (s: Surface)
        ensures
            s.placement == placement,
            s.visible,
            final(self).pending@ == old(self).pending@.push(
                SurfaceOp::Create { id: s.id, kind, placement, color },
            ),
            final(self).inactive == old(self).inactive,
            final(self).active == old(self).active,
            final(self).partial == old(self).partial,
            final(self).tmux == old(self).tmux,
            final(self).inactive_color == old(self).inactive_color,
            final(self).active_color == old(self).active_color,
    {
        let id = self.next_id;
        self.next_id = self.next_id.wrapping_add(1);
        self.pending.push(SurfaceOp::Create { id, kind, placement, color });
        Surface { id, placement, visible: true }
    }

    /// Creates one surface of `kind` per display, covering it.
    fn create_for_displays(&mut self, displays: &[DisplayInfo], kind: SurfaceKind, color: OverlayColor) -> (r: Vec<
        DisplaySurface,
    >)
        ensures
            covers_displays(entries_view(r@), displays@),
            final(self).pending@ == old(self).pending@ + create_ops(
                surfaces_of(entries_view(r@)),
                kind,
                color,
            ),
            final(self).inactive == old(self).inactive,
            final(self).active == old(self).active,
            final(self).partial == old(self).partial,
            final(self).tmux == old(self).tmux,
            final(self).inactive_color == old(self).inactive_color,
            final(self).active_color == old(self).active_color,
    {
        let ghost start = self.pending@;
        let mut r: Vec<DisplaySurface> = Vec::new();
        let mut i: usize = 0;
        while i < displays.len()
            invariant
                i <= displays@.len(),
                r@.len() == i,
                covers_displays(entries_view(r@), displays@.subrange(0, i as int)),
                self.pending@ == start + create_ops(surfaces_of(entries_view(r@)), kind, color),
                self.inactive == old(self).inactive,
                self.active == old(self).active,
                self.partial == old(self).partial,
                self.tmux == old(self).tmux,
                self.inactive_color == old(self).inactive_color,
                self.active_color == old(self).active_color,
            decreases displays@.len() - i,
        {
            let d = &displays[i];
            let placement = Placement { x: d.x, y: d.y, width: d.width, height: d.height };
            let surface = self.alloc_surface(kind, placement, color);
            let ghost before = r@;
            r.push(DisplaySurface { display_id: d.id.clone(), surface });
            proof {
                assert(entries_view(r@) =~= entries_view(before).push((d.id@, surface)));
                assert(create_ops(surfaces_of(entries_view(r@)), kind, color) =~= create_ops(
                    surfaces_of(entries_view(before)),
                    kind,
                    color,
                ).push(SurfaceOp::Create { id: surface.id, kind, placement, color }));
                assert forall|j: int| 0 <= j < i + 1 implies (#[trigger] entries_view(r@)[j]).0 == displays@.subrange(0, i + 1)[j].id@
                    && entries_view(r@)[j].1.placement == display_placement(displays@.subrange(0, i + 1)[j])
                    && entries_view(r@)[j].1.visible by {
                    if j < i {
                        assert(entries_view(r@)[j] == entries_view(before)[j]);
                        assert(displays@.subrange(0, i + 1)[j] == displays@.subrange(0, i as int)[j]);
                    }
                }
            }
            i = i + 1;
        }
        assert(displays@.subrange(0, displays@.len() as int) =~= displays@);
        r
    }

    /// Destroys and forgets the inactive surfaces.
    pub fn close_inactive(&mut self)
        ensures
            inactive_closed(old(self)@, final(self)@),

    {
        queue_destroy_entries(&mut self.pending, &self.inactive);
        self.inactive = Vec::new();
        assert(entries_view(self.inactive@) =~= Seq::empty());
    }

    /// Destroys and forgets the active surfaces.
    pub fn close_active(&mut self)
        ensures
            active_closed(old(self)@, final(self)@),

    {
        queue_destroy_entries(&mut self.pending, &self.active);
        self.active = Vec::new();
        assert(entries_view(self.active@) =~= Seq::empty());
    }

    /// Destroys and forgets the margin surfaces of every display.
    pub fn clear_all_partial_overlays(&mut self)
        ensures
            partial_cleared(old(self)@, final(self)@),

    {
        queue_destroy_margin_sets(&mut self.pending, &self.partial);
        self.partial = Vec::new();
        assert(margin_sets_view(self.partial@) =~= Seq::empty());
    }

    /// Destroys and forgets the terminal-pane surfaces.
    pub fn clear_tmux_overlays(&mut self)
        ensures
            tmux_cleared(old(self)@, final(self)@),

    {
        queue_destroy_surfaces(&mut self.pending, &self.tmux);
        self.tmux = Vec::new();
    }

    /// Destroys and forgets every surface of every category, each once.
    pub fn close_all(&mut self)
        ensures
            final(self)@ == after_close_all(old(self)@),
    {
        self.close_inactive();
        self.close_active();
        self.clear_all_partial_overlays();
        self.clear_tmux_overlays();
    }

    /// Replaces the inactive surfaces by one per display, shown and covering
    /// it, in the inactive color; the earlier ones are destroyed first.
    pub fn create_inactive_overlays(&mut self, displays: &[DisplayInfo])
        ensures
            inactive_created(old(self)@, final(self)@, displays@),
    {
        self.close_inactive();
        let color = self.inactive_color;
        let r = self.create_for_displays(displays, SurfaceKind::Inactive, color);
        self.inactive = r;
    }

    /// With an active color configured, replaces the active surfaces by one per
    /// display, shown and covering it, in that color (the earlier ones are
    /// destroyed first); without one, changes nothing.
    pub fn create_active_overlays(&mut self, displays: &[DisplayInfo])
        ensures
            active_created(old(self)@, final(self)@, displays@),
    {
        match self.active_color {
            None => {},
            Some(color) => {
                self.close_active();
                let r = self.create_for_displays(displays, SurfaceKind::Active, color);
                self.active = r;
            },
        }
    }

    /// Destroys the inactive surfaces and creates them anew, one per display.
    pub fn recreate_inactive_overlays(&mut self, displays: &[DisplayInfo])
        ensures
            inactive_created(old(self)@, final(self)@, displays@),
    {
        self.close_inactive();
        self.create_inactive_overlays(displays);
        assert(destroy_ops(surfaces_of(Seq::<(Seq<char>, Surface)>::empty())) =~= Seq::empty());
    }

    /// Destroys the active surfaces and, with an active color configured,
    /// creates them anew, one per display.
    pub fn recreate_active_overlays(&mut self, displays: &[DisplayInfo])
        ensures
            active_recreated(old(self)@, final(self)@, displays@),

    {
        self.close_active();
        self.create_active_overlays(displays);
        assert(destroy_ops(surfaces_of(Seq::<(Seq<char>, Surface)>::empty())) =~= Seq::empty());
    }

    /// Sets the inactive color and recreates the inactive surfaces in it.
    pub fn set_inactive_color(&mut self, color: OverlayColor, displays: &[DisplayInfo])
        ensures
            inactive_recolored(old(self)@, final(self)@, color, displays@),

    {
        self.inactive_color = color;
        self.recreate_inactive_overlays(displays);
    }

    /// Sets the active color and recreates the active surfaces in it (none
    /// when the color is `None`).
    pub fn set_active_color(&mut self, color: Option<OverlayColor>, displays: &[DisplayInfo])
        ensures
            active_recolored(old(self)@, final(self)@, color, displays@),

    {
        self.active_color = color;
        self.recreate_active_overlays(displays);
    }

    /// Sets the inactive color for surfaces created from now on.
    pub fn update_inactive_color_only(&mut self, color: OverlayColor)
        ensures
            inactive_color_set(old(self)@, final(self)@, color),

    {
        self.inactive_color = color;
    }

    /// Sets the active color for surfaces created from now on.
    pub fn update_active_color_only(&mut self, color: Option<OverlayColor>)
        ensures
            active_color_set(old(self)@, final(self)@, color),

    {
        self.active_color = color;
    }

    /// Shows every inactive surface but that of the active display, and only
    /// the active surface of the active display.
    pub fn update_visibility(&mut self, active_display_id: &str)
        ensures
            visibility_updated(old(self)@, final(self)@, active_display_id@),

    {
        let inactive = restyle_entries(&self.inactive, active_display_id, false, &mut self.pending);
        self.inactive = inactive;
        let active = restyle_entries(&self.active, active_display_id, true, &mut self.pending);
        self.active = active;
    }

    fn set_all_visible(&mut self, visible: bool)
        ensures
            final(self)@ == (ManagerView {
                inactive: entries_set(old(self)@.inactive, visible),
                active: entries_set(old(self)@.active, visible),
                partial: margin_sets_set(old(self)@.partial, visible),
                tmux: all_set(old(self)@.tmux, visible),
                pending: old(self)@.pending + visibility_ops(
                    surfaces_of(entries_set(old(self)@.inactive, visible)),
                ) + visibility_ops(surfaces_of(entries_set(old(self)@.active, visible)))
                    + visibility_ops(all_margins(margin_sets_set(old(self)@.partial, visible)))
                    + visibility_ops(all_set(old(self)@.tmux, visible)),
                ..old(self)@
            }),
    {
        let inactive = set_entries_visible(&self.inactive, visible, &mut self.pending);
        self.inactive = inactive;
        let active = set_entries_visible(&self.active, visible, &mut self.pending);
        self.active = active;
        let partial = set_margin_sets_visible(&self.partial, visible, &mut self.pending);
        self.partial = partial;
        let tmux = set_surfaces_visible(&self.tmux, visible, &mut self.pending);
        self.tmux = tmux;
    }

    /// Hides every surface of every category.
    pub fn hide_all(&mut self)
        ensures
            all_hidden(old(self)@, final(self)@),

    {
        self.set_all_visible(false);
    }

    /// Shows every surface of every category.
    pub fn show_all(&mut self)
        ensures
            all_shown(old(self)@, final(self)@),

    {
        self.set_all_visible(true);
    }

    /// Creates one surface of `kind` at each of `parts`.
    fn create_surfaces(&mut self, parts: &Vec<Placement>, kind: SurfaceKind, color: OverlayColor) -> (r: Vec<
        Surface,
    >)
        ensures
            placed(r@, parts@),
            final(self).pending@ == old(self).pending@ + create_ops(r@, kind, color),
            final(self).inactive == old(self).inactive,
            final(self).active == old(self).active,
            final(self).partial == old(self).partial,
            final(self).tmux == old(self).tmux,
            final(self).inactive_color == old(self).inactive_color,
            final(self).active_color == old(self).active_color,
    {
        let ghost start = self.pending@;
        let mut r: Vec<Surface> = Vec::new();
        let mut i: usize = 0;
        while i < parts.len()
            invariant
                i <= parts@.len(),
                placed(r@, parts@.subrange(0, i as int)),
                self.pending@ == start + create_ops(r@, kind, color),
                self.inactive == old(self).inactive,
                self.active == old(self).active,
                self.partial == old(self).partial,
                self.tmux == old(self).tmux,
                self.inactive_color == old(self).inactive_color,
                self.active_color == old(self).active_color,
            decreases parts@.len() - i,
        {
            let surface = self.alloc_surface(kind, parts[i], color);
            let ghost before = r@;
            r.push(surface);
            proof {
                assert(create_ops(r@, kind, color) =~= create_ops(before, kind, color).push(
                    SurfaceOp::Create { id: surface.id, kind, placement: parts@[i as int], color },
                ));
                assert forall|j: int| 0 <= j < r@.len() implies (#[trigger] r@[j]).placement
                    == parts@.subrange(0, i + 1)[j] && r@[j].visible by {
                    if j < i {
                        assert(r@[j] == before[j]);
                        assert(parts@.subrange(0, i + 1)[j] == parts@.subrange(0, i as int)[j]);
                    }
                }
            }
            i = i + 1;
        }
        assert(parts@.subrange(0, parts@.len() as int) =~= parts@);
        r
    }

    /// Destroys and forgets the margin surfaces of one display.
    pub fn clear_partial_overlays_for_display(&mut self, display_id: &str)
        ensures
            display_partial_cleared(old(self)@, final(self)@, display_id@),

    {
        let ghost start = self.pending@;
        let mut kept: Vec<MarginSet> = Vec::new();
        let mut old_sets: Vec<MarginSet> = Vec::new();
        std::mem::swap(&mut old_sets, &mut self.partial);
        let ghost sets = old_sets@;
        let mut i: usize = 0;
        while i < old_sets.len()
            invariant
                i <= old_sets@.len(),
                old_sets@ == sets,
                margin_sets_view(sets) == old(self)@.partial,
                margin_sets_view(kept@) == without_display(
                    margin_sets_view(sets.subrange(0, i as int)),
                    display_id@,
                ),
                self.pending@ == start + destroy_ops(
                    margins_of_display(margin_sets_view(sets.subrange(0, i as int)), display_id@),
                ),
                self.inactive == old(self).inactive,
                self.active == old(self).active,
                self.tmux == old(self).tmux,
                self.inactive_color == old(self).inactive_color,
                self.active_color == old(self).active_color,
                self.pending@.len() >= start.len(),
            decreases old_sets@.len() - i,
        {
            let m = &old_sets[i];
            let ghost prev = margin_sets_view(sets.subrange(0, i as int));
            let ghost next = margin_sets_view(sets.subrange(0, i + 1));
            assert(next.drop_last() =~= prev);
            if same_text(m.display_id.as_str(), display_id) {
                queue_destroy_surfaces(&mut self.pending, &m.margins);
                proof {
                    lemma_destroy_ops_concat(margins_of_display(prev, display_id@), m.margins@);
                }
            } else {
                let mut margins: Vec<Surface> = Vec::new();
                let mut k: usize = 0;
                while k < m.margins.len()
                    invariant
                        k <= m.margins@.len(),
                        margins@ == m.margins@.subrange(0, k as int),
                    decreases m.margins@.len() - k,
                {
                    margins.push(m.margins[k]);
                    assert(m.margins@.subrange(0, k + 1) =~= m.margins@.subrange(0, k as int).push(
                        m.margins@[k as int],
                    ));
                    k = k + 1;
                }
                assert(m.margins@.subrange(0, m.margins@.len() as int) =~= m.margins@);
                let ghost before = kept@;
                kept.push(MarginSet { display_id: m.display_id.clone(), margins });
                assert(margin_sets_view(kept@) =~= margin_sets_view(before).push((m.display_id@, m.margins@)));
            }
            i = i + 1;
        }
        assert(sets.subrange(0, sets.len() as int) =~= sets);
        self.partial = kept;
    }

    /// Replaces the margin surfaces of `display_id` by shown surfaces at the
    /// margins of `display` around `window_rect` (none where no margin is
    /// needed), in the inactive color. Fails, changing nothing, where those
    /// margins do not fit in `i32` pixels.
    pub fn create_partial_overlays(&mut self, display_id: &str, window_rect: WindowRect, display: &DisplayInfo) -> (r:
        Result<(), String>)
        ensures
            partial_created(old(self)@, final(self)@, display_id@, window_rect, *display, r),

    {
        let parts = match compute_margins(&window_rect, display) {
            Some(parts) => parts,
            None => {
                return Err(String::from_str("Window rectangle does not fit the pixel range"));
            },
        };
        self.clear_partial_overlays_for_display(display_id);
        let color = self.inactive_color;
        let created = self.create_surfaces(&parts, SurfaceKind::Partial, color);
        if created.len() > 0 {
            let ghost before = self.partial@;
            let ghost made = created@;
            self.partial.push(MarginSet { display_id: display_id.to_owned(), margins: created });
            assert(margin_sets_view(self.partial@) =~= margin_sets_view(before).push((display_id@, made)));
        } else {
            assert(created@ =~= Seq::<Surface>::empty());
            assert(create_ops(created@, SurfaceKind::Partial, color) =~= Seq::empty());
        }
        Ok(())
    }

    /// Moves the existing margin surfaces of `display_id` in place to the
    /// margins of `display` around `window_rect`, in one batched update, and
    /// gives `Ok(true)`. Gives `Ok(false)`, changing nothing, where the display
    /// has no margin surfaces or where the number of margins needed differs
    /// from the number it has: the caller must then recreate them. Fails,
    /// changing nothing, where the margins do not fit in `i32` pixels.
    pub fn update_partial_overlays(&mut self, display_id: &str, window_rect: WindowRect, display: &DisplayInfo) -> (r:
        Result<bool, String>)
        ensures
            partial_moved_alone(old(self)@, final(self)@, display_id@, window_rect, *display, r),

    {
        self.update_partial_and_active_overlays_atomic(display_id, window_rect, display, false, false)
    }

    /// Moves the margin surfaces of `display_id`, as `update_partial_overlays`
    /// does, and with `update_active` also the active surface of that display
    /// (to the whole display where `is_maximized`, else to the window), all in
    /// one batched update.
    pub fn update_partial_and_active_overlays_atomic(
        &mut self,
        display_id: &str,
        window_rect: WindowRect,
        display: &DisplayInfo,
        update_active: bool,
        is_maximized: bool,
    ) -> (r: Result<bool, String>)
        ensures
            partial_moved(old(self)@, final(self)@, display_id@, window_rect, *display, update_active, is_maximized, r),

    {
        let i = match find_margin_set(&self.partial, display_id) {
            Some(i) => i,
            None => return Ok(false),
        };
        proof { lemma_index_of_bounds(margin_sets_view(self.partial@), display_id@); }
        let parts = match compute_margins(&window_rect, display) {
            Some(parts) => parts,
            None => {
                return Err(String::from_str("Window rectangle does not fit the pixel range"));
            },
        };
        if parts.len() != self.partial[i].margins.len() {
            return Ok(false);
        }
        let ghost existing = self.partial@[i as int].margins@;
        let mut moves: Vec<SurfaceMove> = Vec::new();
        let mut margins: Vec<Surface> = Vec::new();
        let mut k: usize = 0;
        while k < parts.len()
            invariant
                k <= parts@.len(),
                parts@.len() == existing.len(),
                i < self.partial@.len(),
                existing == self.partial@[i as int].margins@,
                moves@ == moves_to(existing.subrange(0, k as int), parts@.subrange(0, k as int)),
                margins@ == moved(existing.subrange(0, k as int), parts@.subrange(0, k as int)),
            decreases parts@.len() - k,
        {
            let old_surface = self.partial[i].margins[k];
            moves.push(SurfaceMove { id: old_surface.id, placement: parts[k] });
            margins.push(Surface { placement: parts[k], ..old_surface });
            assert(moves@ =~= moves_to(existing.subrange(0, k + 1), parts@.subrange(0, k + 1)));
            assert(margins@ =~= moved(existing.subrange(0, k + 1), parts@.subrange(0, k + 1)));
            k = k + 1;
        }
        assert(existing.subrange(0, existing.len() as int) =~= existing);
        assert(parts@.subrange(0, parts@.len() as int) =~= parts@);
        if update_active {
            match find_entry(&self.active, display_id) {
                Some(j) => {
                    proof { lemma_index_of_bounds(entries_view(self.active@), display_id@); }
                    let target = if is_maximized {
                        Placement { x: display.x, y: display.y, width: display.width, height: display.height }
                    } else {
                        Placement {
                            x: window_rect.left,
                            y: window_rect.top,
                            width: window_rect.right - window_rect.left,
                            height: window_rect.bottom - window_rect.top,
                        }
                    };
                    let surface = self.active[j].surface;
                    moves.push(SurfaceMove { id: surface.id, placement: target });
                    let id = self.active[j].display_id.clone();
                    let ghost before = self.active@;
                    self.active.set(j, DisplaySurface { display_id: id, surface: Surface { placement: target, ..surface } });
                    assert(entries_view(self.active@) =~= entries_view(before).update(
                        j as int,
                        (display_id@, Surface { placement: target, ..surface }),
                    ));
                },
                None => {},
            }
        }
        let ghost before_partial = self.partial@;
        let ghost made = margins@;
        let id = self.partial[i].display_id.clone();
        self.partial.set(i, MarginSet { display_id: id, margins });
        assert(margin_sets_view(self.partial@) =~= margin_sets_view(before_partial).update(
            i as int,
            (display_id@, made),
        ));
        let ghost before_pending = self.pending@;
        self.pending.push(SurfaceOp::Reposition { moves });
        assert(self.pending@.subrange(0, before_pending.len() as int) =~= before_pending);
        Ok(true)
    }

    /// Queues the move of active surface `j` to `target`.
    fn move_active(&mut self, j: usize, target: Placement)
        requires
            j < old(self).active@.len(),
        ensures
            queued_reposition(
                old(self)@.pending,
                final(self)@.pending,
                seq![SurfaceMove { id: old(self)@.active[j as int].1.id, placement: target }],
            ),
            final(self)@ == (ManagerView {
                active: old(self)@.active.update(
                    j as int,
                    (old(self)@.active[j as int].0, Surface { placement: target, ..old(self)@.active[j as int].1 }),
                ),
                pending: final(self)@.pending,
                ..old(self)@
            }),
    {
        let surface = self.active[j].surface;
        let mut moves: Vec<SurfaceMove> = Vec::new();
        moves.push(SurfaceMove { id: surface.id, placement: target });
        let ghost batch = moves@;
        let id = self.active[j].display_id.clone();
        let ghost before = self.active@;
        self.active.set(j, DisplaySurface { display_id: id, surface: Surface { placement: target, ..surface } });
        assert(entries_view(self.active@) =~= entries_view(before).update(
            j as int,
            (before[j as int].display_id@, Surface { placement: target, ..surface }),
        ));
        let ghost before_pending = self.pending@;
        self.pending.push(SurfaceOp::Reposition { moves });
        assert(self.pending@.subrange(0, before_pending.len() as int) =~= before_pending);
        assert(batch =~= seq![SurfaceMove { id: surface.id, placement: target }]);
    }

    /// Moves the active surface of `display_id` over the window `window_rect`.
    /// Fails, changing nothing, where that display has no active surface or the
    /// window's size does not fit in `i32`.
    pub fn resize_active_overlay(&mut self, display_id: &str, window_rect: WindowRect) -> (r: Result<(), String>)
        ensures
            active_resized(old(self)@, final(self)@, display_id@, window_rect, r),

    {
        let j = match find_entry(&self.active, display_id) {
            Some(j) => j,
            None => {
                let mut e = String::from_str("No active overlay found for display ");
                e.append(display_id);
                return Err(e);
            },
        };
        proof { lemma_index_of_bounds(entries_view(self.active@), display_id@); }
        let width = window_rect.right as i64 - window_rect.left as i64;
        let height = window_rect.bottom as i64 - window_rect.top as i64;
        if width < i32::MIN as i64 || width > i32::MAX as i64 || height < i32::MIN as i64 || height
            > i32::MAX as i64 {
            return Err(String::from_str("Window rectangle does not fit the pixel range"));
        }
        let target = Placement {
            x: window_rect.left,
            y: window_rect.top,
            width: width as i32,
            height: height as i32,
        };
        self.move_active(j, target);
        Ok(())
    }

    /// Moves the active surface of `display_id` back over the whole display.
    /// Fails, changing nothing, where that display has no active surface.
    pub fn restore_active_overlay_full_size(&mut self, display_id: &str, display: &DisplayInfo) -> (r: Result<(), String>)
        ensures
            active_restored(old(self)@, final(self)@, display_id@, *display, r),

    {
        let j = match find_entry(&self.active, display_id) {
            Some(j) => j,
            None => {
                let mut e = String::from_str("No active overlay found for display ");
                e.append(display_id);
                return Err(e);
            },
        };
        proof { lemma_index_of_bounds(entries_view(self.active@), display_id@); }
        let target = Placement { x: display.x, y: display.y, width: display.width, height: display.height };
        self.move_active(j, target);
        Ok(())
    }

    /// Replaces the terminal-pane surfaces by shown surfaces over the inactive
    /// panes of the terminal window (none for an invalid pane), in the
    /// inactive color. Fails, changing nothing, where the terminal's content
    /// area does not fit in `i32` pixels.
    pub fn create_tmux_overlays(
        &mut self,
        pane_info: &TmuxPaneInfo,
        terminal_window_rect: &WindowRect,
        terminal_geometry: &TerminalGeometry,
    ) -> (r: Result<(), String>)
        ensures
            tmux_created(old(self)@, final(self)@, *pane_info, *terminal_window_rect, *terminal_geometry, r),

    {
        if pane_info.is_valid() && !pixels_fit_check(pane_info, terminal_window_rect, terminal_geometry) {
            return Err(String::from_str("Terminal geometry does not fit the pixel range"));
        }
        self.clear_tmux_overlays();
        let rects = calculate_tmux_overlay_rects(pane_info, terminal_window_rect, terminal_geometry);
        proof { lemma_tmux_rect_extents(*pane_info, *terminal_window_rect, *terminal_geometry); }
        let mut parts: Vec<Placement> = Vec::new();
        let mut i: usize = 0;
        while i < rects.len()
            invariant
                i <= rects@.len(),
                extents_fit(rects@),
                parts@ == rects@.subrange(0, i as int).map_values(|r: OverlayRect| overlay_placement(r)),
            decreases rects@.len() - i,
        {
            let rect = rects[i];
            assert(fits_i32(rects@[i as int].right - rects@[i as int].left));
            parts.push(Placement { x: rect.left, y: rect.top, width: rect.width(), height: rect.height() });
            assert(rects@.subrange(0, i + 1).map_values(|r: OverlayRect| overlay_placement(r)) =~= rects@.subrange(
                0,
                i as int,
            ).map_values(|r: OverlayRect| overlay_placement(r)).push(overlay_placement(rect)));
            i = i + 1;
        }
        assert(rects@.subrange(0, rects@.len() as int) =~= rects@);
        let color = self.inactive_color;
        let created = self.create_surfaces(&parts, SurfaceKind::Tmux, color);
        self.tmux = created;
        Ok(())
    }

    /// The inactive surface of a display, if it has one.
    pub fn inactive_surface(&self, display_id: &str) -> (r: Option<Surface>)
        ensures
            r == (match index_of(self@.inactive, display_id@) {
                Some(i) => Some(self@.inactive[i].1),
                None => None,
            }),
    {
        match find_entry(&self.inactive, display_id) {
            Some(i) => {
                proof { lemma_index_of_bounds(entries_view(self.inactive@), display_id@); }
                Some(self.inactive[i].surface)
            },
            None => None,
        }
    }

    /// The active surface of a display, if it has one.
    pub fn active_surface(&self, display_id: &str) -> (r: Option<Surface>)
        ensures
            r == (match index_of(self@.active, display_id@) {
                Some(i) => Some(self@.active[i].1),
                None => None,
            }),
    {
        match find_entry(&self.active, display_id) {
            Some(i) => {
                proof { lemma_index_of_bounds(entries_view(self.active@), display_id@); }
                Some(self.active[i].surface)
            },
            None => None,
        }
    }

    /// The margin surfaces of a display, in the order top, bottom, left, right
    /// (those it has).
    pub fn margin_surfaces(&self, display_id: &str) -> (r: Vec<Surface>)
        ensures
            r@ == (match index_of(self@.partial, display_id@) {
                Some(i) => self@.partial[i].1,
                None => Seq::empty(),
            }),
    {
        match find_margin_set(&self.partial, display_id) {
            Some(i) => {
                proof { lemma_index_of_bounds(margin_sets_view(self.partial@), display_id@); }
                let m = &self.partial[i].margins;
                let mut r: Vec<Surface> = Vec::new();
                let mut k: usize = 0;
                while k < m.len()
                    invariant
                        k <= m@.len(),
                        r@ == m@.subrange(0, k as int),
                    decreases m@.len() - k,
                {
                    r.push(m[k]);
                    assert(m@.subrange(0, k + 1) =~= m@.subrange(0, k as int).push(m@[k as int]));
                    k = k + 1;
                }
                assert(m@.subrange(0, m@.len() as int) =~= m@);
                r
            },
            None => Vec::new(),
        }
    }

    /// The terminal-pane surfaces.
    pub fn tmux_surfaces(&self) -> (r: &Vec<Surface>)
        ensures
            r@ == self@.tmux,
    {
        &self.tmux
    }

    /// Number of inactive surfaces.
    pub fn inactive_count(&self) -> (n: usize)
        ensures
            n == self@.inactive.len(),
    {
        self.inactive.len()
    }

    /// Number of active surfaces.
    pub fn active_count(&self) -> (n: usize)
        ensures
            n == self@.active.len(),
    {
        self.active.len()
    }

    /// Number of terminal-pane surfaces.
    pub fn tmux_count(&self) -> (n: usize)
        ensures
            n == self@.tmux.len(),
    {
        self.tmux.len()
    }
}

/// Whether pixel `(x, y)` lies in placement `p`.
pub open spec fn placement_contains(p: Placement, x: int, y: int) -> bool {
    p.x <= x < p.x + p.width && p.y <= y < p.y + p.height
}

pub open spec fn one_if(b: bool) -> int {
    if b {
        1
    } else {
        0
    }
}

/// A window that keeps clear of every edge of its display (by more than
/// `EDGE_TOLERANCE`) gets four margins, top, bottom, left and right, each of
/// positive size, and every pixel of the display lies in exactly one of them
/// or in the window.
pub proof fn lemma_margins_partition_display(w: WindowRect, d: DisplayInfo)
    requires
        margins_fit(w, d),
        d.x + EDGE_TOLERANCE < w.left,
        w.left < w.right,
        w.right + EDGE_TOLERANCE < d.x + d.width,
        d.y + EDGE_TOLERANCE < w.top,
        w.top < w.bottom,
        w.bottom + EDGE_TOLERANCE < d.y + d.height,
    ensures
        margin_parts(w, d).len() == 4,
        forall|i: int| 0 <= i < 4 ==> (#[trigger] margin_parts(w, d)[i]).width > 0 && margin_parts(w, d)[i].height > 0,
        forall|x: int, y: int|
            d.x <= x < d.x + d.width && d.y <= y < d.y + d.height ==> one_if(
                w.left <= x < w.right && w.top <= y < w.bottom,
            ) + one_if(#[trigger] placement_contains(margin_parts(w, d)[0], x, y)) + one_if(
                placement_contains(margin_parts(w, d)[1], x, y),
            ) + one_if(placement_contains(margin_parts(w, d)[2], x, y)) + one_if(
                placement_contains(margin_parts(w, d)[3], x, y),
            ) == 1,
{
    let parts = margin_parts(w, d);
    let top = Placement { x: d.x, y: d.y, width: d.width, height: (w.top - d.y) as i32 };
    let bottom = Placement { x: d.x, y: w.bottom, width: d.width, height: (d.y + d.height - w.bottom) as i32 };
    let left = Placement { x: d.x, y: w.top, width: (w.left - d.x) as i32, height: (w.bottom - w.top) as i32 };
    let right = Placement { x: w.right, y: w.top, width: (d.x + d.width - w.right) as i32, height: (w.bottom - w.top) as i32 };
    assert(parts =~= seq![top, bottom, left, right]);
}

/// A window whose left edge lies within `EDGE_TOLERANCE` of its display's left
/// edge gets no left margin: no margin covers a pixel left of the window
/// within the window's rows.
pub proof fn lemma_flush_left_edge_no_left_margin(w: WindowRect, d: DisplayInfo)
    requires
        margins_fit(w, d),
        abs(w.left - d.x) <= EDGE_TOLERANCE,
        w.left < w.right,
    ensures
        forall|i: int, x: int, y: int|
            0 <= i < margin_parts(w, d).len() && x < w.left && w.top <= y < w.bottom ==> !#[trigger] placement_contains(
                margin_parts(w, d)[i],
                x,
                y,
            ),
{
    let parts = margin_parts(w, d);
    let display_left = d.x as int;
    let display_top = d.y as int;
    let display_right = d.x + d.width;
    let display_bottom = d.y + d.height;
    let top = place(!(abs(w.top - display_top) <= EDGE_TOLERANCE) && w.top > display_top, display_left, display_top, d.width as int, w.top - display_top);
    let bottom = place(!(abs(w.bottom - display_bottom) <= EDGE_TOLERANCE) && w.bottom < display_bottom, display_left, w.bottom as int, d.width as int, display_bottom - w.bottom);
    let right = place(!(abs(w.right - display_right) <= EDGE_TOLERANCE) && w.right < display_right && w.bottom - w.top > 0, w.right as int, w.top as int, display_right - w.right, w.bottom - w.top);
    assert(parts =~= top + bottom + right);
    assert forall|i: int, x: int, y: int|
        0 <= i < parts.len() && x < w.left && w.top <= y < w.bottom implies !#[trigger] placement_contains(
            parts[i],
            x,
            y,
        ) by {
        if i < top.len() {
            assert(parts[i] == top[i]);
        } else if i < top.len() + bottom.len() {
            assert(parts[i] == bottom[i - top.len()]);
        } else {
            assert(parts[i] == right[i - top.len() - bottom.len()]);
        }
    }
}

/// After `close_all` no surface of any category is left, and creating the
/// inactive surfaces then does what it does on a fresh manager with the same
/// colors: nothing more is destroyed, and one shown surface covering each
/// display is created.
pub proof fn lemma_close_all_then_create_inactive(m: ManagerView, ds: Seq<DisplayInfo>, after: ManagerView)
    requires
        inactive_created(after_close_all(m), after, ds),
    ensures
        after_close_all(m).inactive.len() == 0,
        after_close_all(m).active.len() == 0,
        after_close_all(m).partial.len() == 0,
        after_close_all(m).tmux.len() == 0,
        after.pending == after_close_all(m).pending + create_ops(
            surfaces_of(after.inactive),
            SurfaceKind::Inactive,
            m.inactive_color,
        ),
        inactive_created(
            fresh_view(m.inactive_color, m.active_color),
            ManagerView {
                pending: create_ops(surfaces_of(after.inactive), SurfaceKind::Inactive, m.inactive_color),
                ..after
            },
            ds,
        ),
{
    assert(destroy_ops(surfaces_of(Seq::<(Seq<char>, Surface)>::empty())) =~= Seq::empty());
    assert(Seq::<SurfaceOp>::empty() + Seq::<SurfaceOp>::empty() + create_ops(
        surfaces_of(after.inactive),
        SurfaceKind::Inactive,
        m.inactive_color,
    ) =~= create_ops(surfaces_of(after.inactive), SurfaceKind::Inactive, m.inactive_color));
    assert(after_close_all(m).pending + Seq::<SurfaceOp>::empty() =~= after_close_all(m).pending);
}

/// After `close_all`, creating the active surfaces does what it does on a
/// fresh manager with the same colors: with an active color, nothing more is
/// destroyed and one shown surface covering each display is created.
pub proof fn lemma_close_all_then_create_active(m: ManagerView, ds: Seq<DisplayInfo>, after: ManagerView)
    requires
        active_created(after_close_all(m), after, ds),
    ensures
        m.active_color is None ==> after == after_close_all(m),
        m.active_color matches Some(c) ==> {
            &&& after.pending == after_close_all(m).pending + create_ops(
                surfaces_of(after.active),
                SurfaceKind::Active,
                c,
            )
            &&& active_created(
                fresh_view(m.inactive_color, m.active_color),
                ManagerView {
                    pending: create_ops(surfaces_of(after.active), SurfaceKind::Active, c),
                    ..after
                },
                ds,
            )
        },
{
    assert(destroy_ops(surfaces_of(Seq::<(Seq<char>, Surface)>::empty())) =~= Seq::empty());
    assert(after_close_all(m).pending + Seq::<SurfaceOp>::empty() =~= after_close_all(m).pending);
    if let Some(c) = m.active_color {
        assert(Seq::<SurfaceOp>::empty() + Seq::<SurfaceOp>::empty() + create_ops(
            surfaces_of(after.active),
            SurfaceKind::Active,
            c,
        ) =~= create_ops(surfaces_of(after.active), SurfaceKind::Active, c));
    }
}

} // verus!
