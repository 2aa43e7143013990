//! Maps a terminal's character-cell pane layout to the pixel rectangles that
//! cover its inactive panes.

use vstd::prelude::*;
use crate::pane::TmuxPaneInfo;
use crate::platform::WindowRect;

verus! {

pub open spec fn fits_i32(v: int) -> bool {
    i32::MIN <= v <= i32::MAX
}

/// A rectangle in absolute screen pixels; right and bottom exclusive.
#[derive(Debug, Clone, Copy, PartialEq, Eq, Structural)]
pub struct OverlayRect {
    pub left: i32,
    pub top: i32,
    pub right: i32,
    pub bottom: i32,
}

impl OverlayRect {
    /// Positive width and positive height.
    pub open spec fn valid(self) -> bool {
        self.right > self.left && self.bottom > self.top
    }

    pub fn new(left: i32, top: i32, right: i32, bottom: i32) -> (r: Self)
        ensures
            r == (OverlayRect { left, top, right, bottom }),
    {
        OverlayRect { left, top, right, bottom }
    }

    pub fn width(&self) -> (r: i32)
        requires
            fits_i32(self.right - self.left),
        ensures
            r == self.right - self.left,
    {
        self.right - self.left
    }

    pub fn height(&self) -> (r: i32)
        requires
            fits_i32(self.bottom - self.top),
        ensures
            r == self.bottom - self.top,
    {
        self.bottom - self.top
    }

    /// Whether the rectangle has positive width and height.
    pub fn is_valid(&self) -> (r: bool)
        ensures
            r == self.valid(),
    {
        self.right > self.left && self.bottom > self.top
    }
}

/// The rectangle with the given edges, which must fit in `i32`.
pub open spec fn rect_of(left: int, top: int, right: int, bottom: int) -> OverlayRect {
    OverlayRect { left: left as i32, top: top as i32, right: right as i32, bottom: bottom as i32 }
}

/// Rust's `/` on integers: the quotient rounded toward zero (`b > 0`).
pub open spec fn trunc_div(a: int, b: int) -> int {
    if a >= 0 {
        a / b
    } else {
        -((-a) / b)
    }
}

/// Size of a character cell and the padding before the first cell, in pixels.
#[derive(Debug, Clone, Copy, PartialEq, Eq, Structural)]
pub struct TerminalGeometry {
    pub font_width: u32,
    pub font_height: u32,
    pub padding_left: i32,
    pub padding_top: i32,
}

impl TerminalGeometry {
    /// Cells have a positive size that fits in `i32`.
    pub open spec fn valid(self) -> bool {
        0 < self.font_width <= i32::MAX && 0 < self.font_height <= i32::MAX
    }

    /// Window-relative x of the left edge of column `col`.
    pub open spec fn x_of(self, col: int) -> int {
        self.padding_left + col * self.font_width
    }

    /// Window-relative y of the top edge of row `row`.
    pub open spec fn y_of(self, row: int) -> int {
        self.padding_top + row * self.font_height
    }

    pub fn new(font_width: u32, font_height: u32, padding_left: i32, padding_top: i32) -> (r: Self)
        ensures
            r == (TerminalGeometry { font_width, font_height, padding_left, padding_top }),
    {
        TerminalGeometry { font_width, font_height, padding_left, padding_top }
    }

    /// Column to window-relative pixel x.
    pub fn col_to_x(&self, col: i32) -> (r: i32)
        requires
            self.font_width <= i32::MAX,
            fits_i32(col * self.font_width),
            fits_i32(self.x_of(col as int)),
        ensures
            r == self.x_of(col as int),
    {
        self.padding_left + col * (self.font_width as i32)
    }

    /// Row to window-relative pixel y.
    pub fn row_to_y(&self, row: i32) -> (r: i32)
        requires
            self.font_height <= i32::MAX,
            fits_i32(row * self.font_height),
            fits_i32(self.y_of(row as int)),
        ensures
            r == self.y_of(row as int),
    {
        self.padding_top + row * (self.font_height as i32)
    }

    /// Window-relative pixel x to the column, rounding toward zero.
    pub fn x_to_col(&self, x: i32) -> (r: i32)
        requires
            0 < self.font_width <= i32::MAX,
            fits_i32(x - self.padding_left),
        ensures
            r == trunc_div(x - self.padding_left, self.font_width as int),
    {
        (x - self.padding_left) / (self.font_width as i32)
    }

    /// Window-relative pixel y to the row, rounding toward zero.
    pub fn y_to_row(&self, y: i32) -> (r: i32)
        requires
            0 < self.font_height <= i32::MAX,
            fits_i32(y - self.padding_top),
        ensures
            r == trunc_div(y - self.padding_top, self.font_height as int),
    {
        (y - self.padding_top) / (self.font_height as i32)
    }
}


/// The content area of a terminal whose window is `w` and whose multiplexer
/// window is `p`'s fits in `i32` pixels.
pub open spec fn pixels_fit(p: TmuxPaneInfo, w: WindowRect, g: TerminalGeometry) -> bool {
    &&& g.font_width <= i32::MAX
    &&& g.font_height <= i32::MAX
    &&& fits_i32(p.window_width * g.font_width)
    &&& fits_i32(p.window_height * g.font_height)
    &&& fits_i32(g.x_of(p.window_width as int))
    &&& fits_i32(g.y_of(p.window_height as int))
    &&& fits_i32(w.left + g.padding_left)
    &&& fits_i32(w.top + g.padding_top)
    &&& fits_i32(w.left + g.x_of(p.window_width as int))
    &&& fits_i32(w.top + g.y_of(p.window_height as int))
}

/// `r` if `keep` holds and `r` has positive width and height; nothing otherwise.
pub open spec fn strip(keep: bool, r: OverlayRect) -> Seq<OverlayRect> {
    if keep && r.valid() {
        seq![r]
    } else {
        Seq::empty()
    }
}

/// The rectangles that cover a terminal's content area except the active pane:
/// the full-width strip above the pane, the one below it, then the strips left
/// and right of it that span the pane's rows; empty for an invalid pane.
pub open spec fn tmux_rects(p: TmuxPaneInfo, w: WindowRect, g: TerminalGeometry) -> Seq<OverlayRect> {
    if !p.valid() {
        Seq::empty()
    } else {
        let pane_left = w.left + g.x_of(p.pane_left as int);
        let pane_top = w.top + g.y_of(p.pane_top as int);
        let pane_right = w.left + g.x_of(p.pane_right + 1);
        let pane_bottom = w.top + g.y_of(p.pane_bottom + 1);
        let content_left = w.left + g.padding_left;
        let content_top = w.top + g.padding_top;
        let content_right = w.left + g.x_of(p.window_width as int);
        let content_bottom = w.top + g.y_of(p.window_height as int);
        strip(pane_top > content_top, rect_of(content_left, content_top, content_right, pane_top))
            + strip(
            pane_bottom < content_bottom,
            rect_of(content_left, pane_bottom, content_right, content_bottom),
        ) + strip(pane_left > content_left, rect_of(content_left, pane_top, pane_left, pane_bottom))
            + strip(pane_right < content_right, rect_of(pane_right, pane_top, content_right, pane_bottom))
    }
}

proof fn lemma_scaled_between(c: int, n: int, f: int)
    requires
        0 <= c <= n,
        0 <= f,
    ensures
        0 <= c * f <= n * f,
{
    assert(0 <= c * f <= n * f) by (nonlinear_arith)
        requires
            0 <= c <= n,
            0 <= f,
    ;
}

proof fn lemma_product_bound(a: int, f: int)
    requires
        i32::MIN <= a <= i32::MAX,
        0 <= f <= u32::MAX,
    ensures
        -0x1_0000_0000_0000_0000 <= a * f <= 0x1_0000_0000_0000_0000,
{
    assert(-0x1_0000_0000_0000_0000 <= a * f <= 0x1_0000_0000_0000_0000) by (nonlinear_arith)
        requires
            i32::MIN <= a <= i32::MAX,
            0 <= f <= u32::MAX,
    ;
}

/// Whether the content area of the terminal fits in `i32` pixels.
pub fn pixels_fit_check(p: &TmuxPaneInfo, w: &WindowRect, g: &TerminalGeometry) -> (r: bool)
    ensures
        r == pixels_fit(*p, *w, *g),
{
    let fw = g.font_width as i128;
    let fh = g.font_height as i128;
    proof {
        lemma_product_bound(p.window_width as int, g.font_width as int);
        lemma_product_bound(p.window_height as int, g.font_height as int);
    }
    let cols = p.window_width as i128 * fw;
    let rows = p.window_height as i128 * fh;
    let lo = i32::MIN as i128;
    let hi = i32::MAX as i128;
    let x_end = g.padding_left as i128 + cols;
    let y_end = g.padding_top as i128 + rows;
    let x0 = w.left as i128 + g.padding_left as i128;
    let y0 = w.top as i128 + g.padding_top as i128;
    let x1 = w.left as i128 + x_end;
    let y1 = w.top as i128 + y_end;
    fw <= hi && fh <= hi && lo <= cols && cols <= hi && lo <= rows && rows <= hi && lo <= x_end
        && x_end <= hi && lo <= y_end && y_end <= hi && lo <= x0 && x0 <= hi && lo <= y0 && y0 <= hi
        && lo <= x1 && x1 <= hi && lo <= y1 && y1 <= hi
}

/// The rectangles, in absolute screen pixels, that dim the inactive panes of a
/// terminal window: up to four, in the order top, bottom, left, right.
pub fn calculate_tmux_overlay_rects(
    pane_info: &TmuxPaneInfo,
    terminal_window: &WindowRect,
    geometry: &TerminalGeometry,
) -> (r: Vec<OverlayRect>)
    requires
        pane_info.valid() ==> pixels_fit(*pane_info, *terminal_window, *geometry),
    ensures
        r@ == tmux_rects(*pane_info, *terminal_window, *geometry),
{
    if !pane_info.is_valid() {
        return Vec::new();
    }
    let p = *pane_info;
    let w = *terminal_window;
    let g = *geometry;
    proof {
        lemma_scaled_between(p.pane_left as int, p.window_width as int, g.font_width as int);
        lemma_scaled_between(p.pane_right + 1, p.window_width as int, g.font_width as int);
        lemma_scaled_between(p.pane_top as int, p.window_height as int, g.font_height as int);
        lemma_scaled_between(p.pane_bottom + 1, p.window_height as int, g.font_height as int);
    }
    let window_left = w.left;
    let window_top = w.top;

    let pane_left_px = g.col_to_x(p.pane_left);
    let pane_top_px = g.row_to_y(p.pane_top);
    let pane_right_px = g.col_to_x(p.pane_right + 1);
    let pane_bottom_px = g.row_to_y(p.pane_bottom + 1);

    let pane_abs_left = window_left + pane_left_px;
    let pane_abs_top = window_top + pane_top_px;
    let pane_abs_right = window_left + pane_right_px;
    let pane_abs_bottom = window_top + pane_bottom_px;

    let content_left = window_left + g.padding_left;
    let content_top = window_top + g.padding_top;
    let content_right = window_left + g.col_to_x(p.window_width);
    let content_bottom = window_top + g.row_to_y(p.window_height);

    let mut overlays: Vec<OverlayRect> = Vec::new();
    if pane_abs_top > content_top {
        let overlay = OverlayRect::new(content_left, content_top, content_right, pane_abs_top);
        if overlay.is_valid() {
            overlays.push(overlay);
        }
    }
    let ghost after_top = overlays@;
    if pane_abs_bottom < content_bottom {
        let overlay = OverlayRect::new(content_left, pane_abs_bottom, content_right, content_bottom);
        if overlay.is_valid() {
            overlays.push(overlay);
        }
    }
    let ghost after_bottom = overlays@;
    if pane_abs_left > content_left {
        let overlay = OverlayRect::new(content_left, pane_abs_top, pane_abs_left, pane_abs_bottom);
        if overlay.is_valid() {
            overlays.push(overlay);
        }
    }
    let ghost after_left = overlays@;
    if pane_abs_right < content_right {
        let overlay = OverlayRect::new(pane_abs_right, pane_abs_top, content_right, pane_abs_bottom);
        if overlay.is_valid() {
            overlays.push(overlay);
        }
    }
    proof {
        let top = strip(pane_abs_top > content_top, rect_of(content_left as int, content_top as int, content_right as int, pane_abs_top as int));
        let bottom = strip(pane_abs_bottom < content_bottom, rect_of(content_left as int, pane_abs_bottom as int, content_right as int, content_bottom as int));
        let left = strip(pane_abs_left > content_left, rect_of(content_left as int, pane_abs_top as int, pane_abs_left as int, pane_abs_bottom as int));
        let right = strip(pane_abs_right < content_right, rect_of(pane_abs_right as int, pane_abs_top as int, content_right as int, pane_abs_bottom as int));
        assert(after_top =~= top);
        assert(after_bottom =~= top + bottom);
        assert(after_left =~= top + bottom + left);
        assert(overlays@ =~= top + bottom + left + right);
    }
    overlays
}


/// Every rectangle of `s` has a width and a height that fit in `i32`.
pub open spec fn extents_fit(s: Seq<OverlayRect>) -> bool {
    forall|i: int|
        0 <= i < s.len() ==> fits_i32((#[trigger] s[i]).right - s[i].left) && fits_i32(
            s[i].bottom - s[i].top,
        )
}

proof fn lemma_extents_fit_concat(a: Seq<OverlayRect>, b: Seq<OverlayRect>)
    requires
        extents_fit(a),
        extents_fit(b),
    ensures
        extents_fit(a + b),
{
    assert forall|i: int| 0 <= i < (a + b).len() implies fits_i32((#[trigger] (a + b)[i]).right - (a
        + b)[i].left) && fits_i32((a + b)[i].bottom - (a + b)[i].top) by {
        if i < a.len() {
            assert((a + b)[i] == a[i]);
        } else {
            assert((a + b)[i] == b[i - a.len()]);
        }
    }
}

/// The rectangles for a pane whose content area fits in `i32` have widths and
/// heights that fit in `i32` too.
pub proof fn lemma_tmux_rect_extents(p: TmuxPaneInfo, w: WindowRect, g: TerminalGeometry)
    requires
        p.valid() ==> pixels_fit(p, w, g),
    ensures
        extents_fit(tmux_rects(p, w, g)),
{
    if p.valid() {
        let fw = g.font_width as int;
        let fh = g.font_height as int;
        lemma_scaled_between(p.pane_left as int, p.window_width as int, fw);
        lemma_scaled_between(p.pane_right + 1, p.window_width as int, fw);
        lemma_scaled_between(p.pane_top as int, p.window_height as int, fh);
        lemma_scaled_between(p.pane_bottom + 1, p.window_height as int, fh);
        let pane_left = w.left + g.x_of(p.pane_left as int);
        let pane_top = w.top + g.y_of(p.pane_top as int);
        let pane_right = w.left + g.x_of(p.pane_right + 1);
        let pane_bottom = w.top + g.y_of(p.pane_bottom + 1);
        let content_left = w.left + g.padding_left;
        let content_top = w.top + g.padding_top;
        let content_right = w.left + g.x_of(p.window_width as int);
        let content_bottom = w.top + g.y_of(p.window_height as int);
        let top = strip(pane_top > content_top, rect_of(content_left, content_top, content_right, pane_top));
        let bottom = strip(pane_bottom < content_bottom, rect_of(content_left, pane_bottom, content_right, content_bottom));
        let left = strip(pane_left > content_left, rect_of(content_left, pane_top, pane_left, pane_bottom));
        let right = strip(pane_right < content_right, rect_of(pane_right, pane_top, content_right, pane_bottom));
        assert(extents_fit(top));
        assert(extents_fit(bottom));
        assert(extents_fit(left));
        assert(extents_fit(right));
        lemma_extents_fit_concat(top, bottom);
        lemma_extents_fit_concat(top + bottom, left);
        lemma_extents_fit_concat(top + bottom + left, right);
    }
}

/// A pane that fills its whole multiplexer window leaves nothing to dim.
pub proof fn lemma_full_window_pane_no_rects(p: TmuxPaneInfo, w: WindowRect, g: TerminalGeometry)
    requires
        p.valid(),
        p.pane_left == 0,
        p.pane_top == 0,
        p.pane_right == p.window_width - 1,
        p.pane_bottom == p.window_height - 1,
    ensures
        tmux_rects(p, w, g).len() == 0,
{
    assert(tmux_rects(p, w, g) =~= Seq::<OverlayRect>::empty());
}

/// An invalid pane (negative origin, inverted bounds, or bounds outside its
/// window) gives no rectangles.
pub proof fn lemma_invalid_pane_no_rects(p: TmuxPaneInfo, w: WindowRect, g: TerminalGeometry)
    requires
        !p.valid(),
    ensures
        tmux_rects(p, w, g).len() == 0,
{
}

/// How many of the pane's four edges stay clear of the window's edges.
pub open spec fn edges_apart(p: TmuxPaneInfo) -> int {
    (if p.pane_top > 0 { 1int } else { 0int }) + (if p.pane_bottom < p.window_height - 1 {
        1int
    } else {
        0int
    }) + (if p.pane_left > 0 { 1int } else { 0int }) + (if p.pane_right < p.window_width - 1 {
        1int
    } else {
        0int
    })
}

proof fn lemma_scaled_strict(a: int, b: int, f: int)
    requires
        a < b,
        0 < f,
    ensures
        a * f < b * f,
{
    assert(a * f < b * f) by (nonlinear_arith)
        requires
            a < b,
            0 < f,
    ;
}

/// For a valid pane and cells of positive size, one rectangle is produced for
/// each edge of the pane that does not lie on an edge of the window: at most
/// four.
pub proof fn lemma_rect_count_matches_free_edges(p: TmuxPaneInfo, w: WindowRect, g: TerminalGeometry)
    requires
        p.valid(),
        g.valid(),
        pixels_fit(p, w, g),
    ensures
        tmux_rects(p, w, g).len() == edges_apart(p),
        0 <= tmux_rects(p, w, g).len() <= 4,
{
    let fw = g.font_width as int;
    let fh = g.font_height as int;
    lemma_scaled_between(p.pane_left as int, p.window_width as int, fw);
    lemma_scaled_between(p.pane_right + 1, p.window_width as int, fw);
    lemma_scaled_between(p.pane_top as int, p.window_height as int, fh);
    lemma_scaled_between(p.pane_bottom + 1, p.window_height as int, fh);
    lemma_scaled_strict(0, p.window_width as int, fw);
    lemma_scaled_strict(p.pane_top as int, p.pane_bottom + 1, fh);
    if p.pane_top > 0 {
        lemma_scaled_strict(0, p.pane_top as int, fh);
    }
    if p.pane_left > 0 {
        lemma_scaled_strict(0, p.pane_left as int, fw);
    }
    if p.pane_bottom + 1 < p.window_height {
        lemma_scaled_strict(p.pane_bottom + 1, p.window_height as int, fh);
    }
    if p.pane_right + 1 < p.window_width {
        lemma_scaled_strict(p.pane_right + 1, p.window_width as int, fw);
    }
    assert(p.pane_left == 0 ==> p.pane_left * fw == 0);
    assert(p.pane_top == 0 ==> p.pane_top * fh == 0);
}

proof fn lemma_div_bounds(a: int, f: int)
    requires
        a >= 0,
        f > 0,
    ensures
        (a / f) * f <= a < (a / f) * f + f,
{
    vstd::arithmetic::div_mod::lemma_fundamental_div_mod(a, f);
    vstd::arithmetic::div_mod::lemma_mod_bound(a, f);
    assert(f * (a / f) == (a / f) * f) by (nonlinear_arith);
}

/// Going from a pixel x to its column and back lands within one cell's width of
/// where it started.
pub proof fn lemma_col_round_trip(g: TerminalGeometry, x: int)
    requires
        g.valid(),
        x >= 0,
    ensures
        x - g.font_width < g.x_of(trunc_div(x - g.padding_left, g.font_width as int)) < x
            + g.font_width,
{
    let a = x - g.padding_left;
    let f = g.font_width as int;
    if a >= 0 {
        lemma_div_bounds(a, f);
    } else {
        lemma_div_bounds(-a, f);
        assert(-((-a) / f) * f == -(((-a) / f) * f)) by (nonlinear_arith);
    }
}

/// Going from a pixel y to its row and back lands within one cell's height of
/// where it started.
pub proof fn lemma_row_round_trip(g: TerminalGeometry, y: int)
    requires
        g.valid(),
        y >= 0,
    ensures
        y - g.font_height < g.y_of(trunc_div(y - g.padding_top, g.font_height as int)) < y
            + g.font_height,
{
    let a = y - g.padding_top;
    let f = g.font_height as int;
    if a >= 0 {
        lemma_div_bounds(a, f);
    } else {
        lemma_div_bounds(-a, f);
        assert(-((-a) / f) * f == -(((-a) / f) * f)) by (nonlinear_arith);
    }
}

} // verus!
