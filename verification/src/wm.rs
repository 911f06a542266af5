use vstd::prelude::*;
use crate::geometry::{fits_i32, half_toward_zero, Rect};

verus! {

/// User settings of the tiling strip that the layout reads.
#[derive(Clone, Copy, Debug, PartialEq, Eq, Structural)]
pub struct WmConfig {
    pub enabled: bool,
    pub gap: i32,
    pub scroll_speed: i32,
    pub snap_to_window: bool,
    pub smooth_scrolling: bool,
}

/// The settings a fresh installation starts with.
pub open spec fn default_config() -> WmConfig {
    WmConfig {
        enabled: true,
        gap: 16,
        scroll_speed: 100,
        snap_to_window: false,
        smooth_scrolling: true,
    }
}

impl Default for WmConfig {
    fn default() -> (c: Self)
        ensures
            c == default_config(),
    {
        WmConfig {
            enabled: true,
            gap: 16,
            scroll_speed: 100,
            snap_to_window: false,
            smooth_scrolling: true,
        }
    }
}

/// One column of the strip: a window, the width of its visible frame, and the
/// invisible resize borders that the desktop draws around that frame.
#[derive(Clone, Copy, Debug, PartialEq, Eq, Structural)]
pub struct ManagedWindow {
    pub hwnd: isize,
    pub width: i32,
    pub border_left: i32,
    pub border_top: i32,
    pub border_right: i32,
    pub border_bottom: i32,
}

/// The visible frame of a window (its extended frame bounds) and its full
/// window rectangle, from which the invisible borders follow.
#[derive(Clone, Copy, Debug, PartialEq, Eq, Structural)]
pub struct FrameRects {
    pub bounds: Rect,
    pub window: Rect,
}

/// The four borders fit in `i32`.
pub open spec fn borders_in_range(f: FrameRects) -> bool {
    &&& fits_i32(f.bounds.left - f.window.left)
    &&& fits_i32(f.bounds.top - f.window.top)
    &&& fits_i32(f.window.right - f.bounds.right)
    &&& fits_i32(f.window.bottom - f.bounds.bottom)
}

/// Whether the borders of a frame fit in `i32`.
pub fn frame_fits(f: &FrameRects) -> (ok: bool)
    ensures
        ok == borders_in_range(*f),
{
    let lo = i32::MIN as i64;
    let hi = i32::MAX as i64;
    let l = f.bounds.left as i64 - f.window.left as i64;
    let t = f.bounds.top as i64 - f.window.top as i64;
    let r = f.window.right as i64 - f.bounds.right as i64;
    let b = f.window.bottom as i64 - f.bounds.bottom as i64;
    lo <= l && l <= hi && lo <= t && t <= hi && lo <= r && r <= hi && lo <= b && b <= hi
}

/// The column that a window of the given width and frame occupies; without a
/// frame its borders are zero.
pub open spec fn column_for(hwnd: isize, width: i32, frame: Option<FrameRects>) -> ManagedWindow {
    match frame {
        Some(f) => ManagedWindow {
            hwnd,
            width,
            border_left: (f.bounds.left - f.window.left) as i32,
            border_top: (f.bounds.top - f.window.top) as i32,
            border_right: (f.window.right - f.bounds.right) as i32,
            border_bottom: (f.window.bottom - f.bounds.bottom) as i32,
        },
        None => ManagedWindow {
            hwnd,
            width,
            border_left: 0,
            border_top: 0,
            border_right: 0,
            border_bottom: 0,
        },
    }
}

/// No window occupies two columns.
pub open spec fn hwnds_distinct(ws: Seq<ManagedWindow>) -> bool {
    forall|i: int, j: int|
        0 <= i < ws.len() && 0 <= j < ws.len() && i != j ==> ws[i].hwnd != ws[j].hwnd
}

/// Some column holds the window.
pub open spec fn holds_hwnd(ws: Seq<ManagedWindow>, hwnd: isize) -> bool {
    exists|i: int| 0 <= i < ws.len() && ws[i].hwnd == hwnd
}

/// Distance along the strip from the left edge of the first column to the
/// left edge of column `n`: the widths of the columns before it, each
/// followed by one gap.
pub open spec fn column_left(ws: Seq<ManagedWindow>, gap: int, n: int) -> int
    decreases n,
{
    if n <= 0 {
        0
    } else {
        column_left(ws, gap, n - 1) + ws[n - 1].width + gap
    }
}

/// Width of the whole strip: a leading gap, then every column followed by a gap.
pub open spec fn strip_width(ws: Seq<ManagedWindow>, gap: int) -> int {
    gap + column_left(ws, gap, ws.len() as int)
}

/// `t` clamped to `[0, max]`.
pub open spec fn clamp_offset(t: int, max: int) -> int {
    if t < 0 {
        0
    } else if t > max {
        max
    } else {
        t
    }
}

/// Each column's width plus a gap, and each partial sum of those, fit in `i32`.
pub open spec fn prefixes_in_range(ws: Seq<ManagedWindow>, gap: int) -> bool {
    &&& forall|i: int| #![trigger ws[i]] 0 <= i < ws.len() ==> fits_i32(ws[i].width + gap)
    &&& forall|n: int| 0 <= n <= ws.len() ==> fits_i32(#[trigger] column_left(ws, gap, n))
}

/// The column after a border drag that left the visible frame at `bounds`.
pub open spec fn resized_column(w: ManagedWindow, bounds: Rect, window_rect: Option<Rect>) -> ManagedWindow {
    let new_width = (bounds.right - bounds.left) as i32;
    match window_rect {
        Some(r) => column_for(w.hwnd, new_width, Some(FrameRects { bounds, window: r })),
        None => ManagedWindow { width: new_width, ..w },
    }
}

/// At most one column is nearest the middle of the screen.
pub proof fn lemma_nearest_unique(v: WmStateView, view_offset: int, a: int, b: int)
    requires
        v.is_nearest(view_offset, a),
        v.is_nearest(view_offset, b),
    ensures
        a == b,
{
    if a < b {
        assert(v.center_distance(view_offset, a) > v.center_distance(view_offset, b));
        assert(v.center_distance(view_offset, a) <= v.center_distance(view_offset, b));
    } else if b < a {
        assert(v.center_distance(view_offset, b) > v.center_distance(view_offset, a));
        assert(v.center_distance(view_offset, b) <= v.center_distance(view_offset, a));
    }
}

/// The abstract state of the tiling strip.
pub ghost struct WmStateView {
    pub windows: Seq<ManagedWindow>,
    pub screen_x: int,
    pub screen_y: int,
    pub screen_width: int,
    pub screen_height: int,
    pub config: WmConfig,
    pub resizing_hwnd: Option<isize>,
    pub last_rendered_int_offset: int,
    /// A layout pass is running.
    pub updating_layout: bool,
}

impl WmStateView {
    pub open spec fn gap(self) -> int {
        self.config.gap as int
    }

    /// How far the view can scroll: the part of the strip that does not fit
    /// on the screen, and never less than zero.
    pub open spec fn max_offset(self) -> int {
        let t = strip_width(self.windows, self.gap()) - self.screen_width;
        if t > 0 {
            t
        } else {
            0
        }
    }

    /// Computing `max_offset` overflows no `i32`.
    pub open spec fn max_offset_in_range(self) -> bool {
        &&& prefixes_in_range(self.windows, self.gap())
        &&& fits_i32(strip_width(self.windows, self.gap()))
        &&& fits_i32(strip_width(self.windows, self.gap()) - self.screen_width)
    }

    /// A border drag of `hwnd` that left its visible frame at `bounds` changes
    /// the column: the window is in the strip and the new width is positive
    /// and differs from the recorded one.
    pub open spec fn size_update_applies(self, hwnd: isize, bounds: Option<Rect>) -> bool {
        exists|i: int|
            0 <= i < self.windows.len() && self.windows[i].hwnd == hwnd && (bounds matches Some(b)
                && b.right - b.left > 0 && b.right - b.left != self.windows[i].width)
    }

    /// Taking the border drag into account overflows no `i32`.
    pub open spec fn size_update_in_range(self, hwnd: isize, bounds: Option<Rect>, window_rect: Option<Rect>) -> bool {
        forall|i: int|
            0 <= i < self.windows.len() && #[trigger] self.windows[i].hwnd == hwnd ==> (
            bounds matches Some(b) ==> {
                &&& fits_i32(b.right - b.left)
                &&& (b.right - b.left > 0 && b.right - b.left != self.windows[i].width
                    && window_rect matches Some(r)) ==> borders_in_range(
                    FrameRects { bounds: b, window: window_rect.unwrap() },
                )
            })
    }

    /// Column `i` is the window the user is dragging a border of.
    pub open spec fn is_resizing(self, i: int) -> bool {
        self.resizing_hwnd == Some(self.windows[i].hwnd)
    }

    /// Screen x of the left edge of column `i`'s visible frame when the view
    /// is scrolled `offset` pixels to the right.
    pub open spec fn visible_left(self, offset: int, i: int) -> int {
        self.screen_x + self.gap() - offset + column_left(self.windows, self.gap(), i)
    }

    /// Where column `i` goes: its visible frame starts at `visible_left`, one
    /// gap below the top of the work area, and fills the work area's height
    /// less a gap above and below; the invisible borders lie outside of it.
    pub open spec fn placement(self, offset: int, i: int) -> Placement {
        let w = self.windows[i];
        Placement {
            hwnd: w.hwnd,
            x: (self.visible_left(offset, i) - w.border_left) as i32,
            y: (self.screen_y + self.gap() - w.border_top) as i32,
            width: (w.width + w.border_left + w.border_right) as i32,
            height: (self.screen_height - 2 * self.gap() + w.border_top + w.border_bottom) as i32,
        }
    }

    /// Placements of the first `n` columns, leaving out the one being resized.
    pub open spec fn placements_upto(self, offset: int, n: int) -> Seq<Placement>
        decreases n,
    {
        if n <= 0 {
            Seq::empty()
        } else {
            let p = self.placements_upto(offset, n - 1);
            if self.is_resizing(n - 1) {
                p
            } else {
                p.push(self.placement(offset, n - 1))
            }
        }
    }

    /// Placements of all columns but the one being resized, left to right.
    pub open spec fn layout(self, offset: int) -> Seq<Placement> {
        self.placements_upto(offset, self.windows.len() as int)
    }

    /// Computing the placement of column `i` overflows no `i32`.
    pub open spec fn placement_in_range(self, offset: int, i: int) -> bool {
        let w = self.windows[i];
        let inner_height = self.screen_height - 2 * self.gap();
        &&& fits_i32(self.visible_left(offset, i) - w.border_left)
        &&& fits_i32(self.screen_y + self.gap())
        &&& fits_i32(self.screen_y + self.gap() - w.border_top)
        &&& fits_i32(w.width + w.border_left)
        &&& fits_i32(w.width + w.border_left + w.border_right)
        &&& fits_i32(2 * self.gap())
        &&& fits_i32(inner_height)
        &&& fits_i32(inner_height + w.border_top)
        &&& fits_i32(inner_height + w.border_top + w.border_bottom)
    }

    /// Laying the strip out at `offset` overflows no `i32`.
    pub open spec fn layout_in_range(self, offset: int) -> bool {
        self.windows.len() > 0 ==> {
            &&& fits_i32(self.screen_x + self.gap())
            &&& fits_i32(self.visible_left(offset, 0))
            &&& forall|i: int|
                #![trigger self.windows[i]]
                0 <= i < self.windows.len() ==> fits_i32(self.windows[i].width + self.gap())
                    && fits_i32(self.visible_left(offset, i + 1))
            &&& forall|i: int|
                0 <= i < self.windows.len() && !self.is_resizing(i) ==> #[trigger] self.placement_in_range(offset, i)
        }
    }

    /// The offset that brings column `i` into view: a column at least as wide
    /// as the screen is aligned with its left edge, a narrower one is centered;
    /// either way the offset stays within `[0, max_offset]`.
    pub open spec fn focus_offset(self, i: int) -> int {
        let left = column_left(self.windows, self.gap(), i);
        let w = self.windows[i].width as int;
        let t = if w >= self.screen_width {
            left
        } else {
            left + half_toward_zero(w) - half_toward_zero(self.screen_width)
        };
        clamp_offset(t, self.max_offset())
    }

    /// Focusing `hwnd` overflows no `i32`.
    pub open spec fn focus_in_range(self, hwnd: isize) -> bool {
        self.config.enabled ==> {
            &&& forall|i: int|
                0 <= i < self.windows.len() && #[trigger] self.windows[i].hwnd == hwnd ==> {
                    let left = column_left(self.windows, self.gap(), i);
                    let w = self.windows[i].width as int;
                    &&& self.max_offset_in_range()
                    &&& w < self.screen_width ==> fits_i32(left + half_toward_zero(w)) && fits_i32(
                        left + half_toward_zero(w) - half_toward_zero(self.screen_width),
                    )
                }
            &&& !holds_hwnd(self.windows, hwnd) ==> prefixes_in_range(self.windows, self.gap())
        }
    }

    /// Strip coordinate of the middle of column `i`.
    pub open spec fn column_center(self, i: int) -> int {
        column_left(self.windows, self.gap(), i) + half_toward_zero(self.windows[i].width as int)
    }

    /// Strip coordinate of the middle of the screen when the view is scrolled
    /// `view_offset` pixels.
    pub open spec fn view_center(self, view_offset: int) -> int {
        view_offset + half_toward_zero(self.screen_width)
    }

    pub open spec fn center_distance(self, view_offset: int, i: int) -> int {
        let d = self.column_center(i) - self.view_center(view_offset);
        if d < 0 {
            -d
        } else {
            d
        }
    }

    /// Column `n` is the one whose middle is nearest the middle of the screen,
    /// the leftmost such column on a tie.
    pub open spec fn is_nearest(self, view_offset: int, n: int) -> bool {
        &&& 0 <= n < self.windows.len()
        &&& forall|j: int|
            0 <= j < self.windows.len() ==> self.center_distance(view_offset, n)
                <= #[trigger] self.center_distance(view_offset, j)
        &&& forall|j: int|
            0 <= j < n ==> #[trigger] self.center_distance(view_offset, j) > self.center_distance(
                view_offset,
                n,
            )
    }

    pub open spec fn nearest_column(self, view_offset: int) -> int {
        choose|n: int| self.is_nearest(view_offset, n)
    }

    /// The column a wheel step snaps to: the neighbour of the nearest column,
    /// to the left for a positive delta and to the right otherwise, kept
    /// within the strip.
    pub open spec fn snap_index(self, view_offset: int, delta: int) -> int {
        let t = self.nearest_column(view_offset) + if delta > 0 {
            -1int
        } else {
            1int
        };
        if t < 0 {
            0
        } else if t > self.windows.len() - 1 {
            self.windows.len() - 1
        } else {
            t
        }
    }

    /// The offset that centers the snapped-to column, within `[0, max_offset]`.
    pub open spec fn snap_offset(self, view_offset: int, delta: int) -> int {
        clamp_offset(
            self.column_center(self.snap_index(view_offset, delta)) - half_toward_zero(
                self.screen_width,
            ),
            self.max_offset(),
        )
    }

    /// Measuring how far each column's middle is from the middle of the
    /// screen overflows no `i32`.
    pub open spec fn centers_in_range(self, view_offset: int) -> bool {
        &&& prefixes_in_range(self.windows, self.gap())
        &&& self.windows.len() > 0 ==> fits_i32(self.view_center(view_offset))
        &&& forall|i: int|
            #![trigger self.windows[i]]
            0 <= i < self.windows.len() ==> fits_i32(self.column_center(i)) && fits_i32(
                self.column_center(i) - self.view_center(view_offset),
            ) && self.column_center(i) - self.view_center(view_offset) != i32::MIN
    }

    /// Snapping from `view_offset` overflows no `i32`.
    pub open spec fn snap_in_range(self, view_offset: int, delta: int) -> bool {
        &&& self.windows.len() <= i32::MAX
        &&& self.max_offset_in_range()
        &&& self.centers_in_range(view_offset)
        &&& self.windows.len() > 0 ==> fits_i32(
            self.column_center(self.snap_index(view_offset, delta)) - half_toward_zero(
                self.screen_width,
            ),
        )
    }
}

/// The tiling strip: the columns in left-to-right order, the work area they
/// are laid out in, the settings, and the window the user is resizing.
pub struct WmState {
    windows: Vec<ManagedWindow>,
    screen_x: i32,
    screen_y: i32,
    screen_width: i32,
    screen_height: i32,
    config: WmConfig,
    resizing_hwnd: Option<isize>,
    last_rendered_int_offset: i32,
    is_updating_layout: bool,
}

impl View for WmState {
    type V = WmStateView;

    closed spec fn view(&self) -> WmStateView {
        WmStateView {
            windows: self.windows@,
            screen_x: self.screen_x as int,
            screen_y: self.screen_y as int,
            screen_width: self.screen_width as int,
            screen_height: self.screen_height as int,
            config: self.config,
            resizing_hwnd: self.resizing_hwnd,
            last_rendered_int_offset: self.last_rendered_int_offset as int,
            updating_layout: self.is_updating_layout,
        }
    }
}

/// Where a window goes: its full rectangle, invisible borders included.
#[derive(Clone, Copy, Debug, PartialEq, Eq, Structural)]
pub struct Placement {
    pub hwnd: isize,
    pub x: i32,
    pub y: i32,
    pub width: i32,
    pub height: i32,
}

/// What is left to do after a window leaves the strip.
#[derive(Clone, Copy, Debug, PartialEq, Eq, Structural)]
pub enum RemoveOutcome {
    /// The window was not in the strip; nothing changed.
    NotManaged,
    /// Focus this neighbour and bring it to the foreground.
    Refocus(isize),
    /// The strip is empty now; lay it out again.
    Relayout,
}

impl WmState {
    /// No window occupies two columns, and the work area is at least 640 by 480.
    pub open spec fn wf(&self) -> bool {
        &&& hwnds_distinct(self@.windows)
        &&& self@.screen_width >= 640
        &&& self@.screen_height >= 480
    }

    /// An empty strip on a 1920 by 1040 work area with the default settings.
    pub fn new() -> (s: Self)
        ensures
            s.wf(),
            s@ == (WmStateView {
                windows: Seq::empty(),
                screen_x: 0,
                screen_y: 0,
                screen_width: 1920,
                screen_height: 1040,
                config: default_config(),
                resizing_hwnd: None,
                last_rendered_int_offset: i32::MIN as int,
                updating_layout: false,
            }),
    {
        WmState {
            windows: Vec::new(),
            screen_x: 0,
            screen_y: 0,
            screen_width: 1920,
            screen_height: 1040,
            config: WmConfig::default(),
            resizing_hwnd: None,
            last_rendered_int_offset: i32::MIN,
            is_updating_layout: false,
        }
    }

    /// Takes the desktop work area as the screen the strip is laid out on; a
    /// work area narrower than 640 or lower than 480 counts as that size.
    pub fn update_work_area(&mut self, work_area: Rect)
        requires
            old(self).wf(),
            fits_i32(work_area.right - work_area.left),
            fits_i32(work_area.bottom - work_area.top),
        ensures
            final(self).wf(),
            final(self)@ == (WmStateView {
                screen_x: work_area.left as int,
                screen_y: work_area.top as int,
                screen_width: if work_area.right - work_area.left > 640 {
                    work_area.right - work_area.left
                } else {
                    640
                },
                screen_height: if work_area.bottom - work_area.top > 480 {
                    work_area.bottom - work_area.top
                } else {
                    480
                },
                ..old(self)@
            }),
    {
        let w = work_area.right - work_area.left;
        let h = work_area.bottom - work_area.top;
        self.screen_x = work_area.left;
        self.screen_y = work_area.top;
        self.screen_width = if w > 640 { w } else { 640 };
        self.screen_height = if h > 480 { h } else { 480 };
    }

    /// Index of the column that holds `hwnd`.
    fn position(&self, hwnd: isize) -> (r: Option<usize>)
        ensures
            match r {
                Some(i) => i < self@.windows.len() && self@.windows[i as int].hwnd == hwnd,
                None => !holds_hwnd(self@.windows, hwnd),
            },
    {
        let mut i: usize = 0;
        while i < self.windows.len()
            invariant
                i <= self.windows@.len(),
                forall|j: int| 0 <= j < i ==> self.windows@[j].hwnd != hwnd,
            decreases self.windows@.len() - i,
        {
            if self.windows[i].hwnd == hwnd {
                return Some(i);
            }
            i = i + 1;
        }
        None
    }

    /// Whether some column holds `hwnd`.
    pub fn contains_window(&self, hwnd: isize) -> (r: bool)
        ensures
            r == holds_hwnd(self@.windows, hwnd),
    {
        self.position(hwnd).is_some()
    }

    /// Appends a column for `hwnd` at the right end of the strip, unless the
    /// window already has one. Returns whether it was added.
    pub fn add_window_internal(&mut self, hwnd: isize, width: i32, frame: Option<FrameRects>) -> (added: bool)
        requires
            old(self).wf(),
            frame matches Some(f) ==> borders_in_range(f),
        ensures
            final(self).wf(),
            added == !holds_hwnd(old(self)@.windows, hwnd),
            added ==> final(self)@ == (WmStateView {
                windows: old(self)@.windows.push(column_for(hwnd, width, frame)),
                ..old(self)@
            }),
            !added ==> final(self)@ == old(self)@,
    {
        if self.contains_window(hwnd) {
            return false;
        }
        let (border_left, border_top, border_right, border_bottom) = match frame {
            Some(f) => (
                f.bounds.left - f.window.left,
                f.bounds.top - f.window.top,
                f.window.right - f.bounds.right,
                f.window.bottom - f.bounds.bottom,
            ),
            None => (0, 0, 0, 0),
        };
        let col = ManagedWindow { hwnd, width, border_left, border_top, border_right, border_bottom };
        assert(col == column_for(hwnd, width, frame));
        self.windows.push(col);
        true
    }

    /// Takes `hwnd` out of the strip and says which neighbour takes focus:
    /// the column that moved into its place, or the new last column when it
    /// was the last one.
    pub fn remove_window(&mut self, hwnd: isize) -> (outcome: RemoveOutcome)
        requires
            old(self).wf(),
        ensures
            final(self).wf(),
            !holds_hwnd(old(self)@.windows, hwnd) ==> outcome == RemoveOutcome::NotManaged
                && final(self)@ == old(self)@,
            holds_hwnd(old(self)@.windows, hwnd) ==> exists|pos: int|
                0 <= pos < old(self)@.windows.len() && old(self)@.windows[pos].hwnd == hwnd
                    && final(self)@ == (WmStateView {
                    windows: old(self)@.windows.remove(pos),
                    ..old(self)@
                }) && outcome == (if final(self)@.windows.len() == 0 {
                    RemoveOutcome::Relayout
                } else if pos < final(self)@.windows.len() {
                    RemoveOutcome::Refocus(final(self)@.windows[pos].hwnd)
                } else {
                    RemoveOutcome::Refocus(final(self)@.windows.last().hwnd)
                }),
            !holds_hwnd(final(self)@.windows, hwnd),
    {
        match self.position(hwnd) {
            None => RemoveOutcome::NotManaged,
            Some(pos) => {
                let ghost old_ws = self.windows@;
                self.windows.remove(pos);
                proof {
                    assert(self.windows@ == old_ws.remove(pos as int));
                    assert forall|i: int| 0 <= i < self.windows@.len() implies self.windows@[i].hwnd != hwnd by {
                        if i < pos {
                            assert(self.windows@[i] == old_ws[i]);
                        } else {
                            assert(self.windows@[i] == old_ws[i + 1]);
                        }
                    }
                }
                let len = self.windows.len();
                if len == 0 {
                    RemoveOutcome::Relayout
                } else {
                    let next_idx = if pos < len { pos } else { len - 1 };
                    RemoveOutcome::Refocus(self.windows[next_idx].hwnd)
                }
            },
        }
    }

    /// How far the view can scroll to the right.
    pub fn max_offset(&self) -> (m: i32)
        requires
            self@.max_offset_in_range(),
        ensures
            m == self@.max_offset(),
    {
        let gap = self.config.gap;
        let mut sum: i32 = 0;
        let mut i: usize = 0;
        while i < self.windows.len()
            invariant
                i <= self.windows@.len(),
                sum == column_left(self.windows@, gap as int, i as int),
                prefixes_in_range(self.windows@, gap as int),
            decreases self.windows@.len() - i,
        {
            let w = self.windows[i].width;
            assert(fits_i32(self.windows@[i as int].width + gap));
            assert(fits_i32(column_left(self.windows@, gap as int, i + 1)));
            sum = sum + (w + gap);
            i = i + 1;
        }
        let total = gap + sum;
        let d = total - self.screen_width;
        if d > 0 {
            d
        } else {
            0
        }
    }

    /// Lays the strip out with the view scrolled `offset` pixels and records
    /// that offset as the last one rendered. An empty strip is left alone.
    pub fn render(&mut self, offset: i32) -> (ps: Vec<Placement>)
        requires
            old(self).wf(),
            old(self)@.layout_in_range(offset as int),
        ensures
            final(self).wf(),
            old(self)@.windows.len() == 0 ==> final(self)@ == old(self)@ && ps@.len() == 0,
            old(self)@.windows.len() > 0 ==> final(self)@ == (WmStateView {
                last_rendered_int_offset: offset as int,
                ..old(self)@
            }) && ps@ == old(self)@.layout(offset as int),
    {
        if self.windows.len() == 0 {
            return Vec::new();
        }
        self.last_rendered_int_offset = offset;
        let ghost v = old(self)@;
        let gap = self.config.gap;
        let mut current_x = self.screen_x + gap - offset;
        let mut out: Vec<Placement> = Vec::new();
        let mut i: usize = 0;
        while i < self.windows.len()
            invariant
                v.layout_in_range(offset as int),
                v.windows.len() > 0,
                v.windows == self.windows@,
                v.gap() == gap,
                v.screen_x == self.screen_x,
                v.screen_y == self.screen_y,
                v.screen_height == self.screen_height,
                v.resizing_hwnd == self.resizing_hwnd,
                i <= self.windows@.len(),
                current_x == v.visible_left(offset as int, i as int),
                out@ == v.placements_upto(offset as int, i as int),
            decreases self.windows@.len() - i,
        {
            let w = self.windows[i];
            assert(w == v.windows[i as int]);
            let skip = match self.resizing_hwnd {
                Some(r) => r == w.hwnd,
                None => false,
            };
            assert(skip == v.is_resizing(i as int));
            if !skip {
                assert(v.placement_in_range(offset as int, i as int));
                let target_x = current_x - w.border_left;
                let target_y = self.screen_y + gap - w.border_top;
                let target_w = w.width + w.border_left + w.border_right;
                let target_h = (self.screen_height - gap * 2) + w.border_top + w.border_bottom;
                let p = Placement { hwnd: w.hwnd, x: target_x, y: target_y, width: target_w, height: target_h };
                assert(p == v.placement(offset as int, i as int));
                out.push(p);
            }
            assert(fits_i32(v.windows[i as int].width + v.gap()));
            assert(fits_i32(v.visible_left(offset as int, i + 1)));
            current_x = current_x + (w.width + gap);
            i = i + 1;
        }
        out
    }

    /// The scroll offset that brings `hwnd` into view, or `None` when the
    /// strip is switched off or does not hold the window.
    pub fn focus_target(&self, hwnd: isize) -> (t: Option<i32>)
        requires
            self.wf(),
            self@.focus_in_range(hwnd),
        ensures
            !self@.config.enabled ==> t is None,
            !holds_hwnd(self@.windows, hwnd) ==> t is None,
            forall|i: int|
                0 <= i < self@.windows.len() && self@.windows[i].hwnd == hwnd && self@.config.enabled
                    ==> t == Some(self@.focus_offset(i) as i32),
    {
        if !self.config.enabled {
            return None;
        }
        let gap = self.config.gap;
        let mut acc_x: i32 = 0;
        let mut i: usize = 0;
        while i < self.windows.len()
            invariant
                self.wf(),
                self@.focus_in_range(hwnd),
                self@.config.enabled,
                gap == self@.gap(),
                i <= self@.windows.len(),
                acc_x == column_left(self@.windows, gap as int, i as int),
                forall|j: int| 0 <= j < i ==> self@.windows[j].hwnd != hwnd,
            decreases self@.windows.len() - i,
        {
            let w = self.windows[i];
            if w.hwnd == hwnd {
                let window_left = acc_x;
                let t = if w.width >= self.screen_width {
                    window_left
                } else {
                    let center_x = window_left + w.width / 2;
                    center_x - self.screen_width / 2
                };
                let m = self.max_offset();
                let c = if t < 0 {
                    0
                } else if t > m {
                    m
                } else {
                    t
                };
                proof {
                    assert forall|k: int|
                        0 <= k < self@.windows.len() && self@.windows[k].hwnd == hwnd implies k == i by {
                        if k != i {
                            assert(self@.windows[k].hwnd != self@.windows[i as int].hwnd);
                        }
                    }
                }
                return Some(c);
            }
            proof {
                if holds_hwnd(self@.windows, hwnd) {
                    let k = choose|k: int| 0 <= k < self@.windows.len() && self@.windows[k].hwnd == hwnd;
                    assert(self@.max_offset_in_range());
                }
                assert(prefixes_in_range(self@.windows, gap as int));
                assert(fits_i32(self@.windows[i as int].width + gap));
                assert(fits_i32(column_left(self@.windows, gap as int, i + 1)));
            }
            acc_x = acc_x + (w.width + gap);
            i = i + 1;
        }
        None
    }

    /// The nearest column to the middle of the screen.
    fn nearest_index(&self, view_offset: i32) -> (n: usize)
        requires
            self@.windows.len() > 0,
            self@.centers_in_range(view_offset as int),
        ensures
            n == self@.nearest_column(view_offset as int),
            self@.is_nearest(view_offset as int, n as int),
    {
        let ghost v = self@;
        let ghost vo = view_offset as int;
        let gap = self.config.gap;
        let mut nearest_idx: usize = 0;
        let mut min_dist: i32 = i32::MAX;
        let mut acc_x: i32 = 0;
        let mut i: usize = 0;
        while i < self.windows.len()
            invariant
                v == self@,
                vo == view_offset as int,
                v.centers_in_range(vo),
                gap == v.gap(),
                i <= v.windows.len(),
                acc_x == column_left(v.windows, gap as int, i as int),
                i == 0 ==> nearest_idx == 0 && min_dist == i32::MAX,
                i > 0 ==> {
                    &&& nearest_idx < i
                    &&& min_dist == v.center_distance(vo, nearest_idx as int)
                    &&& forall|j: int| 0 <= j < i ==> v.center_distance(vo, nearest_idx as int) <= #[trigger] v.center_distance(vo, j)
                    &&& forall|j: int| 0 <= j < nearest_idx ==> #[trigger] v.center_distance(vo, j) > v.center_distance(vo, nearest_idx as int)
                },
            decreases v.windows.len() - i,
        {
            let w = self.windows[i];
            assert(w == v.windows[i as int]);
            assert(fits_i32(v.column_center(i as int)));
            assert(fits_i32(v.view_center(vo)));
            assert(fits_i32(v.column_center(i as int) - v.view_center(vo)));
            assert(v.column_center(i as int) - v.view_center(vo) != i32::MIN);
            let center_x = acc_x + w.width / 2;
            let view_center = view_offset + self.screen_width / 2;
            let diff = center_x - view_center;
            let dist = if diff < 0 { -diff } else { diff };
            assert(dist == v.center_distance(vo, i as int));
            if dist < min_dist {
                min_dist = dist;
                nearest_idx = i;
            }
            proof {
                assert(fits_i32(v.windows[i as int].width + gap));
                assert(fits_i32(column_left(v.windows, gap as int, i + 1)));
            }
            acc_x = acc_x + (w.width + gap);
            i = i + 1;
        }
        proof {
            assert(v.is_nearest(vo, nearest_idx as int));
            lemma_nearest_unique(v, vo, nearest_idx as int, v.nearest_column(vo));
        }
        nearest_idx
    }

    /// Index of the column a wheel step snaps to, as the scroll code picks it.
    fn snap_column(&self, view_offset: i32, delta: i32) -> (t: usize)
        requires
            self@.windows.len() > 0,
            self@.windows.len() <= i32::MAX,
            self@.centers_in_range(view_offset as int),
        ensures
            t == self@.snap_index(view_offset as int, delta as int),
    {
        let direction: i32 = if delta > 0 { -1 } else { 1 };
        let nearest_idx = self.nearest_index(view_offset);
        let last = (self.windows.len() as i32) - 1;
        let hi = if last > 0 { last } else { 0 };
        let t0 = (nearest_idx as i32) + direction;
        if t0 < 0 {
            0
        } else if t0 > hi {
            hi as usize
        } else {
            t0 as usize
        }
    }

    /// Strip coordinate of the left edge of column `n`, when it and every
    /// partial sum before it fit in `i32`.
    fn column_left_checked(&self, n: usize) -> (r: Option<i32>)
        requires
            n <= self@.windows.len(),
        ensures
            r is Some == ((forall|j: int| #![trigger self@.windows[j]] 0 <= j < n ==> fits_i32(self@.windows[j].width + self@.gap()))
                && (forall|m: int| 0 <= m <= n ==> fits_i32(#[trigger] column_left(self@.windows, self@.gap(), m)))),
            r matches Some(c) ==> c == column_left(self@.windows, self@.gap(), n as int),
    {
        let gap = self.config.gap as i64;
        let mut sum: i64 = 0;
        let mut i: usize = 0;
        while i < n
            invariant
                n <= self@.windows.len(),
                gap == self@.gap(),
                i <= n,
                sum == column_left(self@.windows, self@.gap(), i as int),
                forall|j: int| #![trigger self@.windows[j]] 0 <= j < i ==> fits_i32(self@.windows[j].width + self@.gap()),
                forall|m: int| 0 <= m <= i ==> fits_i32(#[trigger] column_left(self@.windows, self@.gap(), m)),
            decreases n - i,
        {
            let s = self.windows[i].width as i64 + gap;
            if s < i32::MIN as i64 || s > i32::MAX as i64 {
                assert(!fits_i32(self@.windows[i as int].width + self@.gap()));
                return None;
            }
            let next = sum + s;
            if next < i32::MIN as i64 || next > i32::MAX as i64 {
                assert(!fits_i32(column_left(self@.windows, self@.gap(), i + 1)));
                return None;
            }
            sum = next;
            i = i + 1;
        }
        Some(sum as i32)
    }

    /// The scroll offset after one wheel step when scrolling snaps to
    /// windows, seen from the view scrolled `view_offset` pixels; `None` on an
    /// empty strip.
    pub fn snap_target(&self, view_offset: i32, delta: i32) -> (t: Option<i32>)
        requires
            self.wf(),
            self@.snap_in_range(view_offset as int, delta as int),
        ensures
            self@.windows.len() == 0 ==> t is None,
            self@.windows.len() > 0 ==> t == Some(self@.snap_offset(view_offset as int, delta as int) as i32),
    {
        if self.windows.len() == 0 {
            return None;
        }
        let target_idx = self.snap_column(view_offset, delta);
        let target_acc_x = match self.column_left_checked(target_idx) {
            Some(c) => c,
            None => {
                assert(prefixes_in_range(self@.windows, self@.gap()));
                return None;
            },
        };
        assert(fits_i32(self@.column_center(target_idx as int)));
        let center_x = target_acc_x + self.windows[target_idx].width / 2;
        let t = center_x - self.screen_width / 2;
        let m = self.max_offset();
        let c = if t < 0 {
            0
        } else if t > m {
            m
        } else {
            t
        };
        Some(c)
    }

    /// Takes a finished border drag into account: when the window's visible
    /// frame now has a positive width other than the recorded one, records the
    /// new width, and the new borders when the window rectangle is known.
    /// Returns whether the column changed.
    pub fn update_window_size(&mut self, hwnd: isize, bounds: Option<Rect>, window_rect: Option<Rect>) -> (changed: bool)
        requires
            old(self).wf(),
            old(self)@.size_update_in_range(hwnd, bounds, window_rect),
        ensures
            final(self).wf(),
            changed == old(self)@.size_update_applies(hwnd, bounds),
            !changed ==> final(self)@ == old(self)@,
            forall|i: int|
                0 <= i < old(self)@.windows.len() && old(self)@.windows[i].hwnd == hwnd && changed
                    ==> final(self)@ == (WmStateView {
                    windows: old(self)@.windows.update(
                        i,
                        resized_column(old(self)@.windows[i], bounds.unwrap(), window_rect),
                    ),
                    ..old(self)@
                }),
    {
        let pos = match self.position(hwnd) {
            Some(p) => p,
            None => return false,
        };
        let b = match bounds {
            Some(b) => b,
            None => return false,
        };
        let ghost v = self@;
        assert(v.windows[pos as int].hwnd == hwnd);
        let new_width = b.right - b.left;
        let w = self.windows[pos];
        if new_width > 0 && new_width != w.width {
            let col = match window_rect {
                Some(r) => ManagedWindow {
                    hwnd: w.hwnd,
                    width: new_width,
                    border_left: b.left - r.left,
                    border_top: b.top - r.top,
                    border_right: r.right - b.right,
                    border_bottom: r.bottom - b.bottom,
                },
                None => ManagedWindow { width: new_width, ..w },
            };
            assert(col == resized_column(w, b, window_rect));
            self.windows.set(pos, col);
            proof {
                assert forall|i: int| 0 <= i < v.windows.len() && v.windows[i].hwnd == hwnd implies i == pos by {
                    if i != pos {
                        assert(v.windows[i].hwnd != v.windows[pos as int].hwnd);
                    }
                }
                assert forall|i: int, j: int|
                    0 <= i < self@.windows.len() && 0 <= j < self@.windows.len() && i != j implies self@.windows[i].hwnd
                        != self@.windows[j].hwnd by {
                    assert(self@.windows[i].hwnd == v.windows[i].hwnd);
                    assert(self@.windows[j].hwnd == v.windows[j].hwnd);
                }
            }
            true
        } else {
            false
        }
    }

    /// The settings.
    pub fn config(&self) -> (c: WmConfig)
        ensures
            c == self@.config,
    {
        self.config
    }

    /// Replaces the settings.
    pub fn set_config(&mut self, config: WmConfig)
        requires
            old(self).wf(),
        ensures
            final(self).wf(),
            final(self)@ == (WmStateView { config, ..old(self)@ }),
    {
        self.config = config;
    }

    /// The user started dragging a border of `hwnd`: its column is left where it
    /// is until the drag ends.
    pub fn begin_resize(&mut self, hwnd: isize)
        requires
            old(self).wf(),
        ensures
            final(self).wf(),
            final(self)@ == (WmStateView { resizing_hwnd: Some(hwnd), ..old(self)@ }),
    {
        self.resizing_hwnd = Some(hwnd);
    }

    /// The border drag of `hwnd` ended with its visible frame at `bounds`
    /// and its window at `window_rect`: no column is held back any more, and
    /// the new size is taken into account. Returns whether the column changed,
    /// in which case the strip is laid out again with new sizes.
    pub fn end_resize(&mut self, hwnd: isize, bounds: Option<Rect>, window_rect: Option<Rect>) -> (relayout: bool)
        requires
            old(self).wf(),
            old(self)@.size_update_in_range(hwnd, bounds, window_rect),
        ensures
            final(self).wf(),
            relayout == old(self)@.size_update_applies(hwnd, bounds),
            !relayout ==> final(self)@ == (WmStateView { resizing_hwnd: None, ..old(self)@ }),
            forall|i: int|
                0 <= i < old(self)@.windows.len() && old(self)@.windows[i].hwnd == hwnd && relayout
                    ==> final(self)@ == (WmStateView {
                    windows: old(self)@.windows.update(
                        i,
                        resized_column(old(self)@.windows[i], bounds.unwrap(), window_rect),
                    ),
                    resizing_hwnd: None,
                    ..old(self)@
                }),
    {
        self.resizing_hwnd = None;
        self.update_window_size(hwnd, bounds, window_rect)
    }

    /// Starts a layout pass, unless the strip is switched off or a pass is
    /// already running. Returns whether the pass goes ahead; it ends with
    /// `finish_layout`.
    pub fn begin_layout(&mut self) -> (go: bool)
        requires
            old(self).wf(),
        ensures
            final(self).wf(),
            go == (old(self)@.config.enabled && !old(self)@.updating_layout),
            go ==> final(self)@ == (WmStateView { updating_layout: true, ..old(self)@ }),
            !go ==> final(self)@ == old(self)@,
    {
        if !self.config.enabled || self.is_updating_layout {
            return false;
        }
        self.is_updating_layout = true;
        true
    }

    /// Ends a layout pass.
    pub fn finish_layout(&mut self)
        requires
            old(self).wf(),
        ensures
            final(self).wf(),
            final(self)@ == (WmStateView { updating_layout: false, ..old(self)@ }),
    {
        self.is_updating_layout = false;
    }

    /// Whether a scroll frame at whole-pixel offset `offset` differs from the
    /// last one rendered, so that the windows have to move.
    pub fn needs_frame(&self, offset: i32) -> (r: bool)
        ensures
            r == (offset as int != self@.last_rendered_int_offset),
    {
        offset != self.last_rendered_int_offset
    }

    /// The columns, left to right.
    pub fn windows(&self) -> (ws: Vec<ManagedWindow>)
        ensures
            ws@ == self@.windows,
    {
        let mut out: Vec<ManagedWindow> = Vec::new();
        let mut i: usize = 0;
        while i < self.windows.len()
            invariant
                i <= self.windows@.len(),
                out@ == self.windows@.subrange(0, i as int),
            decreases self.windows@.len() - i,
        {
            out.push(self.windows[i]);
            i = i + 1;
        }
        assert(self.windows@.subrange(0, self.windows@.len() as int) == self.windows@);
        out
    }

    /// The work area: left, top, width, height.
    pub fn screen(&self) -> (r: (i32, i32, i32, i32))
        ensures
            r.0 == self@.screen_x,
            r.1 == self@.screen_y,
            r.2 == self@.screen_width,
            r.3 == self@.screen_height,
    {
        (self.screen_x, self.screen_y, self.screen_width, self.screen_height)
    }

    /// The window whose border the user is dragging.
    pub fn resizing_hwnd(&self) -> (r: Option<isize>)
        ensures
            r == self@.resizing_hwnd,
    {
        self.resizing_hwnd
    }

    /// The whole-pixel offset of the last layout.
    pub fn last_rendered_int_offset(&self) -> (r: i32)
        ensures
            r == self@.last_rendered_int_offset,
    {
        self.last_rendered_int_offset
    }

    /// Whether `max_offset` can be computed without overflow.
    pub fn max_offset_fits(&self) -> (ok: bool)
        ensures
            ok == self@.max_offset_in_range(),
    {
        match self.column_left_checked(self.windows.len()) {
            None => false,
            Some(c) => {
                let total = self.config.gap as i64 + c as i64;
                if total < i32::MIN as i64 || total > i32::MAX as i64 {
                    return false;
                }
                let d = total - self.screen_width as i64;
                i32::MIN as i64 <= d && d <= i32::MAX as i64
            },
        }
    }

    /// Whether laying the strip out at `offset` stays free of overflow.
    pub fn render_fits(&self, offset: i32) -> (ok: bool)
        ensures
            ok == self@.layout_in_range(offset as int),
    {
        let ghost v = self@;
        if self.windows.len() == 0 {
            return true;
        }
        let gap = self.config.gap as i64;
        let lo = i32::MIN as i64;
        let hi = i32::MAX as i64;
        let sx_gap = self.screen_x as i64 + gap;
        if sx_gap < lo || sx_gap > hi {
            return false;
        }
        let mut current_x = sx_gap - offset as i64;
        if current_x < lo || current_x > hi {
            return false;
        }
        let mut i: usize = 0;
        while i < self.windows.len()
            invariant
                v == self@,
                v.windows.len() > 0,
                gap == v.gap(),
                lo == i32::MIN,
                hi == i32::MAX,
                fits_i32(v.screen_x + v.gap()),
                fits_i32(v.visible_left(offset as int, 0)),
                i <= v.windows.len(),
                current_x == v.visible_left(offset as int, i as int),
                fits_i32(current_x as int),
                forall|j: int|
                    #![trigger v.windows[j]]
                    0 <= j < i ==> fits_i32(v.windows[j].width + v.gap()) && fits_i32(v.visible_left(offset as int, j + 1)),
                forall|j: int|
                    0 <= j < i && !v.is_resizing(j) ==> #[trigger] v.placement_in_range(offset as int, j),
            decreases v.windows.len() - i,
        {
            let w = self.windows[i];
            let skip = match self.resizing_hwnd {
                Some(r) => r == w.hwnd,
                None => false,
            };
            assert(skip == v.is_resizing(i as int));
            if !skip {
                let bl = w.border_left as i64;
                let bt = w.border_top as i64;
                let br = w.border_right as i64;
                let bb = w.border_bottom as i64;
                let x = current_x - bl;
                let sy_gap = self.screen_y as i64 + gap;
                let y = sy_gap - bt;
                let w1 = w.width as i64 + bl;
                let w2 = w1 + br;
                let g2 = 2 * gap;
                let inner = self.screen_height as i64 - g2;
                let h1 = inner + bt;
                let h2 = h1 + bb;
                let ok = lo <= x && x <= hi && lo <= sy_gap && sy_gap <= hi && lo <= y && y <= hi && lo <= w1
                    && w1 <= hi && lo <= w2 && w2 <= hi && lo <= g2 && g2 <= hi && lo <= inner && inner <= hi
                    && lo <= h1 && h1 <= hi && lo <= h2 && h2 <= hi;
                assert(ok == v.placement_in_range(offset as int, i as int));
                if !ok {
                    return false;
                }
            }
            let step = w.width as i64 + gap;
            if step < lo || step > hi {
                assert(!fits_i32(v.windows[i as int].width + v.gap()));
                return false;
            }
            let next = current_x + step;
            if next < lo || next > hi {
                assert(!fits_i32(v.visible_left(offset as int, i + 1)));
                return false;
            }
            current_x = next;
            i = i + 1;
        }
        true
    }

    /// Whether focusing `hwnd` stays free of overflow.
    pub fn focus_fits(&self, hwnd: isize) -> (ok: bool)
        requires
            self.wf(),
        ensures
            ok == self@.focus_in_range(hwnd),
    {
        if !self.config.enabled {
            return true;
        }
        match self.position(hwnd) {
            None => {
                let r = self.column_left_checked(self.windows.len());
                r.is_some()
            },
            Some(i) => {
                proof {
                    assert forall|k: int| 0 <= k < self@.windows.len() && self@.windows[k].hwnd == hwnd implies k == i by {
                        if k != i {
                            assert(self@.windows[k].hwnd != self@.windows[i as int].hwnd);
                        }
                    }
                }
                if !self.max_offset_fits() {
                    return false;
                }
                let w = self.windows[i].width;
                if w >= self.screen_width {
                    return true;
                }
                let left = match self.column_left_checked(i) {
                    Some(c) => c,
                    None => return false,
                };
                let center = left as i64 + (w / 2) as i64;
                if center < i32::MIN as i64 || center > i32::MAX as i64 {
                    return false;
                }
                let t = center - (self.screen_width / 2) as i64;
                i32::MIN as i64 <= t && t <= i32::MAX as i64
            },
        }
    }

    /// Whether measuring the columns' distances to the middle of the screen
    /// stays free of overflow.
    fn centers_fit(&self, view_offset: i32) -> (ok: bool)
        ensures
            ok == self@.centers_in_range(view_offset as int),
    {
        let ghost v = self@;
        let ghost vo = view_offset as int;
        if self.column_left_checked(self.windows.len()).is_none() {
            return false;
        }
        if self.windows.len() == 0 {
            return true;
        }
        let lo = i32::MIN as i64;
        let hi = i32::MAX as i64;
        let vc = view_offset as i64 + (self.screen_width / 2) as i64;
        if vc < lo || vc > hi {
            return false;
        }
        let gap = self.config.gap;
        let mut acc: i32 = 0;
        let mut i: usize = 0;
        while i < self.windows.len()
            invariant
                v == self@,
                vo == view_offset as int,
                prefixes_in_range(v.windows, v.gap()),
                gap == v.gap(),
                lo == i32::MIN,
                hi == i32::MAX,
                vc == v.view_center(vo),
                i <= v.windows.len(),
                acc == column_left(v.windows, v.gap(), i as int),
                forall|j: int|
                    #![trigger v.windows[j]]
                    0 <= j < i ==> fits_i32(v.column_center(j)) && fits_i32(v.column_center(j) - v.view_center(vo))
                        && v.column_center(j) - v.view_center(vo) != i32::MIN,
            decreases v.windows.len() - i,
        {
            let w = self.windows[i].width;
            let c = acc as i64 + (w / 2) as i64;
            let d = c - vc;
            if c < lo || c > hi || d < lo || d > hi || d == lo {
                assert(!(fits_i32(v.column_center(i as int)) && fits_i32(v.column_center(i as int) - v.view_center(vo))
                    && v.column_center(i as int) - v.view_center(vo) != i32::MIN));
                return false;
            }
            assert(fits_i32(v.windows[i as int].width + gap));
            assert(fits_i32(column_left(v.windows, v.gap(), i + 1)));
            acc = acc + (w + gap);
            i = i + 1;
        }
        true
    }

    /// Whether a snapping wheel step from `view_offset` stays free of overflow.
    pub fn snap_fits(&self, view_offset: i32, delta: i32) -> (ok: bool)
        ensures
            ok == self@.snap_in_range(view_offset as int, delta as int),
    {
        if self.windows.len() > i32::MAX as usize {
            return false;
        }
        if !self.max_offset_fits() {
            return false;
        }
        if !self.centers_fit(view_offset) {
            return false;
        }
        if self.windows.len() == 0 {
            return true;
        }
        let t = self.snap_column(view_offset, delta);
        let left = match self.column_left_checked(t) {
            Some(c) => c,
            None => {
                assert(prefixes_in_range(self@.windows, self@.gap()));
                return false;
            },
        };
        let c = left as i64 + (self.windows[t].width / 2) as i64;
        let d = c - (self.screen_width / 2) as i64;
        i32::MIN as i64 <= d && d <= i32::MAX as i64
    }

    /// Whether taking a border drag of `hwnd` into account stays free of
    /// overflow.
    pub fn size_update_fits(&self, hwnd: isize, bounds: Option<Rect>, window_rect: Option<Rect>) -> (ok: bool)
        requires
            self.wf(),
        ensures
            ok == self@.size_update_in_range(hwnd, bounds, window_rect),
    {
        let i = match self.position(hwnd) {
            None => return true,
            Some(i) => i,
        };
        proof {
            assert forall|k: int| 0 <= k < self@.windows.len() && self@.windows[k].hwnd == hwnd implies k == i by {
                if k != i {
                    assert(self@.windows[k].hwnd != self@.windows[i as int].hwnd);
                }
            }
        }
        let b = match bounds {
            None => return true,
            Some(b) => b,
        };
        let nw = b.right as i64 - b.left as i64;
        if nw < i32::MIN as i64 || nw > i32::MAX as i64 {
            return false;
        }
        if nw > 0 && nw != self.windows[i].width as i64 {
            match window_rect {
                Some(r) => frame_fits(&FrameRects { bounds: b, window: r }),
                None => true,
            }
        } else {
            true
        }
    }
}

/// Tiling geometry: the first column's visible frame starts one gap right
/// of the work area's left edge (shifted left by the scroll offset); each next
/// column starts exactly one gap after the previous one ends; every visible
/// frame starts one gap below the top of the work area and ends one gap above
/// its bottom; and a placement spans the visible frame plus the invisible
/// borders on each side.
pub proof fn lemma_layout_geometry(v: WmStateView, offset: int, i: int)
    requires
        0 <= i < v.windows.len(),
        v.layout_in_range(offset),
        !v.is_resizing(i),
    ensures
        v.visible_left(offset, 0) == v.screen_x + v.gap() - offset,
        v.placement(offset, i).x + v.windows[i].border_left == v.visible_left(offset, i),
        v.placement(offset, i).width - v.windows[i].border_left - v.windows[i].border_right
            == v.windows[i].width,
        v.placement(offset, i).y + v.windows[i].border_top == v.screen_y + v.gap(),
        v.placement(offset, i).y + v.placement(offset, i).height - v.windows[i].border_bottom
            == v.screen_y + v.screen_height - v.gap(),
        i + 1 < v.windows.len() ==> v.visible_left(offset, i + 1) - (v.visible_left(offset, i)
            + v.windows[i].width) == v.gap(),
{
    assert(v.placement_in_range(offset, i));
}

/// Focusing a window and snapping a wheel step both scroll to an offset
/// within `[0, max_offset]`, and `max_offset` is zero exactly when the whole
/// strip fits on the screen.
pub proof fn lemma_scroll_targets_in_bounds(v: WmStateView, i: int, view_offset: int, delta: int)
    requires
        0 <= i < v.windows.len(),
    ensures
        0 <= v.focus_offset(i) <= v.max_offset(),
        0 <= v.snap_offset(view_offset, delta) <= v.max_offset(),
        v.max_offset() >= 0,
        (v.max_offset() == 0) == (strip_width(v.windows, v.gap()) <= v.screen_width),
{
}

/// The column a wheel step snaps to is a column of the strip, next to the
/// nearest one: one to the left for a positive delta, one to the right
/// otherwise, unless the nearest one is already at that end of the strip.
pub proof fn lemma_snap_moves_one_column(v: WmStateView, view_offset: int, delta: int)
    requires
        v.windows.len() > 0,
    ensures
        v.is_nearest(view_offset, v.nearest_column(view_offset)),
        0 <= v.snap_index(view_offset, delta) < v.windows.len(),
        delta > 0 && v.nearest_column(view_offset) > 0 ==> v.snap_index(view_offset, delta)
            == v.nearest_column(view_offset) - 1,
        delta <= 0 && v.nearest_column(view_offset) < v.windows.len() - 1 ==> v.snap_index(
            view_offset,
            delta,
        ) == v.nearest_column(view_offset) + 1,
{
    lemma_nearest_exists(v, view_offset);
}

/// Some column is nearest the middle of the screen when the strip is not empty.
pub proof fn lemma_nearest_exists(v: WmStateView, view_offset: int)
    requires
        v.windows.len() > 0,
    ensures
        exists|n: int| v.is_nearest(view_offset, n),
{
    let n = nearest_among_first(v, view_offset, v.windows.len() as int);
    assert(v.is_nearest(view_offset, n));
}

/// The nearest column among the first `k`, the leftmost on a tie.
proof fn nearest_among_first(v: WmStateView, view_offset: int, k: int) -> (n: int)
    requires
        1 <= k <= v.windows.len(),
    ensures
        0 <= n < k,
        forall|j: int| 0 <= j < k ==> v.center_distance(view_offset, n) <= #[trigger] v.center_distance(view_offset, j),
        forall|j: int| 0 <= j < n ==> #[trigger] v.center_distance(view_offset, j) > v.center_distance(view_offset, n),
    decreases k,
{
    if k == 1 {
        0
    } else {
        let m = nearest_among_first(v, view_offset, k - 1);
        if v.center_distance(view_offset, k - 1) < v.center_distance(view_offset, m) {
            k - 1
        } else {
            m
        }
    }
}

/// Removing a window right after adding it gives back the strip as it was:
/// the new column is the only one with that window, and it is the last.
pub proof fn lemma_add_then_remove(ws: Seq<ManagedWindow>, c: ManagedWindow, pos: int)
    requires
        !holds_hwnd(ws, c.hwnd),
        0 <= pos < ws.len() + 1,
        ws.push(c)[pos].hwnd == c.hwnd,
    ensures
        ws.push(c).remove(pos) == ws,
{
    if pos < ws.len() {
        assert(ws.push(c)[pos] == ws[pos]);
    }
    assert(ws.push(c).remove(pos) =~= ws);
}

/// Every column but the one being resized gets a placement, however far off
/// screen it lies, so no window is left behind while the strip scrolls; and
/// the placements come in strip order.
pub proof fn lemma_layout_places_every_column(v: WmStateView, offset: int, i: int)
    requires
        0 <= i < v.windows.len(),
        !v.is_resizing(i),
    ensures
        v.layout(offset).contains(v.placement(offset, i)),
{
    lemma_placements_upto_contains(v, offset, v.windows.len() as int, i);
}

proof fn lemma_placements_upto_contains(v: WmStateView, offset: int, n: int, i: int)
    requires
        0 <= i < n <= v.windows.len(),
        !v.is_resizing(i),
    ensures
        v.placements_upto(offset, n).contains(v.placement(offset, i)),
    decreases n,
{
    let p = v.placements_upto(offset, n - 1);
    if i == n - 1 {
        assert(v.placements_upto(offset, n) == p.push(v.placement(offset, i)));
        assert(v.placements_upto(offset, n)[p.len() as int] == v.placement(offset, i));
    } else {
        lemma_placements_upto_contains(v, offset, n - 1, i);
        let k = choose|k: int| 0 <= k < p.len() && p[k] == v.placement(offset, i);
        if !v.is_resizing(n - 1) {
            assert(v.placements_upto(offset, n)[k] == p[k]);
        }
    }
}

/// Appending a column whose width plus one gap is not negative never
/// shrinks the scroll range: the strip only grows to the right.
pub proof fn lemma_append_keeps_max_offset(v: WmStateView, c: ManagedWindow)
    requires
        c.width + v.gap() >= 0,
    ensures
        (WmStateView { windows: v.windows.push(c), ..v }).max_offset() >= v.max_offset(),
{
    let w = v.windows.push(c);
    lemma_column_left_push(v.windows, c, v.gap(), v.windows.len() as int);
    assert(column_left(w, v.gap(), w.len() as int) == column_left(v.windows, v.gap(), v.windows.len() as int) + c.width + v.gap());
}

/// The columns before `n` are the same after appending one at the end.
proof fn lemma_column_left_push(ws: Seq<ManagedWindow>, c: ManagedWindow, gap: int, n: int)
    requires
        0 <= n <= ws.len(),
    ensures
        column_left(ws.push(c), gap, n) == column_left(ws, gap, n),
    decreases n,
{
    if n > 0 {
        lemma_column_left_push(ws, c, gap, n - 1);
        assert(ws.push(c)[n - 1] == ws[n - 1]);
    }
}

/// A snapping wheel step measures, for each column, the distance between
/// the middle of that column (its left edge plus half its width, rounded
/// toward zero) and the middle of the screen (the view offset plus half the
/// screen width); the nearest column is one at the least distance, the
/// leftmost of those on a tie. The step then goes to its left neighbour for a
/// positive delta and to its right neighbour otherwise (staying put at the
/// ends of the strip), and the offset centers that column on the screen,
/// kept within zero and the part of the strip that does not fit on screen.
pub proof fn lemma_snap_goes_next_to_middle_nearest(v: WmStateView, view_offset: int, delta: int, j: int)
    requires
        v.windows.len() > 0,
        0 <= j < v.windows.len(),
    ensures
        ({
            let ws = v.windows;
            let g = v.gap();
            let len = ws.len() as int;
            let mid_view = view_offset + half_toward_zero(v.screen_width);
            let n = v.nearest_column(view_offset);
            let dn = column_left(ws, g, n) + half_toward_zero(ws[n].width as int) - mid_view;
            let dj = column_left(ws, g, j) + half_toward_zero(ws[j].width as int) - mid_view;
            let adn = if dn < 0 { -dn } else { dn };
            let adj = if dj < 0 { -dj } else { dj };
            let t = if delta > 0 {
                if n > 0 { n - 1 } else { 0 }
            } else {
                if n < len - 1 { n + 1 } else { len - 1 }
            };
            let total = g + column_left(ws, g, len) - v.screen_width;
            let m = if total > 0 { total } else { 0 };
            let c = column_left(ws, g, t) + half_toward_zero(ws[t].width as int) - half_toward_zero(v.screen_width);
            &&& 0 <= n < len
            &&& adn <= adj
            &&& (j < n ==> adj > adn)
            &&& v.snap_offset(view_offset, delta) == (if c < 0 {
                0
            } else if c > m {
                m
            } else {
                c
            })
        }),
{
    lemma_nearest_exists(v, view_offset);
    let n = v.nearest_column(view_offset);
    assert(v.is_nearest(view_offset, n));
    assert(v.center_distance(view_offset, n) <= v.center_distance(view_offset, j));
    if j < n {
        assert(v.center_distance(view_offset, j) > v.center_distance(view_offset, n));
    }
}

/// Focusing a column scrolls so that a column narrower than the screen has
/// its middle at the middle of the screen, and a column at least as wide as
/// the screen has its left edge at the screen's left edge, unless that
/// would scroll before the start of the strip (the offset is then zero) or
/// past its end (the offset is then the largest one); a strip that fits on
/// the screen does not scroll.
pub proof fn lemma_focus_centers_column(v: WmStateView, i: int)
    requires
        0 <= i < v.windows.len(),
    ensures
        ({
            let ws = v.windows;
            let g = v.gap();
            let left = column_left(ws, g, i);
            let w = ws[i].width as int;
            let total = g + column_left(ws, g, ws.len() as int) - v.screen_width;
            let m = if total > 0 { total } else { 0 };
            let o = v.focus_offset(i);
            &&& 0 <= o <= m
            &&& (0 < o < m && w < v.screen_width) ==> o + half_toward_zero(v.screen_width) == left
                + half_toward_zero(w)
            &&& (0 < o < m && w >= v.screen_width) ==> o == left
            &&& (o == 0 && m > 0) ==> (if w >= v.screen_width { left } else { left + half_toward_zero(w)
                - half_toward_zero(v.screen_width) }) <= 0
            &&& (o == m && m > 0) ==> (if w >= v.screen_width { left } else { left + half_toward_zero(w)
                - half_toward_zero(v.screen_width) }) >= m
        }),
{
}

/// A column's invisible borders are what its window rectangle extends
/// beyond its visible frame on each side, and after a border drag its width
/// is the width of the new visible frame.
pub proof fn lemma_borders_from_frame(hwnd: isize, width: i32, f: FrameRects, w: ManagedWindow)
    requires
        borders_in_range(f),
        fits_i32(f.bounds.right - f.bounds.left),
    ensures
        f.window.left + column_for(hwnd, width, Some(f)).border_left == f.bounds.left,
        f.window.top + column_for(hwnd, width, Some(f)).border_top == f.bounds.top,
        f.bounds.right + column_for(hwnd, width, Some(f)).border_right == f.window.right,
        f.bounds.bottom + column_for(hwnd, width, Some(f)).border_bottom == f.window.bottom,
        column_for(hwnd, width, Some(f)).width == width,
        column_for(hwnd, width, Some(f)).hwnd == hwnd,
        resized_column(w, f.bounds, Some(f.window)).width == f.bounds.right - f.bounds.left,
        resized_column(w, f.bounds, Some(f.window)).hwnd == w.hwnd,
        f.window.left + resized_column(w, f.bounds, Some(f.window)).border_left == f.bounds.left,
        f.bounds.right + resized_column(w, f.bounds, Some(f.window)).border_right == f.window.right,
        resized_column(w, f.bounds, None).width == f.bounds.right - f.bounds.left,
        resized_column(w, f.bounds, None).border_left == w.border_left,
        resized_column(w, f.bounds, None).border_right == w.border_right,
        column_for(hwnd, width, None).border_left == 0 && column_for(hwnd, width, None).border_top == 0
            && column_for(hwnd, width, None).border_right == 0 && column_for(hwnd, width, None).border_bottom == 0,
{
}

} // verus!
