use strip_wm::geometry::Rect;
use strip_wm::wm::{frame_fits, FrameRects, ManagedWindow, Placement, RemoveOutcome, WmConfig, WmState};

fn plain(hwnd: isize, width: i32) -> ManagedWindow {
    ManagedWindow { hwnd, width, border_left: 0, border_top: 0, border_right: 0, border_bottom: 0 }
}

fn strip_with(widths: &[(isize, i32)]) -> WmState {
    let mut s = WmState::new();
    for &(h, w) in widths {
        assert!(s.add_window_internal(h, w, None));
    }
    s
}

#[test]
fn test_default_config() {
    let c = WmConfig::default();
    assert!(c.enabled);
    assert_eq!(c.gap, 16);
    assert_eq!(c.scroll_speed, 100);
    assert!(!c.snap_to_window);
    assert!(c.smooth_scrolling);
}

#[test]
fn new_state_defaults() {
    let s = WmState::new();
    assert_eq!(s.screen(), (0, 0, 1920, 1040));
    assert!(s.windows().is_empty());
    assert_eq!(s.resizing_hwnd(), None);
    assert_eq!(s.last_rendered_int_offset(), i32::MIN);
    assert_eq!(s.config(), WmConfig::default());
}

#[test]
fn test_max_offset_calculation() {
    // Empty strip: only the leading gap, which fits on screen.
    let s = WmState::new();
    assert!(s.max_offset_fits());
    assert_eq!(s.max_offset(), 0);

    // 16 + (960 + 16) * 3 = 2944, screen 1920 -> 1024.
    let s = strip_with(&[(1, 960), (2, 960), (3, 960)]);
    assert!(s.max_offset_fits());
    assert_eq!(s.max_offset(), 1024);

    // Two half-screen columns: 16 + 976 * 2 = 1968 -> 48.
    let s = strip_with(&[(1, 960), (2, 960)]);
    assert_eq!(s.max_offset(), 48);

    // A strip narrower than the screen cannot scroll.
    let s = strip_with(&[(1, 500)]);
    assert_eq!(s.max_offset(), 0);
}

#[test]
fn max_offset_overflow_is_detected() {
    let s = strip_with(&[(1, i32::MAX - 10), (2, 100)]);
    assert!(!s.max_offset_fits());
}

#[test]
fn add_window_rejects_duplicates_and_appends() {
    let mut s = WmState::new();
    assert!(s.add_window_internal(7, 800, None));
    assert!(!s.add_window_internal(7, 900, None));
    assert!(s.add_window_internal(8, 600, None));
    assert_eq!(s.windows(), vec![plain(7, 800), plain(8, 600)]);
    assert!(s.contains_window(7));
    assert!(!s.contains_window(9));
}

#[test]
fn add_window_measures_invisible_borders() {
    let mut s = WmState::new();
    let frame = FrameRects {
        bounds: Rect { left: 107, top: 100, right: 907, bottom: 700 },
        window: Rect { left: 100, top: 99, right: 914, bottom: 707 },
    };
    assert!(frame_fits(&frame));
    assert!(s.add_window_internal(5, 800, Some(frame)));
    assert_eq!(
        s.windows()[0],
        ManagedWindow { hwnd: 5, width: 800, border_left: 7, border_top: 1, border_right: 7, border_bottom: 7 }
    );
}

#[test]
fn frame_fits_detects_overflow() {
    let frame = FrameRects {
        bounds: Rect { left: i32::MAX, top: 0, right: 0, bottom: 0 },
        window: Rect { left: -1, top: 0, right: 0, bottom: 0 },
    };
    assert!(!frame_fits(&frame));
}

#[test]
fn remove_window_refocuses_neighbour() {
    let mut s = strip_with(&[(1, 500), (2, 500), (3, 500)]);
    assert_eq!(s.remove_window(2), RemoveOutcome::Refocus(3));
    assert_eq!(s.windows(), vec![plain(1, 500), plain(3, 500)]);
    // Removing the last column focuses the new last one.
    assert_eq!(s.remove_window(3), RemoveOutcome::Refocus(1));
    assert_eq!(s.remove_window(42), RemoveOutcome::NotManaged);
    assert_eq!(s.remove_window(1), RemoveOutcome::Relayout);
    assert!(s.windows().is_empty());
}

#[test]
fn add_then_remove_restores_strip() {
    let mut s = strip_with(&[(1, 500), (2, 700)]);
    let before = s.windows();
    assert!(s.add_window_internal(9, 300, None));
    assert_eq!(s.remove_window(9), RemoveOutcome::Refocus(2));
    assert_eq!(s.windows(), before);
}

#[test]
fn work_area_has_a_minimum() {
    let mut s = WmState::new();
    s.update_work_area(Rect { left: 10, top: 20, right: 2570, bottom: 1400 });
    assert_eq!(s.screen(), (10, 20, 2560, 1380));
    s.update_work_area(Rect { left: 0, top: 0, right: 300, bottom: 200 });
    assert_eq!(s.screen(), (0, 0, 640, 480));
}

#[test]
fn layout_keeps_exact_gaps() {
    let mut s = WmState::new();
    let f = |l: i32| FrameRects {
        bounds: Rect { left: l + 7, top: 0, right: l + 7 + 600, bottom: 500 },
        window: Rect { left: l, top: 0, right: l + 7 + 600 + 7, bottom: 507 },
    };
    assert!(s.add_window_internal(1, 600, Some(f(0))));
    assert!(s.add_window_internal(2, 800, Some(f(0))));
    assert!(s.render_fits(100));
    let ps = s.render(100);
    assert_eq!(s.last_rendered_int_offset(), 100);
    // First visible frame: 0 + 16 - 100 = -84; placement starts 7 further left.
    assert_eq!(ps[0], Placement { hwnd: 1, x: -91, y: 16, width: 614, height: 1040 - 32 + 7 });
    // Second visible frame starts after the first (600 wide) and one gap: -84 + 616 = 532.
    assert_eq!(ps[1], Placement { hwnd: 2, x: 525, y: 16, width: 814, height: 1015 });
    let visible_right_0 = ps[0].x + 7 + 600;
    let visible_left_1 = ps[1].x + 7;
    assert_eq!(visible_left_1 - visible_right_0, 16);
}

#[test]
fn layout_skips_window_being_resized() {
    let mut s = strip_with(&[(1, 500), (2, 500), (3, 500)]);
    s.begin_resize(2);
    let ps = s.render(0);
    assert_eq!(ps.len(), 2);
    assert_eq!(ps[0].hwnd, 1);
    assert_eq!(ps[0].x, 16);
    assert_eq!(ps[1].hwnd, 3);
    // The skipped column still takes its room.
    assert_eq!(ps[1].x, 16 + 516 + 516);
    assert!(!s.end_resize(2, None, None));
    assert_eq!(s.resizing_hwnd(), None);
    assert_eq!(s.render(0).len(), 3);
}

#[test]
fn render_of_empty_strip_changes_nothing() {
    let mut s = WmState::new();
    assert!(s.render(5).is_empty());
    assert_eq!(s.last_rendered_int_offset(), i32::MIN);
    assert!(s.needs_frame(5));
}

#[test]
fn needs_frame_compares_with_last_render() {
    let mut s = strip_with(&[(1, 500)]);
    s.render(30);
    assert!(!s.needs_frame(30));
    assert!(s.needs_frame(31));
}

#[test]
fn render_fits_detects_overflow() {
    let s = strip_with(&[(1, 500)]);
    assert!(!s.render_fits(i32::MIN));
    assert!(s.render_fits(0));
}

#[test]
fn focus_centers_narrow_window() {
    let s = strip_with(&[(1, 1000), (2, 1000), (3, 1000)]);
    // max offset: 16 + 1016 * 3 - 1920 = 1144.
    assert_eq!(s.max_offset(), 1144);
    assert!(s.focus_fits(2));
    // Column 2 starts at 1016 (no leading gap); center 1516; minus 960 = 556.
    assert_eq!(s.focus_target(2), Some(556));
    // Column 1: 0 + 500 - 960 < 0 -> 0.
    assert_eq!(s.focus_target(1), Some(0));
    // Column 3: 2032 + 500 - 960 = 1572 > 1144 -> 1144.
    assert_eq!(s.focus_target(3), Some(1144));
    assert_eq!(s.focus_target(99), None);
}

#[test]
fn focus_aligns_wide_window_left() {
    let s = strip_with(&[(1, 500), (2, 2000), (3, 500)]);
    // max offset: 16 + 516 + 2016 + 516 - 1920 = 1128; column 2 starts at 516.
    assert_eq!(s.focus_target(2), Some(516));
}

#[test]
fn focus_does_nothing_when_disabled() {
    let mut s = strip_with(&[(1, 500)]);
    let mut c = s.config();
    c.enabled = false;
    s.set_config(c);
    assert_eq!(s.config(), c);
    assert_eq!(s.focus_target(1), None);
}

#[test]
fn snap_moves_to_neighbour_column() {
    let s = strip_with(&[(1, 1000), (2, 1000), (3, 1000)]);
    // Viewing offset 556 centers column 2; centers: 500, 1516, 2532; view center 1516.
    assert!(s.snap_fits(556, -120));
    // Negative delta moves right, to column 3: 2532 - 960 = 1572, clamped to 1144.
    assert_eq!(s.snap_target(556, -120), Some(1144));
    // Positive delta moves left, to column 1: 500 - 960 < 0 -> 0.
    assert_eq!(s.snap_target(556, 120), Some(0));
    // From the left end a positive delta stays at column 1.
    assert_eq!(s.snap_target(0, 120), Some(0));
    // From offset 0 (view center 960, nearest column 1 at 500), a negative delta goes to column 2.
    assert_eq!(s.snap_target(0, -120), Some(556));
}

#[test]
fn snap_on_empty_strip_is_none() {
    let s = WmState::new();
    assert!(s.snap_fits(0, 120));
    assert_eq!(s.snap_target(0, 120), None);
}

#[test]
fn snap_tie_picks_leftmost() {
    // Centers 500 and 1516; with offset 48 the view center is 1008, 508 away from both.
    let s = strip_with(&[(1, 1000), (2, 1000), (3, 1000)]);
    // Nearest is column 1 (leftmost on a tie), so a negative delta goes to column 2.
    assert_eq!(s.snap_target(48, -1), Some(556));
}

#[test]
fn snap_fits_detects_overflow() {
    let s = strip_with(&[(1, 500)]);
    assert!(!s.snap_fits(i32::MAX, 120));
}

#[test]
fn update_window_size_records_new_width() {
    let mut s = strip_with(&[(1, 500), (2, 500)]);
    let bounds = Rect { left: 10, top: 0, right: 710, bottom: 500 };
    let window = Rect { left: 3, top: 0, right: 717, bottom: 507 };
    assert!(s.size_update_fits(2, Some(bounds), Some(window)));
    assert!(s.update_window_size(2, Some(bounds), Some(window)));
    assert_eq!(
        s.windows()[1],
        ManagedWindow { hwnd: 2, width: 700, border_left: 7, border_top: 0, border_right: 7, border_bottom: 7 }
    );
    // Same width again: nothing changes.
    assert!(!s.update_window_size(2, Some(bounds), None));
    // Unknown window, missing bounds, zero width: nothing changes.
    assert!(!s.update_window_size(3, Some(bounds), None));
    assert!(!s.update_window_size(1, None, None));
    assert!(!s.update_window_size(1, Some(Rect { left: 5, top: 0, right: 5, bottom: 0 }), None));
    // Without the window rectangle the borders stay.
    assert!(s.update_window_size(2, Some(Rect { left: 0, top: 0, right: 300, bottom: 0 }), None));
    assert_eq!(s.windows()[1].width, 300);
    assert_eq!(s.windows()[1].border_left, 7);
}

#[test]
fn size_update_fits_detects_overflow() {
    let s = strip_with(&[(1, 500)]);
    let bounds = Rect { left: i32::MIN, top: 0, right: 10, bottom: 0 };
    assert!(!s.size_update_fits(1, Some(bounds), None));
    assert!(s.size_update_fits(2, Some(bounds), None));
}

#[test]
fn focus_fits_detects_overflow() {
    let s = strip_with(&[(1, i32::MAX - 20), (2, 10)]);
    assert!(!s.focus_fits(2));
}

#[test]
fn layout_places_off_screen_columns() {
    let mut s = strip_with(&[(1, 1500), (2, 1500), (3, 1500)]);
    // Scrolled all the way right, column 1 lies entirely left of the screen.
    let m = s.max_offset();
    assert_eq!(m, 16 + 1516 * 3 - 1920);
    let ps = s.render(m);
    assert_eq!(ps.len(), 3);
    assert_eq!(ps[0].x, 16 - m);
    assert!(ps[0].x + ps[0].width < 0);
}

#[test]
fn end_resize_asks_for_relayout_when_width_changed() {
    let mut s = strip_with(&[(1, 500), (2, 500)]);
    s.begin_resize(2);
    let bounds = Rect { left: 0, top: 0, right: 650, bottom: 500 };
    assert!(s.end_resize(2, Some(bounds), None));
    assert_eq!(s.resizing_hwnd(), None);
    assert_eq!(s.windows()[1].width, 650);
    s.begin_resize(2);
    assert!(!s.end_resize(2, Some(bounds), None));
    assert_eq!(s.resizing_hwnd(), None);
}

#[test]
fn layout_pass_is_guarded() {
    let mut s = strip_with(&[(1, 500)]);
    assert!(s.begin_layout());
    // A pass is already running.
    assert!(!s.begin_layout());
    s.finish_layout();
    assert!(s.begin_layout());
    s.finish_layout();
    let mut c = s.config();
    c.enabled = false;
    s.set_config(c);
    assert!(!s.begin_layout());
}
