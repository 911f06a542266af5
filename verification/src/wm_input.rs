use vstd::prelude::*;

verus! {

// Desktop event codes, object ids, message ids and window style bits, with
// the values that the Win32 API gives them.
pub const EVENT_SYSTEM_FOREGROUND: u32 = 0x0003;
pub const EVENT_SYSTEM_MOVESIZESTART: u32 = 0x000A;
pub const EVENT_SYSTEM_MOVESIZEEND: u32 = 0x000B;
pub const EVENT_SYSTEM_MINIMIZESTART: u32 = 0x0016;
pub const EVENT_SYSTEM_MINIMIZEEND: u32 = 0x0017;
pub const EVENT_OBJECT_CREATE: u32 = 0x8000;
pub const EVENT_OBJECT_DESTROY: u32 = 0x8001;
pub const EVENT_OBJECT_SHOW: u32 = 0x8002;
pub const EVENT_OBJECT_HIDE: u32 = 0x8003;
pub const OBJID_WINDOW: i32 = 0;
pub const WM_MOUSEWHEEL: u32 = 0x020A;

pub const WS_POPUP: u32 = 0x8000_0000;
pub const WS_CHILD: u32 = 0x4000_0000;
pub const WS_MINIMIZE: u32 = 0x2000_0000;
pub const WS_EX_TOOLWINDOW: u32 = 0x0000_0080;
pub const WS_EX_APPWINDOW: u32 = 0x0004_0000;

/// What a window event asks of the strip.
#[derive(Clone, Copy, Debug, PartialEq, Eq, Structural)]
pub enum WinEventAction {
    /// Not about a top-level window, or not an event the strip follows.
    Ignore,
    /// The window was hidden, destroyed or minimized: take it out.
    Remove,
    /// The user started dragging the window's border.
    ResizeStart,
    /// The drag ended: measure the window and lay the strip out again.
    ResizeEnd,
    /// The window was shown, created or restored: if it can be managed, add
    /// it, and focus it when it is in the foreground.
    Show,
    /// The window came to the foreground: if it can be managed, add it and
    /// focus it.
    Foreground,
}

/// The action that a window event with this code and object id calls for.
pub open spec fn event_action(event: u32, idobject: i32) -> WinEventAction {
    if idobject != OBJID_WINDOW {
        WinEventAction::Ignore
    } else if event == EVENT_OBJECT_HIDE || event == EVENT_OBJECT_DESTROY || event
        == EVENT_SYSTEM_MINIMIZESTART {
        WinEventAction::Remove
    } else if event == EVENT_SYSTEM_MOVESIZESTART {
        WinEventAction::ResizeStart
    } else if event == EVENT_SYSTEM_MOVESIZEEND {
        WinEventAction::ResizeEnd
    } else if event == EVENT_OBJECT_SHOW || event == EVENT_OBJECT_CREATE || event
        == EVENT_SYSTEM_MINIMIZEEND {
        WinEventAction::Show
    } else if event == EVENT_SYSTEM_FOREGROUND {
        WinEventAction::Foreground
    } else {
        WinEventAction::Ignore
    }
}

/// Sorts a window event into what the strip does about it.
pub fn classify_event(event: u32, idobject: i32) -> (a: WinEventAction)
    ensures
        a == event_action(event, idobject),
{
    if idobject != OBJID_WINDOW {
        return WinEventAction::Ignore;
    }
    if event == EVENT_OBJECT_HIDE || event == EVENT_OBJECT_DESTROY || event
        == EVENT_SYSTEM_MINIMIZESTART {
        return WinEventAction::Remove;
    }
    if event == EVENT_SYSTEM_MOVESIZESTART {
        return WinEventAction::ResizeStart;
    }
    if event == EVENT_SYSTEM_MOVESIZEEND {
        return WinEventAction::ResizeEnd;
    }
    if event == EVENT_OBJECT_SHOW || event == EVENT_OBJECT_CREATE || event
        == EVENT_SYSTEM_MINIMIZEEND {
        WinEventAction::Show
    } else if event == EVENT_SYSTEM_FOREGROUND {
        WinEventAction::Foreground
    } else {
        WinEventAction::Ignore
    }
}

/// The high 16 bits of `x`, read as a signed number.
pub open spec fn high_word_signed(x: u32) -> int {
    let hi = x / 65536;
    if hi >= 32768 {
        hi - 65536
    } else {
        hi as int
    }
}

/// A low-level mouse event with this hook code, message and Alt key state
/// scrolls the strip when the hook may act on it (`ncode >= 0`), it is a
/// wheel turn, and Alt is held down (the key state is negative: its top bit
/// is set).
pub open spec fn scrolls_strip(ncode: i32, message: u32, alt_state: i16) -> bool {
    ncode >= 0 && message == WM_MOUSEWHEEL && alt_state < 0
}

/// Whether a low-level mouse event is a wheel turn the hook may act on; only
/// then are the Alt key state and the event's mouse data read.
pub fn is_wheel_event(ncode: i32, message: u32) -> (r: bool)
    ensures
        r == (ncode >= 0 && message == WM_MOUSEWHEEL),
{
    ncode >= 0 && message == WM_MOUSEWHEEL
}

/// The wheel delta of an Alt+wheel event, which the mouse hook consumes, or
/// `None` for an event that it passes on. The delta is the signed high word
/// of the event's mouse data.
pub fn wheel_delta(ncode: i32, message: u32, alt_state: i16, mouse_data: u32) -> (d: Option<i16>)
    ensures
        scrolls_strip(ncode, message, alt_state) ==> d == Some(high_word_signed(mouse_data) as i16),
        !scrolls_strip(ncode, message, alt_state) ==> d is None,
{
    if ncode >= 0 && message == WM_MOUSEWHEEL {
        let alt = alt_state as u16;
        let down = (alt & 0x8000) != 0;
        assert(down == (alt_state < 0)) by (bit_vector)
            requires
                alt == alt_state as u16,
                down == ((alt & 0x8000) != 0),
        ;
        if down {
            let delta = (mouse_data >> 16) as i16;
            assert(delta as int == high_word_signed(mouse_data)) by (bit_vector)
                requires
                    delta == (mouse_data >> 16) as i16,
            ;
            return Some(delta);
        }
    }
    None
}

/// What the desktop reports of a window when deciding whether to tile it.
#[derive(Debug)]
pub struct WindowFacts {
    /// The handle is null.
    pub is_null: bool,
    pub visible: bool,
    /// The cloaked attribute, when the desktop could report it.
    pub cloaked: Option<u32>,
    pub style: u32,
    pub ex_style: u32,
    /// The window has a parent (or owner) window.
    pub has_parent: bool,
    /// The id of the process that owns the window, zero when unknown.
    pub pid: u32,
    /// The id of this process.
    pub own_pid: u32,
    pub class_name: String,
}

/// Window classes of the shell and the system that are never tiled.
pub open spec fn ignored_class(name: Seq<char>) -> bool {
    ||| name == "Progman"@
    ||| name == "WorkerW"@
    ||| name == "Shell_TrayWnd"@
    ||| name == "Shell_SecondaryTrayWnd"@
    ||| name == "Windows.UI.Core.CoreWindow"@
    ||| name == "SearchHost"@
    ||| name == "LockScreenBackdropWindow"@
    ||| name == "ScreenClippingWindow"@
    ||| name == "SystemTray_Main"@
}

/// A window is tiled when it is a real, visible, uncloaked top-level
/// application window of another process: not a child, not minimized, never
/// a popup and never a tool window (tooltips, menus and dialogs must not
/// break the layout), not an owned window unless it asks for a taskbar
/// button, and not of a shell class.
pub open spec fn manageable(f: WindowFacts) -> bool {
    let app_window = f.ex_style & WS_EX_APPWINDOW != 0;
    &&& !f.is_null
    &&& f.visible
    &&& !(f.cloaked matches Some(c) && c != 0)
    &&& f.style & WS_CHILD == 0
    &&& f.style & WS_MINIMIZE == 0
    &&& f.style & WS_POPUP == 0
    &&& f.ex_style & WS_EX_TOOLWINDOW == 0
    &&& !(f.has_parent && !app_window)
    &&& f.pid != 0
    &&& f.pid != f.own_pid
    &&& !ignored_class(f.class_name@)
}

/// Whether `name` is the class name `class`.
fn class_is(name: &String, class: &str) -> (r: bool)
    ensures
        r == (name@ == class@),
{
    let c = String::from_str(class);
    *name == c
}

/// Whether the strip tiles the window.
pub fn is_manageable(f: &WindowFacts) -> (r: bool)
    ensures
        r == manageable(*f),
{
    if f.is_null || !f.visible {
        return false;
    }
    if let Some(c) = f.cloaked {
        if c != 0 {
            return false;
        }
    }
    let style = f.style;
    let ex_style = f.ex_style;
    if style & WS_CHILD != 0 {
        return false;
    }
    if style & WS_MINIMIZE != 0 {
        return false;
    }
    // Popups and tool windows (tooltips, menus, dialogs) are never tiled.
    if style & WS_POPUP != 0 {
        return false;
    }
    if ex_style & WS_EX_TOOLWINDOW != 0 {
        return false;
    }
    if f.has_parent && (ex_style & WS_EX_APPWINDOW == 0) {
        return false;
    }
    if f.pid == 0 || f.pid == f.own_pid {
        return false;
    }
    let name = &f.class_name;
    if class_is(name, "Progman") || class_is(name, "WorkerW") || class_is(name, "Shell_TrayWnd")
        || class_is(name, "Shell_SecondaryTrayWnd") || class_is(name, "Windows.UI.Core.CoreWindow")
        || class_is(name, "SearchHost") || class_is(name, "LockScreenBackdropWindow") || class_is(
        name,
        "ScreenClippingWindow",
    ) || class_is(name, "SystemTray_Main") {
        return false;
    }
    true
}

/// Only events about a window object itself reach the strip: with any
/// object id other than the window's (0), every event is ignored. For the
/// window object, hiding (0x8003), destruction (0x8001) and the start of a
/// minimization (0x0016) take the window out; the start (0x000A) and end
/// (0x000B) of a border drag bracket a resize; showing (0x8002), creation
/// (0x8000) and the end of a minimization (0x0017) may add it; coming to the
/// foreground (0x0003) may add and focus it; anything else is ignored.
pub proof fn lemma_event_sorting(event: u32, idobject: i32)
    ensures
        idobject != 0 ==> event_action(event, idobject) == WinEventAction::Ignore,
        idobject == 0 ==> (event_action(event, idobject) == WinEventAction::Remove <==> (event == 0x8003
            || event == 0x8001 || event == 0x0016)),
        idobject == 0 ==> (event_action(event, idobject) == WinEventAction::ResizeStart <==> event == 0x000A),
        idobject == 0 ==> (event_action(event, idobject) == WinEventAction::ResizeEnd <==> event == 0x000B),
        idobject == 0 ==> (event_action(event, idobject) == WinEventAction::Show <==> (event == 0x8002
            || event == 0x8000 || event == 0x0017)),
        idobject == 0 ==> (event_action(event, idobject) == WinEventAction::Foreground <==> event == 0x0003),
{
}

/// The scroll delta of an Alt+wheel event is exactly the signed wheel
/// distance in the high word of its mouse data, whatever the low word: a
/// whole notch (120) and any finer step of a precision touchpad alike.
pub proof fn lemma_wheel_delta_is_high_word(d: i16, low: u16)
    ensures
        high_word_signed((((d as u16) as u32) << 16u32) | (low as u32)) == d as int,
{
    let x: u32 = (((d as u16) as u32) << 16u32) | (low as u32);
    let hi: u32 = ((d as u16) as u32);
    assert(x / 65536 == hi) by (bit_vector)
        requires
            x == ((hi << 16u32) | (low as u32)),
            hi < 65536,
    ;
    assert(hi >= 32768 ==> hi as int - 65536 == d as int) by (bit_vector)
        requires
            hi == ((d as u16) as u32),
    ;
    assert(hi < 32768 ==> hi as int == d as int) by (bit_vector)
        requires
            hi == ((d as u16) as u32),
    ;
}

/// The Alt key counts as held exactly when its key state is negative (the
/// top bit is set), and only non-negative hook codes for wheel messages
/// (0x020A) scroll the strip.
pub proof fn lemma_scroll_trigger(ncode: i32, message: u32, alt_state: i16)
    ensures
        scrolls_strip(ncode, message, alt_state) <==> (ncode >= 0 && message == 0x020A && alt_state < 0),
{
}

/// Popups (style bit 0x80000000), tool windows (extended style bit 0x80),
/// child windows (0x40000000) and minimized windows (0x20000000) are never
/// tiled; an owned window is tiled only when its extended style has the
/// app-window bit (0x40000), whatever other extended bits it has; neither a
/// null, hidden or cloaked window, nor one of this process or of an unknown
/// process, nor a shell window is tiled; and a visible, uncloaked, unowned
/// top-level window of another process with none of those bits and another
/// class is.
pub proof fn lemma_which_windows_are_tiled(f: WindowFacts)
    ensures
        f.style & 0x8000_0000u32 != 0 ==> !manageable(f),
        f.ex_style & 0x80u32 != 0 ==> !manageable(f),
        f.style & 0x4000_0000u32 != 0 ==> !manageable(f),
        f.style & 0x2000_0000u32 != 0 ==> !manageable(f),
        f.has_parent && f.ex_style & 0x0004_0000u32 == 0 ==> !manageable(f),
        f.is_null || !f.visible ==> !manageable(f),
        (f.cloaked matches Some(c) && c != 0) ==> !manageable(f),
        f.pid == 0 || f.pid == f.own_pid ==> !manageable(f),
        f.class_name@ == "Progman"@ || f.class_name@ == "Shell_TrayWnd"@ || f.class_name@ == "WorkerW"@
            ==> !manageable(f),
        (!f.is_null && f.visible && !(f.cloaked matches Some(c) && c != 0) && f.style & 0xE000_0000u32
            == 0 && f.ex_style & 0x80u32 == 0 && !f.has_parent && f.pid != 0 && f.pid != f.own_pid
            && !ignored_class(f.class_name@)) ==> manageable(f),
{
    let s = f.style;
    assert(s & 0xE000_0000u32 == 0 ==> s & 0x8000_0000u32 == 0 && s & 0x4000_0000u32 == 0 && s
        & 0x2000_0000u32 == 0) by (bit_vector);
}

} // verus!
