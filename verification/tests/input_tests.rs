use strip_wm::commands::greet;
use strip_wm::wm_input::{
    classify_event, is_manageable, is_wheel_event, wheel_delta, WinEventAction, WindowFacts, EVENT_OBJECT_CREATE, EVENT_OBJECT_DESTROY,
    EVENT_OBJECT_HIDE, EVENT_OBJECT_SHOW, EVENT_SYSTEM_FOREGROUND, EVENT_SYSTEM_MINIMIZEEND, EVENT_SYSTEM_MINIMIZESTART,
    EVENT_SYSTEM_MOVESIZEEND, EVENT_SYSTEM_MOVESIZESTART, OBJID_WINDOW, WM_MOUSEWHEEL, WS_CHILD, WS_EX_APPWINDOW,
    WS_EX_TOOLWINDOW, WS_MINIMIZE, WS_POPUP,
};

// A captioned, resizable frame.
const FRAME_STYLE: u32 = 0x00C0_0000 | 0x0004_0000;

fn facts() -> WindowFacts {
    WindowFacts {
        is_null: false,
        visible: true,
        cloaked: Some(0),
        style: FRAME_STYLE,
        ex_style: 0,
        has_parent: false,
        pid: 1234,
        own_pid: 99,
        class_name: "Notepad".to_string(),
    }
}

#[test]
fn ordinary_window_is_managed() {
    assert!(is_manageable(&facts()));
}

#[test]
fn hidden_null_or_cloaked_windows_are_not_managed() {
    let mut f = facts();
    f.visible = false;
    assert!(!is_manageable(&f));
    let mut f = facts();
    f.is_null = true;
    assert!(!is_manageable(&f));
    let mut f = facts();
    f.cloaked = Some(2);
    assert!(!is_manageable(&f));
    let mut f = facts();
    f.cloaked = None;
    assert!(is_manageable(&f));
}

#[test]
fn child_and_minimized_windows_are_not_managed() {
    let mut f = facts();
    f.style |= WS_CHILD;
    assert!(!is_manageable(&f));
    let mut f = facts();
    f.style |= WS_MINIMIZE;
    assert!(!is_manageable(&f));
}

#[test]
fn tool_windows_are_never_managed() {
    let mut f = facts();
    f.ex_style = WS_EX_TOOLWINDOW;
    assert!(!is_manageable(&f));
    f.ex_style = WS_EX_TOOLWINDOW | WS_EX_APPWINDOW;
    assert!(!is_manageable(&f));
}

#[test]
fn owned_windows_need_app_window_style() {
    let mut f = facts();
    f.has_parent = true;
    assert!(!is_manageable(&f));
    f.ex_style = WS_EX_APPWINDOW;
    assert!(is_manageable(&f));
}

#[test]
fn popups_are_never_managed() {
    let mut f = facts();
    f.style = WS_POPUP;
    assert!(!is_manageable(&f));
    f.style = WS_POPUP | FRAME_STYLE;
    assert!(!is_manageable(&f));
    f.ex_style = WS_EX_APPWINDOW;
    assert!(!is_manageable(&f));
}

#[test]
fn own_and_unknown_processes_are_not_managed() {
    let mut f = facts();
    f.pid = 0;
    assert!(!is_manageable(&f));
    f.pid = f.own_pid;
    assert!(!is_manageable(&f));
}

#[test]
fn shell_classes_are_not_managed() {
    for name in [
        "Progman",
        "WorkerW",
        "Shell_TrayWnd",
        "Shell_SecondaryTrayWnd",
        "Windows.UI.Core.CoreWindow",
        "SearchHost",
        "LockScreenBackdropWindow",
        "ScreenClippingWindow",
        "SystemTray_Main",
    ] {
        let mut f = facts();
        f.class_name = name.to_string();
        assert!(!is_manageable(&f), "{}", name);
    }
    let mut f = facts();
    f.class_name = "Progman2".to_string();
    assert!(is_manageable(&f));
}

#[test]
fn events_are_classified() {
    assert_eq!(classify_event(EVENT_OBJECT_SHOW, 5), WinEventAction::Ignore);
    assert_eq!(classify_event(EVENT_OBJECT_HIDE, OBJID_WINDOW), WinEventAction::Remove);
    assert_eq!(classify_event(EVENT_OBJECT_DESTROY, OBJID_WINDOW), WinEventAction::Remove);
    assert_eq!(classify_event(EVENT_SYSTEM_MINIMIZESTART, OBJID_WINDOW), WinEventAction::Remove);
    assert_eq!(classify_event(EVENT_SYSTEM_MOVESIZESTART, OBJID_WINDOW), WinEventAction::ResizeStart);
    assert_eq!(classify_event(EVENT_SYSTEM_MOVESIZEEND, OBJID_WINDOW), WinEventAction::ResizeEnd);
    assert_eq!(classify_event(EVENT_OBJECT_SHOW, OBJID_WINDOW), WinEventAction::Show);
    assert_eq!(classify_event(EVENT_OBJECT_CREATE, OBJID_WINDOW), WinEventAction::Show);
    assert_eq!(classify_event(EVENT_SYSTEM_MINIMIZEEND, OBJID_WINDOW), WinEventAction::Show);
    assert_eq!(classify_event(EVENT_SYSTEM_FOREGROUND, OBJID_WINDOW), WinEventAction::Foreground);
    assert_eq!(classify_event(0x800B, OBJID_WINDOW), WinEventAction::Ignore);
}

#[test]
fn alt_wheel_yields_signed_delta() {
    // Wheel toward the user: -120 in the high word.
    let data = ((-120i16 as u16 as u32) << 16) | 0x1234;
    assert_eq!(wheel_delta(0, WM_MOUSEWHEEL, i16::MIN, data), Some(-120));
    assert_eq!(wheel_delta(0, WM_MOUSEWHEEL, -32767, 120u32 << 16), Some(120));
    // Alt not held, negative hook code, other message: passed on.
    assert_eq!(wheel_delta(0, WM_MOUSEWHEEL, 0, data), None);
    assert_eq!(wheel_delta(0, WM_MOUSEWHEEL, 1, data), None);
    assert_eq!(wheel_delta(-1, WM_MOUSEWHEEL, i16::MIN, data), None);
    assert_eq!(wheel_delta(0, 0x0200, i16::MIN, data), None);
}

#[test]
fn greeting_names_the_user() {
    assert_eq!(greet("Ada"), "Hello, Ada! You've been greeted from Rust!");
}

#[test]
fn wheel_events_are_recognised() {
    assert!(is_wheel_event(0, WM_MOUSEWHEEL));
    assert!(!is_wheel_event(-1, WM_MOUSEWHEEL));
    assert!(!is_wheel_event(0, 0x0200));
}
