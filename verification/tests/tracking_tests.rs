use kactive_window_launcher::tracking::{
    candidate_window, ensure_tracking_thread, hidden_placement, is_excluded_window,
    is_valid_window, launcher_start_tracking, launcher_stop_tracking, placement_fits,
    reference_notice, set_put_in_tray, tracked_placement, TickPlan, TrackedPlacement,
    TrackingState, WindowFacts, WindowRect, BAR_HEIGHT, WS_CAPTION, WS_CHILD,
    WS_EX_TOOLWINDOW, WS_POPUP,
};

fn normal_window() -> WindowFacts {
    WindowFacts {
        is_window: true,
        is_visible: true,
        process_id: 10,
        current_process_id: 20,
        root_owner: 0,
        taskbar: 500,
        tray: 501,
        ex_style: 0,
        style: WS_CAPTION,
    }
}

#[test]
fn exclusion_rules() {
    let f = normal_window();
    assert!(!is_excluded_window(100, &f));
    assert!(is_excluded_window(0, &f));
    assert!(is_excluded_window(100, &WindowFacts { is_window: false, ..f }));
    assert!(is_excluded_window(100, &WindowFacts { is_visible: false, ..f }));
    assert!(is_excluded_window(100, &WindowFacts { process_id: 20, ..f }));
    assert!(is_excluded_window(100, &WindowFacts { root_owner: 7, ..f }));
    assert!(!is_excluded_window(100, &WindowFacts { root_owner: 100, ..f }));
    assert!(is_excluded_window(500, &f));
    assert!(is_excluded_window(501, &f));
    assert!(is_excluded_window(100, &WindowFacts { ex_style: WS_EX_TOOLWINDOW, ..f }));
    assert!(is_excluded_window(100, &WindowFacts { ex_style: 1, ..f }));
    assert!(is_excluded_window(100, &WindowFacts { style: WS_CAPTION | WS_CHILD, ..f }));
    assert!(is_excluded_window(100, &WindowFacts { style: WS_CAPTION | WS_POPUP, ..f }));
    assert!(is_excluded_window(100, &WindowFacts { style: 0, ..f }));
    assert!(!is_excluded_window(100, &WindowFacts { style: 0x0080_0000, ..f }));
    assert_eq!(candidate_window(100, &f), 100);
    assert_eq!(candidate_window(500, &f), 0);
    assert!(is_valid_window(3, true));
    assert!(!is_valid_window(0, true));
    assert!(!is_valid_window(3, false));
}

fn follow_reference(plan: TickPlan) -> Option<isize> {
    match plan {
        TickPlan::Follow { reference, .. } => Some(reference),
        TickPlan::Hide { .. } => None,
    }
}

#[test]
fn a_new_window_is_followed_after_three_ticks() {
    let mut s = TrackingState::new();
    assert_eq!(
        s.begin_tick(100, true),
        TickPlan::Hide { announce_reference: false, locked: false }
    );
    assert_eq!(s.reference_hwnd(), 0);
    s.begin_tick(100, true);
    assert_eq!(s.reference_hwnd(), 0);
    let plan = s.begin_tick(100, true);
    assert_eq!(s.reference_hwnd(), 100);
    assert_eq!(
        plan,
        TickPlan::Follow { reference: 100, locked: false, announce_reference: true }
    );
    s.mark_shown();
    // Another window must be seen on three consecutive ticks; a tick with
    // an excluded window in front or another window interrupts the count.
    assert_eq!(follow_reference(s.begin_tick(200, true)), Some(100));
    assert_eq!(follow_reference(s.begin_tick(200, true)), Some(100));
    assert_eq!(follow_reference(s.begin_tick(0, true)), Some(100));
    assert_eq!(follow_reference(s.begin_tick(200, true)), Some(100));
    assert_eq!(follow_reference(s.begin_tick(300, true)), Some(100));
    assert_eq!(follow_reference(s.begin_tick(200, true)), Some(100));
    assert_eq!(follow_reference(s.begin_tick(200, true)), Some(100));
    assert_eq!(
        s.begin_tick(200, true),
        TickPlan::Follow { reference: 200, locked: false, announce_reference: true }
    );
    // Seeing the reference itself resets a pending window.
    s.begin_tick(300, true);
    s.begin_tick(300, true);
    s.begin_tick(200, true);
    s.begin_tick(300, true);
    assert_eq!(s.reference_hwnd(), 200);
}

#[test]
fn a_locked_reference_stays() {
    let mut s = TrackingState::new();
    for _ in 0..3 {
        s.begin_tick(100, true);
    }
    let notice = launcher_start_tracking(&mut s);
    assert!(notice.locked);
    assert_eq!(notice.hwnd.as_deref(), Some("0x64"));
    for _ in 0..5 {
        assert_eq!(
            s.begin_tick(200, true),
            TickPlan::Follow { reference: 100, locked: true, announce_reference: false }
        );
    }
    let notice = launcher_stop_tracking(&mut s);
    assert!(!notice.locked);
    assert!(!s.lock_enabled());
}

#[test]
fn locking_without_reference_takes_the_next_window() {
    let mut s = TrackingState::new();
    launcher_start_tracking(&mut s);
    assert_eq!(
        s.begin_tick(100, true),
        TickPlan::Follow { reference: 100, locked: true, announce_reference: true }
    );
}

#[test]
fn a_vanished_reference_is_released() {
    let mut s = TrackingState::new();
    for _ in 0..3 {
        s.begin_tick(100, true);
    }
    s.mark_shown();
    launcher_start_tracking(&mut s);
    assert_eq!(s.reference_probe(), Some(100));
    assert_eq!(
        s.begin_tick(200, false),
        TickPlan::Hide { announce_reference: true, locked: false }
    );
    assert_eq!(s.reference_hwnd(), 0);
    assert!(!s.lock_enabled());
    assert_eq!(s.reference_probe(), None);
}

#[test]
fn losing_the_rectangle_releases_the_reference() {
    let mut s = TrackingState::new();
    for _ in 0..3 {
        s.begin_tick(100, true);
    }
    launcher_start_tracking(&mut s);
    s.lose_reference();
    assert_eq!(s.reference_hwnd(), 0);
    assert!(!s.lock_enabled());
}

#[test]
fn the_tray_keeps_the_bar_hidden() {
    let mut s = TrackingState::new();
    for _ in 0..3 {
        s.begin_tick(100, true);
    }
    s.mark_shown();
    set_put_in_tray(&mut s, true);
    assert!(s.put_in_tray());
    assert_eq!(
        s.begin_tick(100, true),
        TickPlan::Hide { announce_reference: false, locked: false }
    );
    assert_eq!(
        s.begin_tick(100, true),
        TickPlan::Hide { announce_reference: false, locked: false }
    );
    set_put_in_tray(&mut s, false);
    assert_eq!(follow_reference(s.begin_tick(100, true)), Some(100));
}

#[test]
fn the_thread_is_started_once() {
    let mut s = TrackingState::new();
    assert!(ensure_tracking_thread(&mut s));
    assert!(!ensure_tracking_thread(&mut s));
}

#[test]
fn notices_format_handles_in_hex() {
    let n = reference_notice(0, true);
    assert!(n.hwnd.is_none());
    assert!(n.locked);
    assert_eq!(reference_notice(0x1a2b, false).hwnd.as_deref(), Some("0x1a2b"));
    assert_eq!(reference_notice(-1, false).hwnd, Some(format!("{:#x}", -1isize)));
    assert_eq!(reference_notice(7, false).hwnd, Some(format!("{:#x}", 7isize)));
}

#[test]
fn bar_placement() {
    let rect = WindowRect { left: 100, top: 300, right: 899, bottom: 700 };
    assert!(placement_fits(&rect));
    assert_eq!(
        tracked_placement(&rect),
        TrackedPlacement { x: 100, y: 300 - BAR_HEIGHT, width: 799, visible: true }
    );
    assert_eq!(BAR_HEIGHT, 124);
    let thin = WindowRect { left: 50, top: 10, right: 20, bottom: 20 };
    assert_eq!(tracked_placement(&thin).width, 1);
    assert_eq!(tracked_placement(&thin).y, -114);
    let one = WindowRect { left: 5, top: 200, right: 6, bottom: 300 };
    assert_eq!(tracked_placement(&one).width, 1);
    let max = WindowRect { left: 0, top: 200, right: i32::MAX, bottom: 300 };
    assert!(placement_fits(&max));
    assert_eq!(tracked_placement(&max).width, i32::MAX);
    assert!(!placement_fits(&WindowRect { left: i32::MIN, top: 0, right: i32::MAX, bottom: 0 }));
    assert!(!placement_fits(&WindowRect { left: 0, top: i32::MIN, right: 10, bottom: 0 }));
    assert_eq!(
        hidden_placement(),
        TrackedPlacement { x: 0, y: 0, width: 0, visible: false }
    );
}
