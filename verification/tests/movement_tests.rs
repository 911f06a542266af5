use std::sync::mpsc::channel;
use strip_wm::geometry::Rect;
use strip_wm::movement::{drain_latest, ManagedWindow, MovementMsg, MovementStep, WmMovementState};

#[test]
fn movement_runs_through_three_phases() {
    let mut w = ManagedWindow::new(42);
    assert!(matches!(w.state, WmMovementState::Idle));

    // Phase A: the first update asks to start the movement.
    let step = w.update_movement(10, 20, 300, 200);
    assert_eq!(step, MovementStep::Begin { dest: Rect { left: 10, top: 20, right: 310, bottom: 220 } });
    assert!(matches!(w.state, WmMovementState::Idle));

    let (tx, rx) = channel::<MovementMsg>();
    w.begin_translating(10, 20, 777, tx);

    // Phase B: updates go to the thumbnail thread.
    assert_eq!(w.update_movement(15, 25, 300, 200), MovementStep::Forwarded { enqueued: true });
    assert_eq!(w.update_movement(18, 26, 300, 200), MovementStep::Forwarded { enqueued: true });
    assert_eq!(rx.try_recv().unwrap(), MovementMsg::Update { x: 15, y: 25 });
    assert_eq!(rx.try_recv().unwrap(), MovementMsg::Update { x: 18, y: 26 });
    match &w.state {
        WmMovementState::Translating { current_x, current_y, thumbnail_handle, .. } => {
            assert_eq!((*current_x, *current_y, *thumbnail_handle), (18, 26, 777));
        }
        _ => panic!("not translating"),
    }

    // Stop: the thread is told to stop, the thumbnail is handed back.
    assert_eq!(w.stop_movement(), Some(777));
    assert_eq!(rx.try_recv().unwrap(), MovementMsg::Stop);
    // Until the thumbnail is unregistered the window is still moving.
    assert!(matches!(w.state, WmMovementState::Translating { current_x: 18, current_y: 26, .. }));
    let tx = w.enter_snapping();
    assert!(tx.is_some());
    drop(tx);
    assert!(rx.recv().is_err());
    assert!(matches!(w.state, WmMovementState::Snapping { final_x: 18, final_y: 26 }));

    // Phase C: snap to the last position; once the window is placed, idle.
    assert_eq!(w.update_movement(0, 0, 300, 200), MovementStep::Snap { final_x: 18, final_y: 26 });
    assert!(matches!(w.state, WmMovementState::Snapping { final_x: 18, final_y: 26 }));
    w.finish_snap();
    assert!(matches!(w.state, WmMovementState::Idle));
    assert_eq!(w.hwnd, 42);
}

#[test]
fn stop_outside_translating_does_nothing() {
    let mut w = ManagedWindow::new(1);
    assert!(w.stop_movement().is_none());
    assert!(w.enter_snapping().is_none());
    w.finish_snap();
    assert!(matches!(w.state, WmMovementState::Idle));
    w.state = WmMovementState::Snapping { final_x: 3, final_y: 4 };
    assert!(w.stop_movement().is_none());
    assert!(w.enter_snapping().is_none());
    assert!(matches!(w.state, WmMovementState::Snapping { final_x: 3, final_y: 4 }));
}

#[test]
fn drain_keeps_latest_position() {
    let none: Vec<MovementMsg> = vec![];
    assert_eq!(drain_latest(1, 2, &none), Some((1, 2)));
    let pending = vec![MovementMsg::Update { x: 5, y: 6 }, MovementMsg::Update { x: 7, y: 8 }];
    assert_eq!(drain_latest(1, 2, &pending), Some((7, 8)));
}

#[test]
fn drain_stops_on_stop() {
    let pending = vec![MovementMsg::Update { x: 5, y: 6 }, MovementMsg::Stop, MovementMsg::Update { x: 7, y: 8 }];
    assert_eq!(drain_latest(1, 2, &pending), None);
}

#[test]
fn update_reports_gone_thumbnail_thread() {
    let mut w = ManagedWindow::new(5);
    let (tx, rx) = channel::<MovementMsg>();
    w.begin_translating(0, 0, 1, tx);
    drop(rx);
    assert_eq!(w.update_movement(3, 4, 10, 10), MovementStep::Forwarded { enqueued: false });
    assert!(matches!(w.state, WmMovementState::Translating { current_x: 3, current_y: 4, .. }));
}
