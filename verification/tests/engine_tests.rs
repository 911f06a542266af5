use std::sync::mpsc::channel;
use strip_wm::geometry::Rect;
use strip_wm::layout_engine::{
    coalesce, init_actions, CommitAction, InitAction, MovementMsg, MovementWorker, PipelineType, ProxyAction, ProxyCard, RectQuery,
    UpdateAction, WindowSample, WindowState, WindowStateCache, WmMovementCoordinator, WorkerState,
};

fn update(hwnd: isize, x: i32) -> MovementMsg {
    MovementMsg::Update { hwnd, x, y: 0, width: 100, height: 50 }
}

fn commit(hwnd: isize) -> MovementMsg {
    MovementMsg::Commit { hwnd, final_x: 1, final_y: 2, final_width: 3, final_height: 4 }
}

fn init(hwnd: isize) -> MovementMsg {
    MovementMsg::Init { hwnd, pipeline: PipelineType::StandardApp, tauri_host_hwnd: 9 }
}

#[test]
fn coalesce_keeps_latest_update_per_window() {
    let msgs = vec![init(1), update(1, 10), update(2, 20), update(1, 11), init(3), update(1, 12)];
    let b = coalesce(&msgs);
    assert_eq!(b.inits, vec![init(1), init(3)]);
    assert!(b.commits.is_empty());
    assert_eq!(b.updates.len(), 2);
    assert_eq!(b.updates.get(&1), Some(&update(1, 12)));
    assert_eq!(b.updates.get(&2), Some(&update(2, 20)));
}

#[test]
fn commit_overrides_pending_update() {
    let msgs = vec![update(1, 10), commit(1), update(2, 5), commit(2), update(2, 6)];
    let b = coalesce(&msgs);
    assert_eq!(b.commits, vec![commit(1), commit(2)]);
    assert_eq!(b.updates.get(&1), None);
    assert_eq!(b.updates.get(&2), Some(&update(2, 6)));
}

#[test]
fn worker_standard_pipeline_cycle() {
    let mut w = WorkerState::new();
    assert_eq!(w.on_update(5, 0, 0, 10, 10), UpdateAction::Nothing);
    assert_eq!(
        w.on_init(5, PipelineType::StandardApp, 77),
        InitAction::CloakAndRegister { hwnd: 5, tauri_host_hwnd: 77 }
    );
    assert_eq!(w.pipeline_of(5), Some(PipelineType::StandardApp));
    // No thumbnail yet (registration failed or pending): nothing to move.
    assert_eq!(w.on_update(5, 1, 2, 30, 40), UpdateAction::Nothing);
    w.thumbnail_registered(5, 1234);
    assert_eq!(w.thumbnail_of(5), Some(1234));
    assert_eq!(
        w.on_update(5, 1, 2, 30, 40),
        UpdateAction::MoveThumbnail { thumbnail: 1234, x: 1, y: 2, width: 30, height: 40 }
    );
    assert_eq!(w.on_commit(5), CommitAction::Uncloak { thumbnail: Some(1234) });
    assert_eq!(w.pipeline_of(5), None);
    assert_eq!(w.thumbnail_of(5), None);
    assert_eq!(w.on_commit(5), CommitAction::Nothing);
}

#[test]
fn worker_heavy_game_uses_proxy_card() {
    let mut w = WorkerState::new();
    let card = |action, x, y, width, height| ProxyCard { hwnd: 8, action, x, y, width, height };
    assert_eq!(w.on_init(8, PipelineType::HeavyGame, 1), InitAction::ClipAndShow(card(ProxyAction::Show, 0, 0, 0, 0)));
    assert_eq!(w.on_update(8, 3, 4, 5, 6), UpdateAction::MoveProxy(card(ProxyAction::Update, 3, 4, 5, 6)));
    assert_eq!(w.on_commit(8), CommitAction::UnclipAndHide(card(ProxyAction::Hide, 0, 0, 0, 0)));
    assert_eq!(w.pipeline_of(8), None);
}

#[test]
fn cache_refresh_follows_readings() {
    let mut c = WindowStateCache::new();
    let r = Rect { left: 1, top: 2, right: 3, bottom: 4 };
    let samples = vec![
        WindowSample { hwnd: 1, rect: RectQuery::Found(r), is_visible: true },
        WindowSample { hwnd: 2, rect: RectQuery::AccessDenied, is_visible: false },
        WindowSample { hwnd: 3, rect: RectQuery::Unavailable, is_visible: true },
    ];
    c.refresh(&samples);
    assert_eq!(c.get(1), Some(WindowState { hwnd: 1, rect: r, is_visible: true }));
    assert_eq!(c.get(2), Some(WindowState { hwnd: 2, rect: Rect::zero(), is_visible: false }));
    assert_eq!(c.get(3), None);
    assert_eq!(c.visible_hwnds(), vec![1]);
    c.remove(1);
    assert_eq!(c.get(1), None);
    assert!(c.visible_hwnds().is_empty());
}

#[test]
fn coordinator_manages_windows_once() {
    let (tx, _rx) = channel();
    let mut c = WmMovementCoordinator::new(MovementWorker::new(tx), 500);
    c.add_managed_window(1);
    c.add_managed_window(2);
    c.add_managed_window(1);
    assert_eq!(c.managed_hwnds(), vec![1, 2]);
    c.remove_managed_window(1);
    assert_eq!(c.managed_hwnds(), vec![2]);
    c.remove_managed_window(7);
    assert_eq!(c.managed_hwnds(), vec![2]);
}

#[test]
fn scroll_start_inits_visible_windows() {
    let (tx, rx) = channel();
    let mut c = WmMovementCoordinator::new(MovementWorker::new(tx), 500);
    let r = Rect::zero();
    c.refresh_cache(&vec![
        WindowSample { hwnd: 1, rect: RectQuery::Found(r), is_visible: true },
        WindowSample { hwnd: 2, rect: RectQuery::Found(r), is_visible: false },
        WindowSample { hwnd: 3, rect: RectQuery::Found(r), is_visible: true },
    ]);
    let mut inits = c.scroll_inits();
    inits.sort_by_key(|m| match m {
        MovementMsg::Init { hwnd, .. } => *hwnd,
        _ => 0,
    });
    let expect = |hwnd| MovementMsg::Init { hwnd, pipeline: PipelineType::StandardApp, tauri_host_hwnd: 500 };
    assert_eq!(inits, vec![expect(1), expect(3)]);

    c.begin_scroll();
    let mut sent: Vec<MovementMsg> = rx.try_iter().collect();
    sent.sort_by_key(|m| match m {
        MovementMsg::Init { hwnd, .. } => *hwnd,
        _ => 0,
    });
    assert_eq!(sent, vec![expect(1), expect(3)]);

    c.stream_scroll_update(3, 10, 20, 30, 40);
    c.end_scroll(3, 11, 21, 31, 41);
    assert_eq!(rx.try_recv().unwrap(), MovementMsg::Update { hwnd: 3, x: 10, y: 20, width: 30, height: 40 });
    assert_eq!(
        rx.try_recv().unwrap(),
        MovementMsg::Commit { hwnd: 3, final_x: 11, final_y: 21, final_width: 31, final_height: 41 }
    );

    c.remove_managed_window(1);
    assert_eq!(c.cached_state(1), None);
    assert_eq!(c.cached_state(3).map(|s| s.is_visible), Some(true));
}

#[test]
fn worker_send_reaches_receiver() {
    let (tx, rx) = channel();
    let mut w = MovementWorker::new(tx);
    w.send(init(4));
    assert_eq!(rx.try_recv().unwrap(), init(4));
}

#[test]
fn manage_then_unmanage_restores_list() {
    let (tx, _rx) = channel();
    let mut c = WmMovementCoordinator::new(MovementWorker::new(tx), 1);
    c.add_managed_window(3);
    c.add_managed_window(4);
    let before = c.managed_hwnds();
    c.add_managed_window(9);
    c.remove_managed_window(9);
    assert_eq!(c.managed_hwnds(), before);
}

#[test]
fn batch_plans_follow_phases() {
    let mut w = WorkerState::new();
    let msgs = vec![
        init(1),
        MovementMsg::Init { hwnd: 2, pipeline: PipelineType::HeavyGame, tauri_host_hwnd: 9 },
        update(1, 5),
        update(2, 6),
        update(1, 7),
        commit(3),
    ];
    let b = coalesce(&msgs);
    let inits = w.plan_inits(&b.inits);
    assert_eq!(
        inits,
        vec![
            InitAction::CloakAndRegister { hwnd: 1, tauri_host_hwnd: 9 },
            InitAction::ClipAndShow(ProxyCard { hwnd: 2, action: ProxyAction::Show, x: 0, y: 0, width: 0, height: 0 }),
        ]
    );
    w.thumbnail_registered(1, 55);
    let mut ups = w.plan_updates(&b.updates);
    ups.sort_by_key(|(h, _)| *h);
    assert_eq!(
        ups,
        vec![
            (1, UpdateAction::MoveThumbnail { thumbnail: 55, x: 7, y: 0, width: 100, height: 50 }),
            (2, UpdateAction::MoveProxy(ProxyCard { hwnd: 2, action: ProxyAction::Update, x: 6, y: 0, width: 100, height: 50 })),
        ]
    );
    let commits = w.plan_commits(&vec![commit(3), commit(1), commit(2)]);
    assert_eq!(
        commits,
        vec![
            (commit(3), CommitAction::Nothing),
            (commit(1), CommitAction::Uncloak { thumbnail: Some(55) }),
            (commit(2), CommitAction::UnclipAndHide(ProxyCard { hwnd: 2, action: ProxyAction::Hide, x: 0, y: 0, width: 0, height: 0 })),
        ]
    );
    assert_eq!(w.pipeline_of(1), None);
    assert_eq!(w.thumbnail_of(1), None);
    assert_eq!(w.pipeline_of(2), None);
}

#[test]
fn batch_plan_runs_phases_in_order() {
    let mut w = WorkerState::new();
    // An update followed by a commit of window 1 is dropped; window 2 is
    // initialised, registered and moved within the same batch; window 3's
    // later update wins over its earlier one.
    let heavy = MovementMsg::Init { hwnd: 3, pipeline: PipelineType::HeavyGame, tauri_host_hwnd: 9 };
    let msgs = vec![update(1, 4), init(2), heavy, update(3, 1), commit(1), update(2, 8), update(3, 2)];
    let b = coalesce(&msgs);
    let acts = init_actions(&b.inits);
    assert_eq!(
        acts,
        vec![
            InitAction::CloakAndRegister { hwnd: 2, tauri_host_hwnd: 9 },
            InitAction::ClipAndShow(ProxyCard { hwnd: 3, action: ProxyAction::Show, x: 0, y: 0, width: 0, height: 0 }),
        ]
    );
    let plan = w.plan_batch(&b, &vec![(2, 77)]);
    assert_eq!(plan.inits, acts);
    let mut ups = plan.updates;
    ups.sort_by_key(|(h, _)| *h);
    assert_eq!(
        ups,
        vec![
            (2, UpdateAction::MoveThumbnail { thumbnail: 77, x: 8, y: 0, width: 100, height: 50 }),
            (3, UpdateAction::MoveProxy(ProxyCard { hwnd: 3, action: ProxyAction::Update, x: 2, y: 0, width: 100, height: 50 })),
        ]
    );
    assert_eq!(plan.commits, vec![(commit(1), CommitAction::Nothing)]);
    assert_eq!(w.thumbnail_of(2), Some(77));
    assert_eq!(w.pipeline_of(3), Some(PipelineType::HeavyGame));

    // A later batch commits both.
    let b2 = coalesce(&vec![commit(2), commit(3)]);
    let plan2 = w.plan_batch(&b2, &vec![]);
    assert!(plan2.inits.is_empty() && plan2.updates.is_empty());
    assert_eq!(
        plan2.commits,
        vec![
            (commit(2), CommitAction::Uncloak { thumbnail: Some(77) }),
            (commit(3), CommitAction::UnclipAndHide(ProxyCard { hwnd: 3, action: ProxyAction::Hide, x: 0, y: 0, width: 0, height: 0 })),
        ]
    );
    assert_eq!(w.pipeline_of(2), None);
    assert_eq!(w.thumbnail_of(2), None);
}
