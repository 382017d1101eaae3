use reparent_wm::protocol::{
    Binding, Event, Keymap, Request, TopLevel, WindowAttributes, WindowChanges, WmError,
    BACKGROUND_COLOR, BORDER_COLOR, BORDER_WIDTH, BUTTON1, BUTTON1_MASK, CW_BORDER_WIDTH,
    CW_HEIGHT, CW_SIBLING, CW_STACK_MODE, CW_WIDTH, CW_X, CW_Y, MOD1_MASK,
};
use reparent_wm::wm::{Drag, WindowManager};

const ROOT: u64 = 1;

const KEYS: Keymap = Keymap { kill: 24, cycle: 23, launch: 65 };

fn viewable(x: i32, y: i32, width: u32, height: u32) -> WindowAttributes {
    WindowAttributes { x, y, width, height, override_redirect: false, viewable: true }
}

fn manage(wm: &mut WindowManager, client: u64, frame: u64) {
    let reqs = wm.frame(client, viewable(0, 0, 100, 100), false);
    assert_eq!(reqs.len(), 1);
    wm.adopt(client, frame).unwrap();
}

fn changes() -> WindowChanges {
    WindowChanges { x: 5, y: 6, width: 300, height: 200, border_width: 2, sibling: 77, stack_mode: 1 }
}

#[test]
fn new_manager_is_empty() {
    let wm = WindowManager::new(ROOT);
    assert_eq!(wm.root(), ROOT);
    assert_eq!(wm.clients().len(), 0);
    assert_eq!(wm.drag(), None);
}

#[test]
fn frame_uses_client_geometry_and_fixed_decoration() {
    let wm = WindowManager::new(ROOT);
    let reqs = wm.frame(10, viewable(15, 25, 640, 480), false);
    assert_eq!(
        reqs,
        vec![Request::CreateFrame {
            client: 10,
            x: 15,
            y: 25,
            width: 640,
            height: 480,
            border_width: 3,
            border_color: 0xFF00FF,
            background: 0x0000FF,
        }]
    );
    assert_eq!((BORDER_WIDTH, BORDER_COLOR, BACKGROUND_COLOR), (3, 0xFF00FF, 0x0000FF));
}

#[test]
fn frame_after_startup_ignores_override_redirect() {
    let wm = WindowManager::new(ROOT);
    let attrs = WindowAttributes { x: 0, y: 0, width: 10, height: 10, override_redirect: true, viewable: false };
    assert_eq!(wm.frame(10, attrs, false).len(), 1);
    assert_eq!(wm.frame(10, attrs, true).len(), 0);
}

#[test]
fn adopt_saves_before_reparenting_and_grabs() {
    let mut wm = WindowManager::new(ROOT);
    let reqs = wm.adopt(10, 110).unwrap();
    assert_eq!(
        reqs,
        vec![
            Request::SelectSubstructure { window: 110 },
            Request::AddToSaveSet { window: 10 },
            Request::Reparent { window: 10, parent: 110, x: 0, y: 0 },
            Request::MapWindow { window: 110 },
            Request::GrabKey { binding: Binding::Kill, modifiers: MOD1_MASK, window: 10 },
            Request::GrabKey { binding: Binding::Cycle, modifiers: MOD1_MASK, window: 10 },
            Request::GrabButton { button: BUTTON1, modifiers: MOD1_MASK, window: 10 },
        ]
    );
    assert_eq!(wm.frame_of(10), Some(110));
}

#[test]
fn each_client_has_its_own_frame() {
    let mut wm = WindowManager::new(ROOT);
    manage(&mut wm, 10, 110);
    manage(&mut wm, 20, 120);
    assert_eq!(wm.frame_of(10), Some(110));
    assert_eq!(wm.frame_of(20), Some(120));
    assert_eq!(wm.frame_of(110), None);
}

#[test]
fn adopt_twice_is_refused() {
    let mut wm = WindowManager::new(ROOT);
    manage(&mut wm, 10, 110);
    assert_eq!(wm.adopt(10, 111), Err(WmError::AlreadyManaged(10)));
    assert_eq!(wm.clients().len(), 1);
}

#[test]
fn adopt_with_used_frame_is_refused() {
    let mut wm = WindowManager::new(ROOT);
    manage(&mut wm, 10, 110);
    assert_eq!(wm.adopt(20, 110), Err(WmError::FrameInUse(110)));
    assert_eq!(wm.clients().len(), 1);
}

#[test]
fn registry_size_follows_frame_and_unframe() {
    let mut wm = WindowManager::new(ROOT);
    manage(&mut wm, 10, 110);
    assert_eq!(wm.clients().len(), 1);
    manage(&mut wm, 20, 120);
    assert_eq!(wm.clients().len(), 2);
    wm.unframe(10).unwrap();
    assert_eq!(wm.clients().len(), 1);
    assert_eq!(wm.unframe(10), Err(WmError::UnknownClient(10)));
    assert_eq!(wm.clients().len(), 1);
}

#[test]
fn unframe_gives_client_back_to_root() {
    let mut wm = WindowManager::new(ROOT);
    manage(&mut wm, 10, 110);
    let reqs = wm.unframe(10).unwrap();
    assert_eq!(
        reqs,
        vec![
            Request::UnmapWindow { window: 110 },
            Request::Reparent { window: 10, parent: ROOT, x: 0, y: 0 },
            Request::RemoveFromSaveSet { window: 10 },
            Request::DestroyWindow { window: 110 },
        ]
    );
    assert_eq!(wm.frame_of(10), None);
}

#[test]
fn second_unmap_is_a_no_op() {
    let mut wm = WindowManager::new(ROOT);
    manage(&mut wm, 10, 110);
    manage(&mut wm, 20, 120);
    let ev = Event::UnmapNotify { event: 110, window: 10 };
    assert_eq!(wm.handle_event(ev).unwrap().len(), 4);
    assert_eq!(wm.clients().len(), 1);
    assert_eq!(wm.handle_event(ev), Ok(vec![]));
    assert_eq!(wm.clients().len(), 1);
    assert_eq!(wm.frame_of(20), Some(120));
}

#[test]
fn unmap_reported_on_root_is_ignored() {
    let mut wm = WindowManager::new(ROOT);
    manage(&mut wm, 10, 110);
    assert_eq!(wm.on_unmap_notify(ROOT, 10), vec![]);
    assert_eq!(wm.frame_of(10), Some(110));
}

#[test]
fn map_request_frames_then_maps() {
    let mut wm = WindowManager::new(ROOT);
    let reqs = wm.handle_event(Event::MapRequest { window: 10, attrs: viewable(1, 2, 3, 4) }).unwrap();
    assert_eq!(reqs.len(), 2);
    assert!(matches!(reqs[0], Request::CreateFrame { client: 10, x: 1, y: 2, width: 3, height: 4, .. }));
    assert_eq!(reqs[1], Request::MapWindow { window: 10 });
}

#[test]
fn map_request_for_framed_client_only_maps() {
    let mut wm = WindowManager::new(ROOT);
    manage(&mut wm, 10, 110);
    let reqs = wm.on_map_request(10, viewable(1, 2, 3, 4));
    assert_eq!(reqs, vec![Request::MapWindow { window: 10 }]);
}

fn configure_case(mask: u64) {
    let mut wm = WindowManager::new(ROOT);
    manage(&mut wm, 10, 110);
    let ch = changes();
    let reqs = wm
        .handle_event(Event::ConfigureRequest { window: 10, value_mask: mask, changes: ch })
        .unwrap();
    assert_eq!(
        reqs,
        vec![
            Request::Configure { window: 110, value_mask: mask, changes: ch },
            Request::Configure { window: 10, value_mask: mask, changes: ch },
        ]
    );
}

#[test]
fn configure_position_passes_through() {
    configure_case(CW_X | CW_Y);
}

#[test]
fn configure_size_passes_through() {
    configure_case(CW_WIDTH | CW_HEIGHT);
}

#[test]
fn configure_border_passes_through() {
    configure_case(CW_BORDER_WIDTH);
}

#[test]
fn configure_stacking_passes_through() {
    configure_case(CW_SIBLING | CW_STACK_MODE);
}

#[test]
fn configure_all_fields_pass_through() {
    configure_case(CW_X | CW_Y | CW_WIDTH | CW_HEIGHT | CW_BORDER_WIDTH | CW_SIBLING | CW_STACK_MODE);
}

#[test]
fn configure_unmanaged_window_only_reaches_it() {
    let wm = WindowManager::new(ROOT);
    let ch = changes();
    assert_eq!(
        wm.on_configure_request(10, CW_WIDTH, ch),
        vec![Request::Configure { window: 10, value_mask: CW_WIDTH, changes: ch }]
    );
}

#[test]
fn drag_translates_frame() {
    let mut wm = WindowManager::new(ROOT);
    manage(&mut wm, 10, 110);
    let reqs = wm
        .handle_event(Event::ButtonPress { window: 10, x_root: 100, y_root: 100, frame_x: 10, frame_y: 20 })
        .unwrap();
    assert_eq!(reqs, vec![Request::Raise { window: 110 }, Request::Focus { window: 10 }]);
    assert_eq!(wm.drag(), Some(Drag { pointer_x: 100, pointer_y: 100, frame_x: 10, frame_y: 20 }));
    let moved = wm
        .handle_event(Event::MotionNotify { window: 10, x_root: 130, y_root: 90, state: BUTTON1_MASK | MOD1_MASK })
        .unwrap();
    assert_eq!(moved, vec![Request::Move { window: 110, x: 40, y: 10 }]);
    let moved = wm
        .handle_event(Event::MotionNotify { window: 10, x_root: 50, y_root: 300, state: BUTTON1_MASK })
        .unwrap();
    assert_eq!(moved, vec![Request::Move { window: 110, x: -40, y: 220 }]);
    assert_eq!(wm.handle_event(Event::ButtonRelease { window: 10 }), Ok(vec![]));
    assert_eq!(wm.drag(), None);
    let after = wm
        .handle_event(Event::MotionNotify { window: 10, x_root: 500, y_root: 500, state: BUTTON1_MASK })
        .unwrap();
    assert_eq!(after, vec![]);
}

#[test]
fn drag_at_coordinate_extremes_is_exact() {
    let mut wm = WindowManager::new(ROOT);
    manage(&mut wm, 10, 110);
    wm.on_button_pressed(10, i32::MIN, i32::MAX, i32::MAX, i32::MIN).unwrap();
    let moved = wm.on_motion_notify(10, i32::MAX, i32::MIN, BUTTON1_MASK).unwrap();
    assert_eq!(
        moved,
        vec![Request::Move {
            window: 110,
            x: i32::MAX as i64 + (i32::MAX as i64 - i32::MIN as i64),
            y: i32::MIN as i64 + (i32::MIN as i64 - i32::MAX as i64),
        }]
    );
}

#[test]
fn motion_without_button_moves_nothing() {
    let mut wm = WindowManager::new(ROOT);
    manage(&mut wm, 10, 110);
    wm.on_button_pressed(10, 0, 0, 0, 0).unwrap();
    assert_eq!(wm.on_motion_notify(10, 5, 5, MOD1_MASK), Ok(vec![]));
}

#[test]
fn press_on_unknown_window_is_an_error() {
    let mut wm = WindowManager::new(ROOT);
    assert_eq!(wm.on_button_pressed(10, 0, 0, 0, 0), Err(WmError::UnknownClient(10)));
    assert_eq!(wm.drag(), None);
}

#[test]
fn cycle_visits_clients_in_insertion_order() {
    let mut wm = WindowManager::new(ROOT);
    manage(&mut wm, 10, 110);
    manage(&mut wm, 20, 120);
    manage(&mut wm, 30, 130);
    let press = |w: u64| Event::KeyPress { window: w, keycode: KEYS.cycle, state: MOD1_MASK, keys: KEYS };
    assert_eq!(
        wm.handle_event(press(20)),
        Ok(vec![Request::Raise { window: 130 }, Request::Focus { window: 30 }])
    );
    let mut at = 20;
    for _ in 0..3 {
        let reqs = wm.handle_event(press(at)).unwrap();
        at = match reqs[1] {
            Request::Focus { window } => window,
            _ => panic!("no focus request"),
        };
    }
    assert_eq!(at, 20);
}

#[test]
fn cycle_from_unknown_window_is_an_error() {
    let mut wm = WindowManager::new(ROOT);
    manage(&mut wm, 10, 110);
    assert_eq!(wm.on_key_pressed(99, KEYS.cycle, MOD1_MASK, KEYS), Err(WmError::UnknownClient(99)));
}

#[test]
fn cycle_needs_alt() {
    let mut wm = WindowManager::new(ROOT);
    manage(&mut wm, 10, 110);
    assert_eq!(wm.on_key_pressed(10, KEYS.cycle, 0, KEYS), Ok(vec![]));
}

#[test]
fn kill_and_launch_keys() {
    let wm = WindowManager::new(ROOT);
    assert_eq!(wm.on_key_pressed(10, KEYS.kill, MOD1_MASK, KEYS), Ok(vec![Request::Kill { window: 10 }]));
    assert_eq!(wm.on_key_pressed(ROOT, KEYS.launch, MOD1_MASK, KEYS), Ok(vec![Request::Launch]));
    assert_eq!(wm.on_key_pressed(ROOT, KEYS.launch, 0, KEYS), Ok(vec![]));
    assert_eq!(wm.on_key_pressed(ROOT, 99, MOD1_MASK, KEYS), Ok(vec![]));
}

#[test]
fn root_grabs_the_launcher_key() {
    let wm = WindowManager::new(ROOT);
    assert_eq!(
        wm.root_grabs(),
        vec![Request::GrabKey { binding: Binding::Launch, modifiers: MOD1_MASK, window: ROOT }]
    );
}

#[test]
fn observational_events_change_nothing() {
    let mut wm = WindowManager::new(ROOT);
    manage(&mut wm, 10, 110);
    for ev in [
        Event::CreateNotify { window: 10 },
        Event::DestroyNotify { window: 10 },
        Event::ConfigureNotify { window: 10 },
        Event::ReparentNotify { window: 10 },
        Event::KeyRelease { window: 10, keycode: 24 },
        Event::Other { kind: 99 },
    ] {
        assert_eq!(wm.handle_event(ev), Ok(vec![]));
    }
    assert_eq!(wm.frame_of(10), Some(110));
}

#[test]
fn startup_scan_skips_unmanageable_windows() {
    let wm = WindowManager::new(ROOT);
    let windows = vec![
        TopLevel { window: 10, attrs: WindowAttributes { x: 0, y: 0, width: 5, height: 5, override_redirect: true, viewable: true } },
        TopLevel { window: 20, attrs: WindowAttributes { x: 0, y: 0, width: 5, height: 5, override_redirect: false, viewable: false } },
        TopLevel { window: 30, attrs: viewable(7, 8, 9, 10) },
    ];
    let reqs = wm.scan(&windows);
    assert_eq!(reqs.len(), 1);
    assert!(matches!(reqs[0], Request::CreateFrame { client: 30, x: 7, y: 8, width: 9, height: 10, .. }));
}

#[test]
fn startup_scan_orders_registry_and_cycles() {
    let (a, b, c) = (10u64, 20u64, 30u64);
    let mut wm = WindowManager::new(ROOT);
    let windows = vec![
        TopLevel { window: a, attrs: viewable(0, 0, 10, 10) },
        TopLevel { window: b, attrs: viewable(10, 0, 10, 10) },
        TopLevel { window: c, attrs: viewable(20, 0, 10, 10) },
    ];
    let mut next_frame = 100u64;
    for r in wm.scan(&windows) {
        match r {
            Request::CreateFrame { client, .. } => {
                wm.adopt(client, next_frame).unwrap();
                next_frame += 1;
            }
            _ => panic!("scan returned {:?}", r),
        }
    }
    assert_eq!(wm.clients().index(0), Some((&a, &100)));
    assert_eq!(wm.clients().index(1), Some((&b, &101)));
    assert_eq!(wm.clients().index(2), Some((&c, &102)));
    assert_eq!(wm.clients().cycle_target(&a), Some((b, 101)));
    assert_eq!(wm.clients().cycle_target(&c), Some((a, 100)));
}
