use x11wmgr::{
    handle_request, run, ConfigureRequestEvent, LoopInput, Step, ConfigureWindow, Event, Request, Response, StackMode,
    WinMove, WinResize, WinVisbilty, WinZIndex, WindowInfo, WindowManager, X11Request,
    CONFIG_HEIGHT, CONFIG_WIDTH, CONFIG_X, CONFIG_Y,
};

const VROOT: u32 = 0x200001;
const ATOM: u32 = 310;

fn engine() -> WindowManager {
    WindowManager::new(VROOT, ATOM)
}

fn map(wm: &mut WindowManager, id: u32) {
    let (cont, reqs) = wm.handle_event(Event::MapRequest(id));
    assert!(cont);
    assert_eq!(reqs, vec![X11Request::MapWindow(id)]);
}

fn info(id: u32, x: i32, y: i32, width: u32, height: u32) -> WindowInfo {
    WindowInfo { id, x, y, width, height }
}

fn above(id: u32, x: i32, y: i32, w: u32, h: u32) -> X11Request {
    X11Request::Configure(ConfigureWindow {
        window: id,
        x: Some(x),
        y: Some(y),
        width: Some(w),
        height: Some(h),
        stack_mode: StackMode::Above,
    })
}

fn below(id: u32, x: i32, y: i32, w: u32, h: u32) -> X11Request {
    X11Request::Configure(ConfigureWindow {
        window: id,
        x: Some(x),
        y: Some(y),
        width: Some(w),
        height: Some(h),
        stack_mode: StackMode::Below,
    })
}

fn raise_root() -> X11Request {
    X11Request::Configure(ConfigureWindow {
        window: VROOT,
        x: None,
        y: None,
        width: None,
        height: None,
        stack_mode: StackMode::Above,
    })
}

fn promote(wm: &mut WindowManager, id: u32) {
    let (resp, reqs) = handle_request(
        wm,
        Request::ChangeVisibility(vec![WinVisbilty { id, visible: true }]),
    );
    assert_eq!(resp, Response::VisibiltyChanged(vec![id]));
    assert!(reqs.is_empty());
}

fn scenario_one(wm: &mut WindowManager) {
    map(wm, 0x400);
    let hidden = wm.hidden_records();
    assert_eq!(hidden.len(), 1);
    assert_eq!(hidden[0].id, 0x400);
    assert!(hidden[0].last_update_time >= hidden[0].discovery_time);
    let (resp, reqs) = handle_request(wm, Request::ListNewWindows);
    assert_eq!(resp, Response::NewWindows(vec![info(1024, 0, 0, 0, 0)]));
    assert!(reqs.is_empty());
    let (resp, _) = handle_request(wm, Request::ListNewWindows);
    assert_eq!(resp, Response::NewWindows(vec![]));
}

fn scenario_two(wm: &mut WindowManager) {
    promote(wm, 1024);
    let (resp, reqs) = handle_request(wm, Request::FocusWindow(1024));
    assert_eq!(resp, Response::WindowFocused(true));
    assert_eq!(reqs, vec![X11Request::SetInputFocus(1024), X11Request::Flush]);
    let (resp, reqs) = handle_request(wm, Request::FocusWindow(9999));
    assert_eq!(resp, Response::WindowFocused(false));
    assert!(reqs.is_empty());
}

fn scenario_three(wm: &mut WindowManager) {
    let (resp, reqs) = handle_request(
        wm,
        Request::MoveWindows(vec![WinMove { id: 1024, x: 100, y: 50 }]),
    );
    assert_eq!(resp, Response::MoveComplete);
    assert!(reqs.is_empty());
    let (resp, reqs) = handle_request(
        wm,
        Request::ResizeWindows(vec![WinResize { id: 1024, width: 640, height: 480 }]),
    );
    assert_eq!(resp, Response::ResizeComplete);
    assert!(reqs.is_empty());
    let (resp, reqs) = handle_request(wm, Request::Commit);
    assert_eq!(resp, Response::CommitComplete);
    assert_eq!(
        reqs,
        vec![raise_root(), above(1024, 100, 50, 640, 480), X11Request::Flush]
    );
}

#[test]
fn scenario_map_and_classify() {
    let mut wm = engine();
    scenario_one(&mut wm);
    assert!(wm.visible_records().is_empty());
}

#[test]
fn scenario_promote_and_focus() {
    let mut wm = engine();
    scenario_one(&mut wm);
    scenario_two(&mut wm);
    assert_eq!(wm.visible_records()[0].id, 1024);
    assert!(wm.hidden_records().is_empty());
}

#[test]
fn scenario_deferred_geometry_with_commit() {
    let mut wm = engine();
    scenario_one(&mut wm);
    scenario_two(&mut wm);
    scenario_three(&mut wm);
    let (resp, _) = handle_request(&mut wm, Request::ListVisibleWindows);
    assert_eq!(resp, Response::VisibleWindows(vec![info(1024, 100, 50, 640, 480)]));
}

#[test]
fn scenario_z_order_stable_sort() {
    let mut wm = engine();
    for id in [1, 2, 3] {
        map(&mut wm, id);
        promote(&mut wm, id);
    }
    let (resp, reqs) = handle_request(
        &mut wm,
        Request::ChangeZIndex(vec![
            WinZIndex { id: 1, zindex: 5 },
            WinZIndex { id: 2, zindex: 3 },
            WinZIndex { id: 3, zindex: 5 },
        ]),
    );
    assert_eq!(resp, Response::ZIndexChanged(vec![1, 2, 3]));
    assert!(reqs.is_empty());
    let (resp, reqs) = handle_request(&mut wm, Request::Commit);
    assert_eq!(resp, Response::CommitComplete);
    assert_eq!(
        reqs,
        vec![
            raise_root(),
            above(2, 0, 0, 0, 0),
            above(1, 0, 0, 0, 0),
            above(3, 0, 0, 0, 0),
            X11Request::Flush,
        ]
    );
}

#[test]
fn commit_order_keeps_insertion_order_of_equal_zindex() {
    // a = 30 before c = 10 in the visible windows, b = 20 between them
    let mut wm = engine();
    for id in [30, 20, 10] {
        map(&mut wm, id);
        promote(&mut wm, id);
    }
    handle_request(
        &mut wm,
        Request::ChangeZIndex(vec![
            WinZIndex { id: 30, zindex: 5 },
            WinZIndex { id: 20, zindex: 3 },
            WinZIndex { id: 10, zindex: 5 },
        ]),
    );
    let (_, reqs) = handle_request(&mut wm, Request::Commit);
    assert_eq!(
        reqs,
        vec![
            raise_root(),
            above(20, 0, 0, 0, 0),
            above(30, 0, 0, 0, 0),
            above(10, 0, 0, 0, 0),
            X11Request::Flush,
        ]
    );
}

#[test]
fn commit_sinks_hidden_windows_below_the_virtual_root() {
    let mut wm = engine();
    map(&mut wm, 7);
    map(&mut wm, 8);
    promote(&mut wm, 8);
    handle_request(&mut wm, Request::MoveWindows(vec![WinMove { id: 7, x: -5, y: 9 }]));
    let (_, reqs) = handle_request(&mut wm, Request::Commit);
    assert_eq!(
        reqs,
        vec![below(7, -5, 9, 0, 0), raise_root(), above(8, 0, 0, 0, 0), X11Request::Flush]
    );
    // overlays survive a commit
    let (resp, _) = handle_request(&mut wm, Request::ListHiddenWindows);
    assert_eq!(resp, Response::HiddenWindows(vec![info(7, -5, 9, 0, 0)]));
}

#[test]
fn commit_of_empty_registry() {
    let wm = engine();
    assert_eq!(wm.commit(), vec![raise_root(), X11Request::Flush]);
}

#[test]
fn scenario_configure_request_trapped_below() {
    let mut wm = engine();
    map(&mut wm, 0x500);
    let ev = ConfigureRequestEvent {
        window: 0x500,
        value_mask: CONFIG_X | CONFIG_Y | CONFIG_WIDTH | CONFIG_HEIGHT,
        x: 0,
        y: 0,
        width: 800,
        height: 600,
    };
    let (cont, reqs) = wm.handle_event(Event::ConfigureRequest(ev));
    assert!(cont);
    assert_eq!(reqs, vec![below(0x500, 0, 0, 800, 600)]);
    let (resp, _) = handle_request(&mut wm, Request::ListHiddenWindows);
    assert_eq!(resp, Response::HiddenWindows(vec![info(0x500, 0, 0, 800, 600)]));
}

#[test]
fn scenario_unmap_reaps_overlays() {
    let mut wm = engine();
    scenario_one(&mut wm);
    scenario_two(&mut wm);
    scenario_three(&mut wm);
    let (cont, reqs) = wm.handle_event(Event::UnmapNotify(1024));
    assert!(cont);
    assert!(reqs.is_empty());
    assert!(wm.visible_records().is_empty());
    assert!(wm.hidden_records().is_empty());
    // mapped again, the window comes back without its old geometry
    map(&mut wm, 1024);
    let (resp, _) = handle_request(&mut wm, Request::ListHiddenWindows);
    assert_eq!(resp, Response::HiddenWindows(vec![info(1024, 0, 0, 0, 0)]));
}

#[test]
fn configure_request_with_width_only_records_nothing() {
    let mut wm = engine();
    map(&mut wm, 0x600);
    let ev = ConfigureRequestEvent {
        window: 0x600,
        value_mask: CONFIG_WIDTH,
        x: 3,
        y: 4,
        width: 500,
        height: 400,
    };
    let (cont, reqs) = wm.handle_event(Event::ConfigureRequest(ev));
    assert!(cont);
    assert_eq!(
        reqs,
        vec![X11Request::Configure(ConfigureWindow {
            window: 0x600,
            x: None,
            y: None,
            width: Some(500),
            height: None,
            stack_mode: StackMode::Below,
        })]
    );
    let (resp, _) = handle_request(&mut wm, Request::ListHiddenWindows);
    assert_eq!(resp, Response::HiddenWindows(vec![info(0x600, 0, 0, 0, 0)]));
}

#[test]
fn configure_request_with_position_only() {
    let mut wm = engine();
    map(&mut wm, 0x700);
    let ev = ConfigureRequestEvent {
        window: 0x700,
        value_mask: CONFIG_X | CONFIG_Y | CONFIG_HEIGHT,
        x: -20,
        y: 15,
        width: 1,
        height: 2,
    };
    wm.handle_event(Event::ConfigureRequest(ev));
    let (resp, _) = handle_request(&mut wm, Request::ListHiddenWindows);
    assert_eq!(resp, Response::HiddenWindows(vec![info(0x700, -20, 15, 0, 0)]));
}

#[test]
fn configure_request_of_unmanaged_window_is_forwarded_only() {
    let mut wm = engine();
    let ev = ConfigureRequestEvent {
        window: 0x800,
        value_mask: CONFIG_X | CONFIG_Y | CONFIG_WIDTH | CONFIG_HEIGHT,
        x: 1,
        y: 2,
        width: 3,
        height: 4,
    };
    let (_, reqs) = wm.handle_event(Event::ConfigureRequest(ev));
    assert_eq!(reqs, vec![below(0x800, 1, 2, 3, 4)]);
    // no overlay is kept for a window the engine does not manage
    map(&mut wm, 0x800);
    let (resp, _) = handle_request(&mut wm, Request::ListHiddenWindows);
    assert_eq!(resp, Response::HiddenWindows(vec![info(0x800, 0, 0, 0, 0)]));
}

#[test]
fn visibility_to_current_state_changes_nothing() {
    let mut wm = engine();
    map(&mut wm, 1);
    map(&mut wm, 2);
    promote(&mut wm, 2);
    let before_visible = wm.visible_records();
    let before_hidden = wm.hidden_records();
    let (resp, _) = handle_request(
        &mut wm,
        Request::ChangeVisibility(vec![
            WinVisbilty { id: 1, visible: false },
            WinVisbilty { id: 2, visible: true },
        ]),
    );
    assert_eq!(resp, Response::VisibiltyChanged(vec![]));
    assert_eq!(wm.visible_records(), before_visible);
    assert_eq!(wm.hidden_records(), before_hidden);
}

#[test]
fn visibility_change_updates_time() {
    let mut wm = engine();
    map(&mut wm, 1);
    let before = wm.hidden_records()[0];
    promote(&mut wm, 1);
    let after = wm.visible_records()[0];
    assert_eq!(after.discovery_time, before.discovery_time);
    assert!(after.last_update_time > before.last_update_time);
    let (resp, _) = handle_request(
        &mut wm,
        Request::ChangeVisibility(vec![WinVisbilty { id: 1, visible: false }]),
    );
    assert_eq!(resp, Response::VisibiltyChanged(vec![1]));
    assert_eq!(wm.hidden_records()[0].id, 1);
}

#[test]
fn zindex_to_current_value_changes_nothing() {
    let mut wm = engine();
    map(&mut wm, 1);
    map(&mut wm, 2);
    promote(&mut wm, 2);
    handle_request(&mut wm, Request::ChangeZIndex(vec![WinZIndex { id: 2, zindex: 4 }]));
    let before_visible = wm.visible_records();
    let (resp, _) = handle_request(
        &mut wm,
        Request::ChangeZIndex(vec![
            WinZIndex { id: 1, zindex: 0 },
            WinZIndex { id: 2, zindex: 4 },
        ]),
    );
    assert_eq!(resp, Response::ZIndexChanged(vec![]));
    assert_eq!(wm.visible_records(), before_visible);
}

#[test]
fn zindex_of_unknown_window_is_ignored() {
    let mut wm = engine();
    let (resp, _) = handle_request(
        &mut wm,
        Request::ChangeZIndex(vec![WinZIndex { id: 42, zindex: 9 }]),
    );
    assert_eq!(resp, Response::ZIndexChanged(vec![]));
    assert!(!wm.set_zindex(42, 1));
}

#[test]
fn second_listing_of_new_windows_is_empty() {
    let mut wm = engine();
    map(&mut wm, 5);
    map(&mut wm, 6);
    assert_eq!(wm.check_new().len(), 2);
    assert!(wm.check_new().is_empty());
    // a later discovery is new again
    map(&mut wm, 7);
    assert_eq!(wm.check_new(), vec![info(7, 0, 0, 0, 0)]);
}

#[test]
fn new_windows_are_listed_by_zindex_descending() {
    let mut wm = engine();
    for id in [11, 12, 13, 14] {
        map(&mut wm, id);
    }
    handle_request(
        &mut wm,
        Request::ChangeZIndex(vec![
            WinZIndex { id: 11, zindex: 1 },
            WinZIndex { id: 12, zindex: 7 },
            WinZIndex { id: 13, zindex: 1 },
            WinZIndex { id: 14, zindex: 3 },
        ]),
    );
    let (resp, _) = handle_request(&mut wm, Request::ListNewWindows);
    assert_eq!(
        resp,
        Response::NewWindows(vec![
            info(12, 0, 0, 0, 0),
            info(14, 0, 0, 0, 0),
            info(11, 0, 0, 0, 0),
            info(13, 0, 0, 0, 0),
        ])
    );
}

#[test]
fn new_windows_exclude_visible_ones() {
    let mut wm = engine();
    map(&mut wm, 1);
    map(&mut wm, 2);
    promote(&mut wm, 1);
    assert_eq!(wm.check_new(), vec![info(2, 0, 0, 0, 0)]);
}

#[test]
fn focus_on_hidden_window_is_refused() {
    let mut wm = engine();
    map(&mut wm, 0x900);
    let (resp, reqs) = handle_request(&mut wm, Request::FocusWindow(0x900));
    assert_eq!(resp, Response::WindowFocused(false));
    assert!(reqs.is_empty());
    assert!(!wm.focus_window(0x900));
}

#[test]
fn virtual_root_is_never_managed() {
    let mut wm = engine();
    map(&mut wm, VROOT);
    assert!(wm.hidden_records().is_empty());
    assert!(wm.check_new().is_empty());
    assert_eq!(wm.virtual_root(), VROOT);
}

#[test]
fn map_request_of_managed_window_keeps_its_record() {
    let mut wm = engine();
    map(&mut wm, 3);
    promote(&mut wm, 3);
    map(&mut wm, 3);
    assert_eq!(wm.visible_records().len(), 1);
    assert!(wm.hidden_records().is_empty());
}

#[test]
fn overlays_of_unknown_windows_are_not_kept() {
    let mut wm = engine();
    handle_request(&mut wm, Request::MoveWindows(vec![WinMove { id: 77, x: 1, y: 1 }]));
    handle_request(
        &mut wm,
        Request::ResizeWindows(vec![WinResize { id: 77, width: 10, height: 10 }]),
    );
    map(&mut wm, 77);
    let (resp, _) = handle_request(&mut wm, Request::ListHiddenWindows);
    assert_eq!(resp, Response::HiddenWindows(vec![info(77, 0, 0, 0, 0)]));
}

#[test]
fn later_move_overrides_earlier_one() {
    let mut wm = engine();
    map(&mut wm, 4);
    handle_request(
        &mut wm,
        Request::MoveWindows(vec![WinMove { id: 4, x: 1, y: 2 }, WinMove { id: 4, x: 30, y: 40 }]),
    );
    let (resp, _) = handle_request(&mut wm, Request::ListHiddenWindows);
    assert_eq!(resp, Response::HiddenWindows(vec![info(4, 30, 40, 0, 0)]));
}

#[test]
fn wake_message_stops_blocking() {
    let mut wm = engine();
    assert_eq!(wm.handle_event(Event::ClientMessage(ATOM)), (false, vec![]));
    assert_eq!(wm.handle_event(Event::ClientMessage(ATOM + 1)), (true, vec![]));
    assert_eq!(wm.handle_event(Event::Other), (true, vec![]));
    let waker = wm.create_waker(0x1e3);
    assert_eq!(waker.window, 0x1e3);
    assert_eq!(waker.atom, ATOM);
}

#[test]
fn loop_blocks_until_wake_then_answers_one_request() {
    let mut wm = engine();
    let out = run(&mut wm, LoopInput::X11Event(Event::MapRequest(0x400)));
    assert_eq!(out.next, Step::WaitForEvent);
    assert_eq!(out.x11, vec![X11Request::MapWindow(0x400)]);
    assert_eq!(out.response, None);
    let out = run(&mut wm, LoopInput::X11Event(Event::ClientMessage(ATOM)));
    assert_eq!(out.next, Step::TakeRequest);
    assert!(out.x11.is_empty());
    let out = run(&mut wm, LoopInput::Request(Request::ListNewWindows));
    assert_eq!(out.next, Step::WaitForEvent);
    assert_eq!(out.response, Some(Response::NewWindows(vec![info(0x400, 0, 0, 0, 0)])));
    let out = run(&mut wm, LoopInput::NoRequest);
    assert_eq!(out.next, Step::WaitForEvent);
    assert!(out.x11.is_empty());
    assert_eq!(out.response, None);
}

#[test]
fn loop_answers_focus_with_focus_requests() {
    let mut wm = engine();
    run(&mut wm, LoopInput::X11Event(Event::MapRequest(5)));
    run(
        &mut wm,
        LoopInput::Request(Request::ChangeVisibility(vec![WinVisbilty { id: 5, visible: true }])),
    );
    let out = run(&mut wm, LoopInput::Request(Request::FocusWindow(5)));
    assert_eq!(out.next, Step::WaitForEvent);
    assert_eq!(out.x11, vec![X11Request::SetInputFocus(5), X11Request::Flush]);
    assert_eq!(out.response, Some(Response::WindowFocused(true)));
}
