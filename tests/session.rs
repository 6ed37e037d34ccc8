use foam::button::Button;
use foam::render::{clear_canvas, plan_frame, DrawError, FrameGeometry, RenderStep};
use foam::session::{button_grid, Action, AppDate, Event, Foam, PointerEvent, PointerKind, Status, EXIT_KEY};

fn panel() -> Foam {
    Foam::new(AppDate {}, 200, 200, 200, 200)
}

fn press_at(x: i32, y: i32) -> PointerEvent {
    PointerEvent { on_surface: true, x: x * 256, y: y * 256, kind: PointerKind::Press }
}

fn colors(f: &Foam) -> Vec<[u8; 4]> {
    f.buttons.iter().map(|b: &Button| b.color()).collect()
}

#[test]
fn grid_of_200_has_four_quadrants() {
    let bs = button_grid(200, 200, 200, 200);
    let rects: Vec<(i32, i32, i32, i32)> = bs.iter().map(|b| b.rect()).collect();
    assert_eq!(
        rects,
        vec![(0, 0, 100, 100), (100, 0, 100, 100), (0, 100, 100, 100), (100, 100, 100, 100)]
    );
    let names: Vec<&str> = bs.iter().map(|b| b.name.as_str()).collect();
    assert_eq!(names, vec!["left_top", "right_top", "left_bottom", "right_bottom"]);
}

#[test]
fn grid_is_centred_on_larger_surface() {
    let bs = button_grid(300, 260, 200, 100);
    let rects: Vec<(i32, i32, i32, i32)> = bs.iter().map(|b| b.rect()).collect();
    assert_eq!(rects, vec![(50, 80, 100, 50), (150, 80, 100, 50), (50, 130, 100, 50), (150, 130, 100, 50)]);
}

#[test]
fn new_session_waits_for_first_configure() {
    let f = panel();
    assert!(f.first_configure);
    assert!(!f.exit);
    assert_eq!(f.status, Status::RUNNING);
    assert_eq!(f.next_action, None);
    assert_eq!(f.scale_factor, 1);
    assert_eq!(f.position, (0, 0));
    assert_eq!(
        colors(&f),
        vec![[0xD7, 0x78, 0x00, 0xFF], [0xF2, 0xBC, 0x00, 0xFF], [0x00, 0xBA, 0x7F, 0xFF], [0x22, 0x50, 0xF2, 0xFF]]
    );
}

#[test]
fn press_toggles_first_button_and_back() {
    let mut f = panel();
    let before = colors(&f);
    f.pointer_event(press_at(50, 50));
    assert_eq!(f.buttons[0].color(), [0x00, 0x00, 0x00, 0xFF]);
    assert_eq!(f.status, Status::CHANGE);
    assert_eq!(colors(&f)[1..], before[1..]);
    assert!(f.frame());
    assert_eq!(f.status, Status::RUNNING);
    f.pointer_event(press_at(50, 50));
    assert_eq!(colors(&f), before);
    assert_eq!(f.status, Status::CHANGE);
}

#[test]
fn press_on_shared_edge_hits_first_registered() {
    let mut f = panel();
    f.press(100 * 256, 50 * 256);
    assert_eq!(f.buttons[0].color(), [0x00, 0x00, 0x00, 0xFF]);
    assert_eq!(f.buttons[1].color(), [0xF2, 0xBC, 0x00, 0xFF]);
}

#[test]
fn press_outside_every_button_changes_nothing() {
    let mut f = panel();
    let before = colors(&f);
    f.pointer_event(press_at(250, 10));
    assert_eq!(colors(&f), before);
    assert_eq!(f.status, Status::RUNNING);
    assert_eq!(f.position, (250 * 256, 10 * 256));
}

#[test]
fn events_on_other_surfaces_are_ignored() {
    let mut f = panel();
    let before = colors(&f);
    let ev = PointerEvent { on_surface: false, x: 50 * 256, y: 50 * 256, kind: PointerKind::Press };
    f.pointer_event(ev);
    assert_eq!(colors(&f), before);
    assert_eq!(f.position, (0, 0));
    assert_eq!(f.status, Status::RUNNING);
}

#[test]
fn motion_moves_pointer_only() {
    let mut f = panel();
    let ev = PointerEvent { on_surface: true, x: 300, y: 700, kind: PointerKind::Motion };
    f.pointer_event(ev);
    assert_eq!(f.position, (300, 700));
    assert_eq!(f.status, Status::RUNNING);
}

#[test]
fn pointer_frame_handles_events_in_order() {
    let mut f = panel();
    let evs = vec![
        PointerEvent { on_surface: true, x: 10, y: 10, kind: PointerKind::Enter },
        press_at(150, 150),
        PointerEvent { on_surface: false, x: 0, y: 0, kind: PointerKind::Motion },
        press_at(150, 50),
    ];
    f.pointer_frame(&evs);
    assert_eq!(f.buttons[3].color(), [0x00, 0x00, 0x00, 0xFF]);
    assert_eq!(f.buttons[1].color(), [0x00, 0x00, 0x00, 0xFF]);
    assert_eq!(f.buttons[0].color(), [0xD7, 0x78, 0x00, 0xFF]);
    assert_eq!(f.position, (150 * 256, 50 * 256));
}

#[test]
fn first_configure_draws_once() {
    let mut f = panel();
    assert!(f.configure());
    assert!(!f.first_configure);
    assert!(!f.configure());
    assert!(!f.handle(Event::Configure));
    assert!(!f.handle(Event::Pointer(press_at(50, 50))));
    assert!(!f.first_configure);
}

#[test]
fn frame_draws_only_when_owed() {
    let mut f = panel();
    assert!(f.handle(Event::Configure));
    assert!(!f.handle(Event::Frame));
    assert!(!f.handle(Event::Frame));
    f.handle(Event::Pointer(press_at(150, 150)));
    assert!(f.handle(Event::Frame));
    assert!(!f.handle(Event::Frame));
}

#[test]
fn scale_change_owes_a_draw() {
    let mut f = panel();
    f.scale_factor_changed(2);
    assert_eq!(f.scale_factor, 2);
    assert_eq!(f.status, Status::CHANGE);
    assert!(!f.handle(Event::ScaleChanged(0)));
    assert_eq!(f.scale_factor, 2);
}

#[test]
fn exit_key_stops_the_loop() {
    let mut f = panel();
    assert!(!f.dispatched());
    f.press_key(EXIT_KEY);
    assert_eq!(f.next_action, Some(Action::EXIT));
    assert!(f.dispatched());
    assert!(f.exit);
    assert_eq!(f.next_action, None);
}

#[test]
fn other_keys_are_ignored() {
    let mut f = panel();
    f.handle(Event::Key(2));
    assert_eq!(f.next_action, None);
    assert!(!f.dispatched());
    assert!(!f.exit);
}

#[test]
fn color_action_does_not_stop() {
    let mut f = panel();
    f.next_action = Some(Action::COLOR);
    assert!(!f.dispatched());
    assert_eq!(f.next_action, None);
}

#[test]
fn closed_surface_stops_the_loop() {
    let mut f = panel();
    f.handle(Event::Closed);
    assert!(f.dispatched());
}

#[test]
fn geometry_scales_logical_size() {
    let mut f = panel();
    assert_eq!(f.frame_geometry(), Ok(FrameGeometry { width: 200, height: 200, stride: 800 }));
    f.scale_factor_changed(3);
    assert_eq!(f.frame_geometry(), Ok(FrameGeometry { width: 600, height: 600, stride: 2400 }));
}

#[test]
fn oversized_geometry_is_allocation_error() {
    let mut f = Foam::new(AppDate {}, 40000, 40000, 200, 200);
    assert_eq!(f.frame_geometry(), Err(DrawError::Allocation));
    f = Foam::new(AppDate {}, 0, 4_000_000_000u32 / 2, 0, 0);
    assert_eq!(f.frame_geometry(), Ok(FrameGeometry { width: 0, height: 2_000_000_000, stride: 0 }));
    f.scale_factor_changed(2);
    assert_eq!(f.frame_geometry(), Err(DrawError::Allocation));
}

#[test]
fn fallback_frame_is_still_submitted() {
    assert_eq!(plan_frame(false), vec![RenderStep::Clear, RenderStep::Fallback, RenderStep::Submit]);
}

#[test]
fn full_frame_order() {
    assert_eq!(
        plan_frame(true),
        vec![RenderStep::Clear, RenderStep::Image, RenderStep::Caption, RenderStep::Buttons, RenderStep::Submit]
    );
}

#[test]
fn clear_zeroes_every_byte() {
    let mut c = vec![9u8; 13];
    clear_canvas(&mut c);
    assert_eq!(c, vec![0u8; 13]);
}

#[test]
fn paint_buttons_fills_the_grid() {
    let mut f = Foam::new(AppDate {}, 4, 2, 4, 2);
    f.press(0, 0);
    let g = f.frame_geometry().unwrap();
    let mut c = vec![1u8; (g.stride * g.height) as usize];
    f.paint_buttons(&mut c, g.stride);
    let px = |x: usize, y: usize| -> [u8; 4] {
        let o = y * 16 + x * 4;
        [c[o], c[o + 1], c[o + 2], c[o + 3]]
    };
    assert_eq!(px(0, 0), [0x00, 0x00, 0x00, 0xFF]);
    assert_eq!(px(1, 0), [0x00, 0x00, 0x00, 0xFF]);
    assert_eq!(px(2, 0), [0xF2, 0xBC, 0x00, 0xFF]);
    assert_eq!(px(0, 1), [0x00, 0xBA, 0x7F, 0xFF]);
    assert_eq!(px(3, 1), [0x22, 0x50, 0xF2, 0xFF]);
}

#[test]
fn exit_request_survives_other_events() {
    let mut f = panel();
    f.handle(Event::Key(EXIT_KEY));
    f.handle(Event::Key(30));
    f.handle(Event::Pointer(press_at(10, 10)));
    assert!(f.handle(Event::Configure));
    assert_eq!(f.next_action, Some(Action::EXIT));
    assert!(f.dispatched());
}
