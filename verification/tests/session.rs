use inm::spice_session::{
    coalesce, open_failure, primary_to_image, session_ready, socket_name, tunnel_step,
    ConsoleHandle, Delivery, GuestCall, InputEvent, Pointer, StartError, SurfaceFormat, Tick,
    TunnelEvent, TunnelStep, MOUSE_MODE_CLIENT, MOUSE_MODE_SERVER,
};

fn motion(x: i32, y: i32) -> InputEvent {
    InputEvent::MouseMotion { x, y }
}

fn press(button: i32) -> InputEvent {
    InputEvent::MouseButton { button, pressed: true }
}

fn release(button: i32) -> InputEvent {
    InputEvent::MouseButton { button, pressed: false }
}

#[test]
fn runs_of_motion_collapse_and_clicks_stay_where_they_were() {
    let events = vec![
        motion(1, 1),
        motion(2, 2),
        press(1),
        motion(3, 3),
        motion(4, 4),
        release(1),
        InputEvent::KeyPress(0x1E),
        motion(5, 5),
    ];
    assert_eq!(
        coalesce(&events),
        vec![
            motion(2, 2),
            press(1),
            motion(4, 4),
            release(1),
            InputEvent::KeyPress(0x1E),
            motion(5, 5),
        ]
    );
    assert_eq!(coalesce(&Vec::new()), Vec::<InputEvent>::new());
}

#[test]
fn an_absolute_pointer_takes_positions() {
    let mut p = Pointer::new();
    assert_eq!(
        p.apply(motion(10, 20), true),
        vec![GuestCall::Position { x: 10, y: 20, buttons: 0 }]
    );
    assert_eq!(
        p.apply(motion(10, 20), true),
        vec![GuestCall::Position { x: 10, y: 20, buttons: 0 }]
    );
}

#[test]
fn a_relative_pointer_takes_the_way() {
    let mut p = Pointer::new();
    assert_eq!(p.apply(motion(10, 20), false), vec![]);
    assert_eq!(
        p.apply(motion(13, 15), false),
        vec![GuestCall::Motion { dx: 3, dy: -5, buttons: 0 }]
    );
    assert_eq!(p.apply(motion(13, 15), false), vec![]);
}

#[test]
fn a_drag_carries_the_held_buttons() {
    let mut p = Pointer::new();
    assert_eq!(p.apply(press(1), true), vec![GuestCall::ButtonPress { button: 1 }]);
    assert_eq!(p.apply(press(3), true), vec![GuestCall::ButtonPress { button: 3 }]);
    assert_eq!(
        p.apply(motion(1, 2), true),
        vec![GuestCall::Position { x: 1, y: 2, buttons: 5 }]
    );
    assert_eq!(p.apply(release(1), true), vec![GuestCall::ButtonRelease { button: 1 }]);
    assert_eq!(
        p.apply(motion(3, 2), false),
        vec![GuestCall::Motion { dx: 2, dy: 0, buttons: 4 }]
    );
}

#[test]
fn keys_and_the_wheel_pass_through() {
    let mut p = Pointer::new();
    assert_eq!(p.apply(InputEvent::KeyPress(0x1E), true), vec![GuestCall::KeyPress(0x1E)]);
    assert_eq!(p.apply(InputEvent::KeyRelease(0x1E), true), vec![GuestCall::KeyRelease(0x1E)]);
    assert_eq!(
        p.apply(InputEvent::MouseScroll { button: 4 }, true),
        vec![GuestCall::ButtonPress { button: 4 }, GuestCall::ButtonRelease { button: 4 }]
    );
}

#[test]
fn what_a_pointer_cannot_take_is_told() {
    let mut p = Pointer::new();
    assert!(p.accepts(motion(i32::MIN, 0), false));
    p.apply(motion(i32::MIN, 0), false);
    assert!(!p.accepts(motion(1, 0), false));
    assert!(p.accepts(motion(1, 0), true));
    assert!(!p.accepts(InputEvent::Shutdown, true));
}

#[test]
fn frames_are_paced_by_the_painting() {
    let mut c = ConsoleHandle::new();
    assert_eq!(c.tick(), Tick::Wait);
    c.screen_changed();
    assert_eq!(c.tick(), Tick::Build);
    assert_eq!(c.frame_sent(true), Tick::Wait);
    c.screen_changed();
    assert_eq!(c.tick(), Tick::Wait);
    c.frame_painted();
    assert_eq!(c.tick(), Tick::Build);
    assert_eq!(c.tick(), Tick::Wait);
}

#[test]
fn a_hidden_console_catches_up_when_it_is_shown() {
    let mut c = ConsoleHandle::new();
    c.set_visible(false);
    c.screen_changed();
    assert_eq!(c.tick(), Tick::Wait);
    assert_eq!(c.tick(), Tick::Wait);
    c.set_visible(true);
    assert_eq!(c.tick(), Tick::Build);
}

#[test]
fn a_frame_that_nobody_takes_ends_the_session() {
    let mut c = ConsoleHandle::new();
    assert_eq!(c.frame_sent(false), Tick::Stop);
    c.screen_changed();
    assert_eq!(c.tick(), Tick::Stop);
}

#[test]
fn a_shutdown_drops_the_rest_of_the_input() {
    let mut c = ConsoleHandle::new();
    c.send_input(motion(1, 1));
    c.send_input(motion(2, 2));
    assert_eq!(c.take_input(), Some(vec![motion(2, 2)]));
    assert_eq!(c.take_input(), Some(vec![]));
    c.send_input(InputEvent::KeyPress(1));
    c.stop();
    assert_eq!(c.take_input(), None);
    assert!(!c.alive);
    assert_eq!(c.tick(), Tick::Stop);
}

#[test]
fn the_pointer_mode_is_the_guests() {
    let mut c = ConsoleHandle::new();
    assert!(!c.absolute_pointer());
    c.set_mouse_mode(MOUSE_MODE_CLIENT);
    assert!(c.absolute_pointer());
    c.set_mouse_mode(MOUSE_MODE_SERVER);
    assert!(!c.absolute_pointer());
}

#[test]
fn frames_leave_the_gaps_out_and_are_opaque() {
    // Two rows of one pixel, six bytes apart.
    let data = [1, 2, 3, 0, 9, 9, 4, 5, 6, 7];
    assert_eq!(
        primary_to_image(SurfaceFormat::Xrgb32, 1, 2, 6, &data),
        Some(vec![1, 2, 3, 255, 4, 5, 6, 255])
    );
    assert_eq!(
        primary_to_image(SurfaceFormat::Argb32, 1, 1, 6, &data),
        Some(vec![1, 2, 3, 255])
    );
    assert_eq!(primary_to_image(SurfaceFormat::Other, 1, 1, 6, &data), None);
    assert_eq!(primary_to_image(SurfaceFormat::Xrgb32, 0, 1, 6, &data), None);
    assert_eq!(primary_to_image(SurfaceFormat::Xrgb32, 1, 0, 6, &data), None);
    assert_eq!(primary_to_image(SurfaceFormat::Xrgb32, 1, 3, 6, &data), None);
    assert_eq!(primary_to_image(SurfaceFormat::Xrgb32, usize::MAX, 1, 6, &data), None);
    assert_eq!(primary_to_image(SurfaceFormat::Xrgb32, 1, 2, usize::MAX, &data), None);
}

#[test]
fn a_taken_console_is_told_from_other_failures() {
    let taken = "This console is already connected. Force is required to take it over.";
    assert!(matches!(open_failure(taken.to_string()), StartError::AlreadyConnected));
    assert!(matches!(open_failure("x".to_string()), StartError::Message(m) if m == "x"));
    assert_eq!(StartError::AlreadyConnected.message(), "该虚拟机已有一个残留的控制台会话");
    assert_eq!(StartError::Message("m".to_string()).message(), "m");
}

#[test]
fn a_session_is_ready_by_its_own_answer() {
    assert!(session_ready(Some(Ok(()))).is_ok());
    assert!(matches!(
        session_ready(Some(Err("e".to_string()))),
        Err(StartError::Message(m)) if m == "e"
    ));
    assert!(matches!(
        session_ready(None),
        Err(StartError::Message(m)) if m == "等待 SPICE 会话建立超时"
    ));
}

#[test]
fn sockets_are_numbered() {
    assert_eq!(socket_name(4711, 0), "inm-spice-4711-0.sock");
    assert_eq!(socket_name(4711, 10), "inm-spice-4711-10.sock");
    assert_ne!(socket_name(1, 11), socket_name(11, 1));
}

#[test]
fn the_tunnel_ends_with_either_side() {
    let read = |outcome| tunnel_step(TunnelEvent::LocalRead(outcome));
    assert_eq!(read(Some(7)), TunnelStep::ToDaemon(7));
    assert_eq!(read(Some(0)), TunnelStep::End);
    assert_eq!(read(None), TunnelStep::End);
    let delivered = |delivery| tunnel_step(TunnelEvent::Delivered(delivery));
    assert_eq!(delivered(Delivery::Binary), TunnelStep::ToLocal);
    assert_eq!(delivered(Delivery::Other), TunnelStep::Skip);
    assert_eq!(delivered(Delivery::Close), TunnelStep::End);
    assert_eq!(delivered(Delivery::Failure), TunnelStep::End);
    assert_eq!(tunnel_step(TunnelEvent::DeliveriesOver), TunnelStep::End);
    assert_eq!(tunnel_step(TunnelEvent::SendFailed), TunnelStep::End);
    assert_eq!(tunnel_step(TunnelEvent::LocalWriteFailed), TunnelStep::End);
}
