use inm::incus::{Vm, VmId};
use inm::manager::keys::{shortcut_for, Shortcut};
use inm::manager::tabs::Frame;
use inm::manager::{Command, Focus, IncusManager, Keystroke, Modifiers};
use inm::scancode::HostLayout;
use inm::spice_session::InputEvent;

const NONE: Modifiers = Modifiers { control: false, alt: false, shift: false, platform: false };
const CMD: Modifiers = Modifiers { control: false, alt: false, shift: false, platform: true };

fn id(project: &str, name: &str) -> VmId {
    VmId { project: project.to_string(), name: name.to_string() }
}

fn key(name: &str, modifiers: Modifiers) -> Keystroke {
    Keystroke { modifiers, key: name.to_string(), key_char: None }
}

fn idle() -> IncusManager {
    IncusManager::new(HostLayout::Qwerty, Vec::new(), "local".to_string())
}

fn with_console() -> IncusManager {
    let mut m = idle();
    m.open_or_focus(id("p", "a"));
    m.console_started(id("p", "a"));
    m
}

#[test]
fn modifiers_are_mirrored() {
    let mut m = with_console();
    let all = Modifiers { control: true, alt: true, shift: true, platform: true };
    assert_eq!(
        m.sync_modifiers(all),
        vec![InputEvent::KeyPress(0x1D), InputEvent::KeyPress(0x38), InputEvent::KeyPress(0x2A)]
    );
    assert_eq!(m.sync_modifiers(all), vec![]);
    assert_eq!(
        m.sync_modifiers(Modifiers { alt: true, ..NONE }),
        vec![InputEvent::KeyRelease(0x1D), InputEvent::KeyRelease(0x2A)]
    );
    assert_eq!(m.sync_modifiers(NONE), vec![InputEvent::KeyRelease(0x38)]);
}

#[test]
fn cmd_is_not_sent_but_repaints() {
    let mut m = with_console();
    let (reaction, events) = m.modifiers_changed(CMD, false);
    assert!(reaction.repaint);
    assert_eq!(events, vec![]);
    let (reaction, events) = m.modifiers_changed(CMD, false);
    assert!(!reaction.repaint);
    assert_eq!(events, vec![]);
}

#[test]
fn caps_lock_is_tapped() {
    let mut m = with_console();
    let tap = vec![InputEvent::KeyPress(0x3A), InputEvent::KeyRelease(0x3A)];
    assert_eq!(m.sync_capslock(true), tap);
    assert_eq!(m.sync_capslock(true), vec![]);
    assert_eq!(m.modifiers_changed(NONE, false).1, tap);
}

#[test]
fn input_without_a_console_goes_nowhere() {
    let mut m = idle();
    assert_eq!(m.sync_modifiers(Modifiers { shift: true, ..NONE }), vec![]);
    assert!(m.held_modifiers.shift);
    assert_eq!(m.sync_capslock(true), vec![]);
    assert_eq!(m.send_ctrl_alt_del(), vec![]);
    assert_eq!(m.send_mouse_button(1, true), vec![]);
    assert_eq!(m.send_mouse_scroll(3), vec![]);
    assert_eq!(m.send_mouse_motion(1, 1), vec![]);
    assert_eq!(m.key_down(&key("a", NONE)).1, vec![]);
}

#[test]
fn ctrl_alt_del_goes_down_and_up() {
    assert_eq!(
        with_console().send_ctrl_alt_del(),
        vec![
            InputEvent::KeyPress(0x1D),
            InputEvent::KeyPress(0x38),
            InputEvent::KeyPress(0xE053),
            InputEvent::KeyRelease(0xE053),
            InputEvent::KeyRelease(0x38),
            InputEvent::KeyRelease(0x1D),
        ]
    );
}

#[test]
fn motion_needs_a_screen_and_stays_on_it() {
    let mut m = with_console();
    assert_eq!(m.send_mouse_motion(0, 0), vec![]);
    m.frame_arrived(0, &id("p", "a"), Frame { key: 1, width: 1280, height: 800 });
    assert_eq!(m.send_mouse_motion(0, 0), vec![InputEvent::MouseMotion { x: 0, y: 0 }]);
    assert_eq!(m.send_mouse_motion(1279, 799), vec![InputEvent::MouseMotion { x: 1279, y: 799 }]);
    assert_eq!(m.send_mouse_motion(1280, 0), vec![]);
    assert_eq!(m.send_mouse_motion(0, 800), vec![]);
    assert_eq!(m.send_mouse_motion(-1, 0), vec![]);
    assert_eq!(m.send_mouse_motion(0, -1), vec![]);
}

#[test]
fn the_wheel_clicks_and_is_capped() {
    let m = with_console();
    assert_eq!(m.send_mouse_scroll(2), vec![InputEvent::MouseScroll { button: 4 }; 2]);
    assert_eq!(m.send_mouse_scroll(-3), vec![InputEvent::MouseScroll { button: 5 }; 3]);
    assert_eq!(m.send_mouse_scroll(0), vec![]);
    assert_eq!(m.send_mouse_scroll(1000), vec![InputEvent::MouseScroll { button: 4 }; 10]);
    assert_eq!(m.send_mouse_scroll(i64::MIN), vec![InputEvent::MouseScroll { button: 5 }; 10]);
    assert_eq!(
        m.send_mouse_button(3, true),
        vec![InputEvent::MouseButton { button: 3, pressed: true }]
    );
}

#[test]
fn ordinary_keys_go_to_the_guest_and_back_up() {
    let mut m = with_console();
    let (reaction, events) = m.key_down(&key("a", NONE));
    assert!(!reaction.repaint);
    assert_eq!(events, vec![InputEvent::KeyPress(0x1E)]);
    // Cmd was tapped meanwhile: the release is still owed.
    m.modifiers_changed(CMD, false);
    assert_eq!(m.key_up(&key("a", CMD)), vec![InputEvent::KeyRelease(0x1E)]);
    assert_eq!(m.key_down(&key("no such key", NONE)).1, vec![]);
}

#[test]
fn keys_with_cmd_stay_with_the_window() {
    let mut m = with_console();
    assert_eq!(m.key_down(&key("x", CMD)).1, vec![]);
    assert_eq!(m.key_down(&key("x", CMD)).1, vec![]);
    assert_eq!(m.consumed_keys, vec!["x".to_string()]);
    // Cmd is let go first.
    assert_eq!(m.key_up(&key("x", NONE)), vec![]);
    assert!(m.consumed_keys.is_empty());
    assert_eq!(m.key_up(&key("x", NONE)), vec![InputEvent::KeyRelease(0x2D)]);
}

#[test]
fn escape_closes_what_is_on_top_before_it_reaches_the_guest() {
    let mut m = with_console();
    m.show_details(id("p", "a"));
    m.open_context_menu(id("p", "a"));
    let (reaction, events) = m.key_down(&key("escape", NONE));
    assert!(reaction.repaint && reaction.focus.is_none());
    assert_eq!(events, vec![]);
    assert!(m.context_menu.is_none() && m.details.is_some());
    let (reaction, events) = m.key_down(&key("escape", NONE));
    assert_eq!(reaction.focus, Some(Focus::Console));
    assert_eq!(events, vec![]);
    assert!(m.details.is_none());
    // The release of what closed them is kept from the guest as well.
    assert_eq!(m.key_up(&key("escape", NONE)), vec![]);
    assert_eq!(m.key_down(&key("escape", NONE)).1, vec![InputEvent::KeyPress(0x01)]);
    assert_eq!(m.key_up(&key("escape", NONE)), vec![InputEvent::KeyRelease(0x01)]);
}

#[test]
fn shifted_keys_are_told_from_the_numpad_by_the_held_shift() {
    let mut m = with_console();
    assert_eq!(m.key_down(&key("+", NONE)).1, vec![InputEvent::KeyPress(0x4E)]);
    m.sync_modifiers(Modifiers { shift: true, ..NONE });
    assert_eq!(m.key_down(&key("+", NONE)).1, vec![InputEvent::KeyPress(0x0D)]);
}

#[test]
fn shortcuts_of_the_keys() {
    assert_eq!(shortcut_for("w"), Some(Shortcut::CloseTab));
    assert_eq!(shortcut_for("1"), Some(Shortcut::ShowTab(0)));
    assert_eq!(shortcut_for("9"), Some(Shortcut::ShowTab(8)));
    assert_eq!(shortcut_for("0"), None);
    assert_eq!(shortcut_for("12"), None);
    assert_eq!(shortcut_for("x"), None);
}

#[test]
fn shortcuts_do_what_they_say() {
    let mut m = with_console();
    assert!(m.handle_shortcut(&key("b", NONE)).is_none());
    assert!(m.handle_shortcut(&key("x", CMD)).is_none());
    assert!(m.handle_shortcut(&key("b", CMD)).unwrap().repaint);
    assert!(!m.sidebar_visible);
    let search = m.handle_shortcut(&key("f", CMD)).unwrap();
    assert_eq!(search.focus, Some(Focus::Filter));
    assert!(m.sidebar_visible);
    assert!(matches!(
        m.handle_shortcut(&key("r", CMD)).unwrap().command,
        Some(Command::Refresh)
    ));
    assert_eq!(m.handle_shortcut(&key("p", CMD)).unwrap().focus, Some(Focus::Palette));
    assert!(m.palette.is_some());
    assert!(!m.handle_shortcut(&key("2", CMD)).unwrap().repaint);
    assert_eq!(m.handle_shortcut(&key("1", CMD)).unwrap().focus, Some(Focus::Console));
    let close = m.handle_shortcut(&key("w", CMD)).unwrap();
    assert!(matches!(close.command, Some(Command::EndConsole(ended)) if ended == id("p", "a")));
    assert!(m.tabs.is_empty() && m.active.is_none());
    assert!(!m.handle_shortcut(&key("w", CMD)).unwrap().repaint);
}

#[test]
fn keys_that_close_a_dialog_are_not_released_in_the_guest() {
    let mut m = with_console();
    m.begin_rename(id("p", "a"));
    m.handle_rename_key(&key("x", NONE));
    m.handle_rename_key(&key("escape", NONE));
    assert_eq!(m.key_up(&key("escape", NONE)), vec![]);
    assert_eq!(m.key_up(&key("x", NONE)), vec![]);
    m.begin_rename(id("p", "a"));
    m.handle_rename_key(&key("enter", NONE));
    assert_eq!(m.key_up(&key("enter", NONE)), vec![]);
    m.open_palette();
    m.handle_palette_key(&key("escape", NONE));
    assert_eq!(m.key_up(&key("escape", NONE)), vec![]);
    m.set_vms(vec![Vm {
        id: id("p", "a"),
        status: "Running".to_string(),
        location: String::new(),
    }]);
    m.open_palette();
    m.handle_palette_key(&key("enter", NONE));
    assert_eq!(m.key_up(&key("enter", NONE)), vec![]);
    m.handle_filter_key(&key("y", NONE));
    assert_eq!(m.key_up(&key("y", NONE)), vec![]);
    assert!(m.consumed_keys.is_empty());
}

#[test]
fn a_press_that_is_sent_is_released_though_an_earlier_one_was_kept() {
    let mut m = with_console();
    // The release of this P goes to the palette.
    m.key_down(&key("p", CMD));
    m.handle_palette_key(&key("escape", NONE));
    assert_eq!(m.key_down(&key("p", NONE)).1, vec![InputEvent::KeyPress(0x19)]);
    m.modifiers_changed(CMD, false);
    m.modifiers_changed(NONE, false);
    assert_eq!(m.key_up(&key("p", NONE)), vec![InputEvent::KeyRelease(0x19)]);
}

#[test]
fn a_click_lands_where_the_pointer_is() {
    let mut m = with_console();
    m.frame_arrived(0, &id("p", "a"), Frame { key: 1, width: 100, height: 100 });
    let motion = InputEvent::MouseMotion { x: 3, y: 4 };
    assert_eq!(m.mouse_moved(Some((3, 4))), vec![motion]);
    assert_eq!(m.mouse_moved(None), vec![]);
    let (reaction, events) = m.mouse_pressed(Some((3, 4)), 1);
    assert_eq!(reaction.focus, Some(Focus::Console));
    assert!(!reaction.repaint);
    assert_eq!(events, vec![motion, InputEvent::MouseButton { button: 1, pressed: true }]);
    let (reaction, events) = m.mouse_pressed(Some((100, 4)), 3);
    assert!(reaction.focus.is_none());
    assert_eq!(events, vec![InputEvent::MouseButton { button: 3, pressed: true }]);
    assert_eq!(
        m.mouse_scrolled(Some((3, 4)), -1),
        vec![motion, InputEvent::MouseScroll { button: 5 }]
    );
    assert_eq!(m.mouse_scrolled(None, 1), vec![InputEvent::MouseScroll { button: 4 }]);
}

#[test]
fn a_repetition_with_cmd_hides_no_release() {
    let mut m = with_console();
    assert_eq!(m.key_down(&key("a", NONE)).1, vec![InputEvent::KeyPress(0x1E)]);
    assert_eq!(m.key_down(&key("a", NONE)).1, vec![InputEvent::KeyPress(0x1E)]);
    assert_eq!(m.key_down(&key("a", CMD)).1, vec![]);
    assert_eq!(m.key_up(&key("a", CMD)), vec![InputEvent::KeyRelease(0x1E)]);
    assert!(m.consumed_keys.is_empty() && m.guest_keys.is_empty());
}

#[test]
fn a_key_is_released_with_the_code_it_was_pressed_with() {
    let mut m = with_console();
    assert_eq!(m.key_down(&key("+", NONE)).1, vec![InputEvent::KeyPress(0x4E)]);
    m.sync_modifiers(Modifiers { shift: true, ..NONE });
    assert_eq!(m.key_up(&key("+", NONE)), vec![InputEvent::KeyRelease(0x4E)]);
}

#[test]
fn a_key_is_down_in_its_own_console_only() {
    let mut m = with_console();
    m.key_down(&key("a", NONE));
    m.open_or_focus(id("p", "b"));
    m.console_started(id("p", "b"));
    m.key_down(&key("a", CMD));
    assert_eq!(m.key_up(&key("a", NONE)), vec![]);
    m.set_active(Some(id("p", "a")));
    assert_eq!(m.key_up(&key("a", NONE)), vec![InputEvent::KeyRelease(0x1E)]);
    assert!(m.guest_keys.is_empty());
}
