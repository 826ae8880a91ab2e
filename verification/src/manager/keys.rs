//! The keyboard and the mouse: what goes to the guest, and what belongs to the
//! window itself.

use vstd::prelude::*;
use vstd::string::*;

use crate::incus::{id_of, Vm, VmId};
use crate::manager::dialogs::{dismisses, overlay_open, rename_key_does};
use crate::manager::palette::palette_key_does;
use crate::manager::sidebar::filter_key_does;
use crate::manager::tabs::{
    closes, closing_shows_the_neighbour, showing, shown_tab, tab_at_spec, tab_open, Frame,
};
use crate::manager::{
    Command, Focus, GuestKey, IncusManager, Keystroke, Modifiers, Reaction,
};
use crate::scancode::keyboard::{codes_of_control_keys, scancode, scancode_for};
use crate::scancode::mouse::{
    SPICE_BUTTON_LEFT, SPICE_BUTTON_WHEEL_DOWN, SPICE_BUTTON_WHEEL_UP,
};
use crate::scancode::{host_scancode, scancode_for_host};
use crate::spice_session::InputEvent;
use crate::text::{chars_of, decimal, listed, same, texts};

verus! {

/// Scancodes of the keys that are sent without being typed.
pub const CONTROL: u32 = 0x1D;

pub const ALT: u32 = 0x38;

pub const SHIFT: u32 = 0x2A;

pub const CAPS_LOCK: u32 = 0x3A;

pub const DELETE: u32 = 0xE053;

/// The most notches that one movement of the wheel sends, so that a flick of a
/// trackpad does not flood the guest.
pub const MOST_NOTCHES: u32 = 10;

/// Whether a console is shown. It is what input goes to; without one, input goes
/// nowhere.
pub open spec fn console_shown(m: IncusManager) -> bool {
    shown_tab(m.tabs@, id_of(m.active)) is Some
}

/// Events for the shown console, if there is one.
pub open spec fn to_console(m: IncusManager, events: Seq<InputEvent>) -> Seq<InputEvent> {
    if console_shown(m) {
        events
    } else {
        Seq::empty()
    }
}

// ---------------------------------------------------------------------------
// Modifiers
// ---------------------------------------------------------------------------

/// A key that went down, went up, or stayed as it was.
pub open spec fn transition(was: bool, now: bool, code: u32) -> Seq<InputEvent> {
    if now && !was {
        seq![InputEvent::KeyPress(code)]
    } else if !now && was {
        seq![InputEvent::KeyRelease(code)]
    } else {
        Seq::empty()
    }
}

/// What a change of the modifiers sends. Cmd is not among them: it is the
/// window's own, and a guest would take every shortcut for its Super key.
pub open spec fn modifier_events(was: Modifiers, now: Modifiers) -> Seq<InputEvent> {
    transition(was.control, now.control, CONTROL) + transition(was.alt, now.alt, ALT)
        + transition(was.shift, now.shift, SHIFT)
}

/// What a change of Caps Lock sends: one tap, as the key itself would, since the
/// guest's own lock turns with it.
pub open spec fn capslock_events(was: bool, now: bool) -> Seq<InputEvent> {
    if was == now {
        Seq::empty()
    } else {
        seq![InputEvent::KeyPress(CAPS_LOCK), InputEvent::KeyRelease(CAPS_LOCK)]
    }
}

/// The keys that are down in the guest after some events.
pub open spec fn held_after(held: Set<u32>, events: Seq<InputEvent>) -> Set<u32>
    decreases events.len(),
{
    if events.len() == 0 {
        held
    } else {
        let before = held_after(held, events.drop_last());
        match events.last() {
            InputEvent::KeyPress(code) => before.insert(code),
            InputEvent::KeyRelease(code) => before.remove(code),
            _ => before,
        }
    }
}

/// Whether the modifiers that are down in the guest are those of the host.
pub open spec fn mirrors(held: Set<u32>, modifiers: Modifiers) -> bool {
    &&& held.contains(CONTROL) == modifiers.control
    &&& held.contains(ALT) == modifiers.alt
    &&& held.contains(SHIFT) == modifiers.shift
}

proof fn held_after_transition(
    held: Set<u32>,
    events: Seq<InputEvent>,
    was: bool,
    now: bool,
    code: u32,
)
    requires
        held_after(held, events).contains(code) == was,
    ensures
        held_after(held, events + transition(was, now, code)) == (if now {
            held_after(held, events).insert(code)
        } else {
            held_after(held, events).remove(code)
        }),
{
    let before = held_after(held, events);
    let step = transition(was, now, code);
    if step.len() == 0 {
        assert(events + step =~= events);
        if now {
            assert(before.insert(code) =~= before);
        } else {
            assert(before.remove(code) =~= before);
        }
    } else {
        assert((events + step).drop_last() =~= events);
        assert((events + step).last() == step[0]);
    }
}

/// The guest's modifiers follow the host's: where they agreed before a change,
/// they agree after it, so none is ever stuck. No other key is touched.
pub proof fn modifiers_follow_the_host(held: Set<u32>, was: Modifiers, now: Modifiers)
    requires
        mirrors(held, was),
    ensures
        mirrors(held_after(held, modifier_events(was, now)), now),
        forall|code: u32|
            code != CONTROL && code != ALT && code != SHIFT ==> (held.contains(code)
                == #[trigger] held_after(held, modifier_events(was, now)).contains(code)),
{
    let none = Seq::<InputEvent>::empty();
    let a = transition(was.control, now.control, CONTROL);
    let b = transition(was.alt, now.alt, ALT);
    held_after_transition(held, none, was.control, now.control, CONTROL);
    assert(none + a =~= a);
    held_after_transition(held, a, was.alt, now.alt, ALT);
    held_after_transition(held, a + b, was.shift, now.shift, SHIFT);
}

/// Cmd is never sent to the guest: neither its own changes nor what it is held
/// with make a difference to what a change of the modifiers sends.
pub proof fn cmd_is_never_sent(was: Modifiers, now: Modifiers, a: bool, b: bool)
    ensures
        modifier_events(was, now) == modifier_events(
            Modifiers { platform: a, ..was },
            Modifiers { platform: b, ..now },
        ),
{
}

fn push_transition(events: &mut Vec<InputEvent>, was: bool, now: bool, code: u32)
    ensures
        final(events)@ == old(events)@ + transition(was, now, code),
{
    if now && !was {
        events.push(InputEvent::KeyPress(code));
    } else if !now && was {
        events.push(InputEvent::KeyRelease(code));
    }
    assert(events@ =~= old(events)@ + transition(was, now, code));
}

fn push_key_transition(events: &mut Vec<InputEvent>, was: bool, now: bool, key: &str)
    ensures
        match scancode(key@) {
            Some(code) => final(events)@ == old(events)@ + transition(was, now, code),
            None => final(events)@ == old(events)@,
        },
{
    if let Some(code) = scancode_for(key) {
        push_transition(events, was, now, code);
    }
}

impl IncusManager {
    fn has_console(&self) -> (r: bool)
        ensures
            r == console_shown(*self),
    {
        self.active_tab().is_some()
    }

    /// Takes note of the host's modifiers and carries their change over to the
    /// guest.
    pub fn sync_modifiers(&mut self, modifiers: Modifiers) -> (r: Vec<InputEvent>)
        ensures
            r@ == to_console(
                *old(self),
                modifier_events(old(self).held_modifiers, modifiers),
            ),
            *final(self) == (IncusManager { held_modifiers: modifiers, ..*old(self) }),
            old(self).wf() ==> final(self).wf(),
    {
        let before: Modifiers = self.held_modifiers;
        self.held_modifiers = modifiers;
        let mut events: Vec<InputEvent> = Vec::new();
        if !self.has_console() {
            assert(events@ =~= Seq::empty());
            return events;
        }
        proof {
            codes_of_control_keys();
        }
        push_key_transition(&mut events, before.control, modifiers.control, "control");
        push_key_transition(&mut events, before.alt, modifiers.alt, "alt");
        push_key_transition(&mut events, before.shift, modifiers.shift, "shift");
        assert(events@ =~= modifier_events(before, modifiers));
        events
    }

    /// Takes note of the host's Caps Lock and carries a change of it over to the
    /// guest.
    pub fn sync_capslock(&mut self, on: bool) -> (r: Vec<InputEvent>)
        ensures
            r@ == to_console(*old(self), capslock_events(old(self).held_capslock, on)),
            *final(self) == (IncusManager { held_capslock: on, ..*old(self) }),
            old(self).wf() ==> final(self).wf(),
    {
        let before: bool = self.held_capslock;
        self.held_capslock = on;
        let mut events: Vec<InputEvent> = Vec::new();
        if on != before && self.has_console() {
            proof {
                codes_of_control_keys();
            }
            if let Some(code) = scancode_for("capslock") {
                events.push(InputEvent::KeyPress(code));
                events.push(InputEvent::KeyRelease(code));
            }
        }
        assert(events@ =~= to_console(
            *old(self),
            capslock_events(old(self).held_capslock, on),
        ));
        events
    }

    /// The host reports a change of its modifiers. The tabs wear their numbers
    /// while Cmd is held, so a change of that is also due a repaint.
    pub fn modifiers_changed(&mut self, modifiers: Modifiers, capslock: bool) -> (r: (
        Reaction,
        Vec<InputEvent>,
    ))
        ensures
            if old(self).held_modifiers.platform != modifiers.platform {
                r.0.repaints()
            } else {
                r.0.idle()
            },
            r.1@ == to_console(
                *old(self),
                modifier_events(old(self).held_modifiers, modifiers) + capslock_events(
                    old(self).held_capslock,
                    capslock,
                ),
            ),
            *final(self) == (IncusManager {
                held_modifiers: modifiers,
                held_capslock: capslock,
                ..*old(self)
            }),
            old(self).wf() ==> final(self).wf(),
    {
        let had_cmd: bool = self.held_modifiers.platform;
        let mut events: Vec<InputEvent> = self.sync_modifiers(modifiers);
        let mut tap: Vec<InputEvent> = self.sync_capslock(capslock);
        events.append(&mut tap);
        assert(events@ =~= to_console(
            *old(self),
            modifier_events(old(self).held_modifiers, modifiers) + capslock_events(
                old(self).held_capslock,
                capslock,
            ),
        ));
        if had_cmd != modifiers.platform {
            (Reaction::repaint(), events)
        } else {
            (Reaction::none(), events)
        }
    }
}

// ---------------------------------------------------------------------------
// Ctrl+Alt+Del
// ---------------------------------------------------------------------------

/// Ctrl+Alt+Del: down in this order, up in the reverse.
pub open spec fn ctrl_alt_del() -> Seq<InputEvent> {
    seq![
        InputEvent::KeyPress(CONTROL),
        InputEvent::KeyPress(ALT),
        InputEvent::KeyPress(DELETE),
        InputEvent::KeyRelease(DELETE),
        InputEvent::KeyRelease(ALT),
        InputEvent::KeyRelease(CONTROL),
    ]
}

/// Ctrl+Alt+Del leaves none of its keys down, and every other key as it was.
pub proof fn ctrl_alt_del_lets_go(held: Set<u32>)
    ensures
        held_after(held, ctrl_alt_del()) == held.remove(CONTROL).remove(ALT).remove(DELETE),
{
    let all = ctrl_alt_del();
    assert(all.take(6) =~= all);
    assert(all.take(6).drop_last() =~= all.take(5));
    assert(all.take(5).drop_last() =~= all.take(4));
    assert(all.take(4).drop_last() =~= all.take(3));
    assert(all.take(3).drop_last() =~= all.take(2));
    assert(all.take(2).drop_last() =~= all.take(1));
    assert(all.take(1).drop_last() =~= all.take(0));
    reveal_with_fuel(held_after, 7);
    assert(held_after(held, all) =~= held.remove(CONTROL).remove(ALT).remove(DELETE));
}

impl IncusManager {
    /// Ctrl+Alt+Del, which not every keyboard of a host can type.
    pub fn send_ctrl_alt_del(&self) -> (r: Vec<InputEvent>)
        ensures
            r@ == to_console(*self, ctrl_alt_del()),
    {
        let mut events: Vec<InputEvent> = Vec::new();
        if self.has_console() {
            proof {
                codes_of_control_keys();
            }
            if let (Some(control), Some(alt), Some(delete)) = (
                scancode_for("control"),
                scancode_for("alt"),
                scancode_for("delete"),
            ) {
                events.push(InputEvent::KeyPress(control));
                events.push(InputEvent::KeyPress(alt));
                events.push(InputEvent::KeyPress(delete));
                events.push(InputEvent::KeyRelease(delete));
                events.push(InputEvent::KeyRelease(alt));
                events.push(InputEvent::KeyRelease(control));
            }
        }
        assert(events@ =~= to_console(*self, ctrl_alt_del()));
        events
    }
}

// ---------------------------------------------------------------------------
// The mouse
// ---------------------------------------------------------------------------

/// A motion to a position on the guest's screen; nothing for a position beside
/// it.
pub open spec fn motion_events(size: Option<(u32, u32)>, x: i64, y: i64) -> Seq<InputEvent> {
    match size {
        Some((width, height)) => if 0 <= x < width && 0 <= y < height {
            seq![
                InputEvent::MouseMotion {
                    x: (if x <= i32::MAX {
                        x
                    } else {
                        i32::MAX as i64
                    }) as i32,
                    y: (if y <= i32::MAX {
                        y
                    } else {
                        i32::MAX as i64
                    }) as i32,
                },
            ]
        } else {
            Seq::empty()
        },
        None => Seq::empty(),
    }
}

/// A mouse button that went down or up.
pub open spec fn button_events(button: i32, pressed: bool) -> Seq<InputEvent> {
    seq![InputEvent::MouseButton { button, pressed }]
}

/// The motion to where the pointer is, on the shown console.
pub open spec fn motion_at(m: IncusManager, at: Option<(i64, i64)>) -> Seq<InputEvent> {
    match (at, shown_tab(m.tabs@, id_of(m.active))) {
        (Some((x, y)), Some(tab)) => motion_events(tab.size(), x, y),
        _ => Seq::empty(),
    }
}

/// The notches of a movement of the wheel: up for a positive number of them,
/// down for a negative one.
pub open spec fn scroll_events(notches: i64) -> Seq<InputEvent> {
    let count = if notches >= 0 {
        notches as int
    } else {
        -notches
    };
    Seq::new(
        (if count <= MOST_NOTCHES {
            count
        } else {
            MOST_NOTCHES as int
        }) as nat,
        |i: int|
            InputEvent::MouseScroll {
                button: if notches > 0 {
                    SPICE_BUTTON_WHEEL_UP
                } else {
                    SPICE_BUTTON_WHEEL_DOWN
                },
            },
    )
}

impl IncusManager {
    /// The pointer is at a position of the guest's screen, which may be beside
    /// it: the screen does not fill the console where the shapes differ.
    pub fn send_mouse_motion(&self, x: i64, y: i64) -> (r: Vec<InputEvent>)
        ensures
            r@ == (match shown_tab(self.tabs@, id_of(self.active)) {
                Some(tab) => motion_events(tab.size(), x, y),
                None => Seq::empty(),
            }),
    {
        let mut events: Vec<InputEvent> = Vec::new();
        assert(events@ =~= Seq::empty());
        let size: Option<(u32, u32)> = match self.active_tab() {
            Some(tab) => tab.frame_size(),
            None => return events,
        };
        if let Some((width, height)) = size {
            if 0 <= x && x < width as i64 && 0 <= y && y < height as i64 {
                let most: i64 = i32::MAX as i64;
                let x: i32 = if x <= most {
                    x as i32
                } else {
                    i32::MAX
                };
                let y: i32 = if y <= most {
                    y as i32
                } else {
                    i32::MAX
                };
                events.push(InputEvent::MouseMotion { x, y });
            }
        }
        assert(events@ =~= motion_events(size, x, y));
        events
    }

    /// The pointer is somewhere, which `at` tells in the guest's own coordinates;
    /// `None` where that cannot be told.
    pub fn mouse_moved(&self, at: Option<(i64, i64)>) -> (r: Vec<InputEvent>)
        ensures
            r@ == motion_at(*self, at),
    {
        match at {
            Some((x, y)) => self.send_mouse_motion(x, y),
            None => Vec::new(),
        }
    }

    /// A mouse button went down on the console, at a position that is sent ahead
    /// of it, so that the click lands there. The left one takes the keyboard to
    /// the console.
    pub fn mouse_pressed(&self, at: Option<(i64, i64)>, button: i32) -> (r: (
        Reaction,
        Vec<InputEvent>,
    ))
        ensures
            r.0 == (Reaction {
                repaint: false,
                focus: if button == SPICE_BUTTON_LEFT {
                    Some(Focus::Console)
                } else {
                    None
                },
                command: None,
            }),
            r.1@ == motion_at(*self, at) + to_console(*self, button_events(button, true)),
    {
        let mut events: Vec<InputEvent> = self.mouse_moved(at);
        let mut press: Vec<InputEvent> = self.send_mouse_button(button, true);
        events.append(&mut press);
        let focus: Option<Focus> = if button == SPICE_BUTTON_LEFT {
            Some(Focus::Console)
        } else {
            None
        };
        (Reaction { repaint: false, focus, command: None }, events)
    }

    /// The wheel has moved by some notches, at a position that is sent ahead of
    /// them.
    pub fn mouse_scrolled(&self, at: Option<(i64, i64)>, notches: i64) -> (r: Vec<InputEvent>)
        ensures
            r@ == motion_at(*self, at) + to_console(*self, scroll_events(notches)),
    {
        let mut events: Vec<InputEvent> = self.mouse_moved(at);
        let mut scroll: Vec<InputEvent> = self.send_mouse_scroll(notches);
        events.append(&mut scroll);
        events
    }

    /// A mouse button went down or up.
    pub fn send_mouse_button(&self, button: i32, pressed: bool) -> (r: Vec<InputEvent>)
        ensures
            r@ == to_console(*self, button_events(button, pressed)),
    {
        let mut events: Vec<InputEvent> = Vec::new();
        if self.has_console() {
            events.push(InputEvent::MouseButton { button, pressed });
        }
        assert(events@ =~= to_console(*self, button_events(button, pressed)));
        events
    }

    /// The wheel has moved by some notches.
    pub fn send_mouse_scroll(&self, notches: i64) -> (r: Vec<InputEvent>)
        ensures
            r@ == to_console(*self, scroll_events(notches)),
    {
        let mut events: Vec<InputEvent> = Vec::new();
        if !self.has_console() {
            assert(events@ =~= Seq::empty());
            return events;
        }
        let button: i32 = if notches > 0 {
            SPICE_BUTTON_WHEEL_UP
        } else {
            SPICE_BUTTON_WHEEL_DOWN
        };
        let most: i64 = MOST_NOTCHES as i64;
        let count: i64 = if notches >= most || notches <= -most {
            most
        } else if notches >= 0 {
            notches
        } else {
            -notches
        };
        let mut i: i64 = 0;
        while i < count
            invariant
                0 <= i <= count,
                events@.len() == i,
                forall|j: int|
                    0 <= j < i ==> #[trigger] events@[j] == (InputEvent::MouseScroll { button }),
            decreases count - i,
        {
            events.push(InputEvent::MouseScroll { button });
            i += 1;
        }
        assert(events@ =~= scroll_events(notches));
        events
    }
}

// ---------------------------------------------------------------------------
// Shortcuts
// ---------------------------------------------------------------------------

/// What a key does together with Cmd.
#[derive(Clone, Copy, PartialEq, Eq, Structural, Debug)]
pub enum Shortcut {
    /// Closes the shown tab.
    CloseTab,
    /// Fetches the list of machines.
    Refresh,
    /// Shows or hides the sidebar.
    ToggleSidebar,
    /// Goes to the sidebar's filter.
    Search,
    /// Opens the palette.
    Jump,
    /// Shows the tab with an index.
    ShowTab(usize),
}

/// The shortcut of a key.
pub open spec fn shortcut_of(key: Seq<char>) -> Option<Shortcut> {
    if key == "w"@ {
        Some(Shortcut::CloseTab)
    } else if key == "r"@ {
        Some(Shortcut::Refresh)
    } else if key == "b"@ {
        Some(Shortcut::ToggleSidebar)
    } else if key == "f"@ {
        Some(Shortcut::Search)
    } else if key == "p"@ {
        Some(Shortcut::Jump)
    } else if key.len() == 1 && '1' <= key[0] <= '9' {
        Some(Shortcut::ShowTab((key[0] as int - '1' as int) as usize))
    } else {
        None
    }
}

/// The shortcut of a key.
pub fn shortcut_for(key: &str) -> (r: Option<Shortcut>)
    ensures
        r == shortcut_of(key@),
{
    if same(key, "w") {
        return Some(Shortcut::CloseTab);
    }
    if same(key, "r") {
        return Some(Shortcut::Refresh);
    }
    if same(key, "b") {
        return Some(Shortcut::ToggleSidebar);
    }
    if same(key, "f") {
        return Some(Shortcut::Search);
    }
    if same(key, "p") {
        return Some(Shortcut::Jump);
    }
    let x: Vec<char> = chars_of(key);
    if x.len() == 1 && '1' <= x[0] && x[0] <= '9' {
        let index: u32 = x[0] as u32 - '1' as u32;
        return Some(Shortcut::ShowTab(index as usize));
    }
    None
}

/// What a shortcut does.
pub open spec fn shortcut_does(
    before: IncusManager,
    after: IncusManager,
    shortcut: Shortcut,
    reaction: Reaction,
) -> bool {
    match shortcut {
        Shortcut::CloseTab => match before.active {
            Some(id) => if tab_open(before.tabs@, id@) {
                closes(before, after, id@) && reaction.repaints_and(Command::EndConsole(id))
            } else {
                after == before && reaction.repaints()
            },
            None => after == before && reaction.idle(),
        },
        Shortcut::Refresh => after == before && reaction == (Reaction {
            repaint: false,
            focus: None,
            command: Some(Command::Refresh),
        }),
        Shortcut::ToggleSidebar => after == (IncusManager {
            sidebar_visible: !before.sidebar_visible,
            ..before
        }) && reaction.repaints(),
        Shortcut::Search => after == (IncusManager { sidebar_visible: true, ..before })
            && reaction.repaints_with(Focus::Filter),
        Shortcut::Jump => {
            &&& after.palette matches Some(p) && p.query@.len() == 0 && p.selected is None
            &&& after == (IncusManager { palette: after.palette, ..before })
            &&& reaction.repaints_with(Focus::Palette)
        },
        Shortcut::ShowTab(index) => if index < before.tabs@.len() {
            let id = before.tabs@[index as int].id;
            &&& after.tabs@ == showing(before.tabs@, Some(id@))
            &&& after == (IncusManager { active: Some(id), tabs: after.tabs, ..before })
            &&& reaction.repaints_with(Focus::Console)
        } else {
            after == before && reaction.idle()
        },
    }
}

/// What a key with Cmd does, where it is a shortcut; anything else is none.
pub open spec fn shortcut_taken(
    before: IncusManager,
    after: IncusManager,
    key: Keystroke,
    r: Option<Reaction>,
) -> bool {
    match r {
        Some(reaction) => key.modifiers.platform && (shortcut_of(key.key@) matches Some(shortcut)
            && shortcut_does(before, after, shortcut, reaction)),
        None => (!key.modifiers.platform || shortcut_of(key.key@) is None) && after == before,
    }
}

impl IncusManager {
    /// A key with Cmd: does what it is a shortcut for. `None` where it is no
    /// shortcut, or Cmd is not held.
    pub fn handle_shortcut(&mut self, key: &Keystroke) -> (r: Option<Reaction>)
        ensures
            shortcut_taken(*old(self), *final(self), *key, r),
            old(self).wf() ==> final(self).wf(),
    {
        if !key.modifiers.platform {
            return None;
        }
        let shortcut: Shortcut = match shortcut_for(key.key.as_str()) {
            Some(shortcut) => shortcut,
            None => return None,
        };
        match shortcut {
            Shortcut::CloseTab => {
                let id: VmId = match &self.active {
                    Some(id) => id.clone(),
                    None => return Some(Reaction::none()),
                };
                if self.close_tab(&id) {
                    Some(
                        Reaction {
                            repaint: true,
                            focus: None,
                            command: Some(Command::EndConsole(id)),
                        },
                    )
                } else {
                    Some(Reaction::repaint())
                }
            },
            Shortcut::Refresh => Some(
                Reaction { repaint: false, focus: None, command: Some(Command::Refresh) },
            ),
            Shortcut::ToggleSidebar => {
                self.sidebar_visible = !self.sidebar_visible;
                Some(Reaction::repaint())
            },
            Shortcut::Search => {
                self.sidebar_visible = true;
                Some(Reaction::repaint_with(Focus::Filter))
            },
            Shortcut::Jump => Some(self.open_palette()),
            Shortcut::ShowTab(index) => {
                if index < self.tabs.len() {
                    let id: VmId = self.tabs[index].id.clone();
                    proof {
                        tab_at_spec(self.tabs@, id@);
                    }
                    self.set_active(Some(id));
                    Some(Reaction::repaint_with(Focus::Console))
                } else {
                    Some(Reaction::none())
                }
            },
        }
    }
}

// ---------------------------------------------------------------------------
// Keys
// ---------------------------------------------------------------------------

/// What a key that goes to the guest sends.
pub open spec fn key_events(m: IncusManager, key: Seq<char>, pressed: bool) -> Seq<InputEvent> {
    match host_scancode(key, m.host_layout, m.held_modifiers.shift) {
        Some(code) => to_console(
            m,
            seq![
                if pressed {
                    InputEvent::KeyPress(code)
                } else {
                    InputEvent::KeyRelease(code)
                },
            ],
        ),
        None => Seq::empty(),
    }
}

/// The keys whose last press was kept from the guest.
pub open spec fn consumed(m: IncusManager) -> Set<Seq<char>> {
    texts(m.consumed_keys@).to_set()
}

/// A key that is down in a guest: the console, the key and its scancode.
pub type Down = ((Seq<char>, Seq<char>), Seq<char>, u32);

/// Keys that are down in a guest.
pub open spec fn keys_view(list: Seq<GuestKey>) -> Seq<Down> {
    Seq::new(list.len(), |i: int| (list[i].console@, list[i].key@, list[i].code))
}

/// The keys that are down in a guest.
pub open spec fn guest_keys(m: IncusManager) -> Seq<Down> {
    keys_view(m.guest_keys@)
}

/// The codes that a key was pressed with in a console. There are several only
/// where it repeats with another meaning, as when Shift changes meanwhile.
pub open spec fn codes_of(
    list: Seq<Down>,
    console: (Seq<char>, Seq<char>),
    key: Seq<char>,
) -> Seq<u32>
    decreases list.len(),
{
    if list.len() == 0 {
        Seq::empty()
    } else if list.last().0 == console && list.last().1 == key {
        codes_of(list.drop_last(), console, key).push(list.last().2)
    } else {
        codes_of(list.drop_last(), console, key)
    }
}

/// The keys of a list other than the given one of a console.
pub open spec fn other_keys(
    list: Seq<Down>,
    console: (Seq<char>, Seq<char>),
    key: Seq<char>,
) -> Seq<Down>
    decreases list.len(),
{
    if list.len() == 0 {
        Seq::empty()
    } else if list.last().0 == console && list.last().1 == key {
        other_keys(list.drop_last(), console, key)
    } else {
        other_keys(list.drop_last(), console, key).push(list.last())
    }
}

/// The keys of a list and one more, unless it is there already.
pub open spec fn with_key(list: Seq<Down>, down: Down) -> Seq<Down> {
    if list.contains(down) {
        list
    } else {
        list.push(down)
    }
}

/// The codes with which a key is down in the guest that is shown.
pub open spec fn down_codes(m: IncusManager, key: Seq<char>) -> Seq<u32> {
    match id_of(m.active) {
        Some(console) => codes_of(guest_keys(m), console, key),
        None => Seq::empty(),
    }
}

/// Whether a key is down in the guest that is shown.
pub open spec fn is_down(m: IncusManager, key: Seq<char>) -> bool {
    down_codes(m, key).len() > 0
}

/// The releases of some codes.
pub open spec fn release_all(codes: Seq<u32>) -> Seq<InputEvent> {
    Seq::new(codes.len(), |i: int| InputEvent::KeyRelease(codes[i]))
}

/// Whether two states differ in the keys that were kept from the guest at most.
pub open spec fn differ_in_consumed(before: IncusManager, after: IncusManager) -> bool {
    after == (IncusManager { consumed_keys: after.consumed_keys, ..before })
}

/// Whether a key that goes down is the window's own: Escape while there is an
/// overlay to close, and every key with Cmd, whether it is a shortcut or not.
pub open spec fn kept(m: IncusManager, key: Keystroke) -> bool {
    (key.key@ == "escape"@ && overlay_open(m)) || key.modifiers.platform
}

/// What a key that goes down does. One that is the window's own is kept from the
/// guest; any other goes there, and so will its release.
pub open spec fn presses(
    before: IncusManager,
    after: IncusManager,
    key: Keystroke,
    reaction: Reaction,
    events: Seq<InputEvent>,
) -> bool {
    let noted = IncusManager { consumed_keys: after.consumed_keys, ..before };
    if kept(before, key) {
        &&& events.len() == 0
        &&& consumed(after) == consumed(before).insert(key.key@)
        &&& if key.key@ == "escape"@ && overlay_open(before) {
            dismisses(noted, after, reaction)
        } else {
            match shortcut_of(key.key@) {
                Some(shortcut) => shortcut_does(noted, after, shortcut, reaction),
                None => after == noted && reaction.idle(),
            }
        }
    } else {
        &&& events == key_events(before, key.key@, true)
        &&& consumed(after) == consumed(before).remove(key.key@)
        &&& guest_keys(after) == match host_scancode(
            key.key@,
            before.host_layout,
            before.held_modifiers.shift,
        ) {
            Some(code) if console_shown(before) => with_key(
                guest_keys(before),
                (id_of(before.active).unwrap(), key.key@, code),
            ),
            _ => guest_keys(before),
        }
        &&& after == (IncusManager { guest_keys: after.guest_keys, ..noted })
        &&& reaction.idle()
    }
}

/// What a key that goes up does. Where it is down in the guest it is released
/// there, with the codes it was pressed with. Otherwise it goes to the guest as
/// any other, unless its press was kept from there.
pub open spec fn releases(
    before: IncusManager,
    after: IncusManager,
    key: Seq<char>,
    events: Seq<InputEvent>,
) -> bool {
    if is_down(before, key) {
        &&& events == to_console(before, release_all(down_codes(before, key)))
        &&& guest_keys(after) == other_keys(
            guest_keys(before),
            id_of(before.active).unwrap(),
            key,
        )
        &&& consumed(after) == consumed(before).remove(key)
        &&& after == (IncusManager {
            consumed_keys: after.consumed_keys,
            guest_keys: after.guest_keys,
            ..before
        })
    } else if consumed(before).contains(key) {
        &&& consumed(after) == consumed(before).remove(key)
        &&& differ_in_consumed(before, after)
        &&& events.len() == 0
    } else {
        after == before && events == key_events(before, key, false)
    }
}

proof fn push_adds(list: Seq<String>, key: String)
    ensures
        texts(list.push(key)).to_set() == texts(list).to_set().insert(key@),
        texts(list).no_duplicates() && !texts(list).contains(key@) ==> texts(
            list.push(key),
        ).no_duplicates(),
{
    let before = texts(list);
    let after = texts(list.push(key));
    assert(after =~= before.push(key@));
    assert forall|x: Seq<char>| #[trigger] after.to_set().contains(x) == before.to_set().insert(
        key@,
    ).contains(x) by {
        if before.contains(x) {
            let i = choose|i: int| 0 <= i < before.len() && before[i] == x;
            assert(after[i] == x);
        }
        if x == key@ {
            assert(after[before.len() as int] == x);
        }
    }
    assert(after.to_set() =~= before.to_set().insert(key@));
}

/// The keys of a list other than the given one.
fn keys_without(list: &Vec<String>, key: &str) -> (r: Vec<String>)
    ensures
        texts(r@).to_set() == texts(list@).to_set().remove(key@),
        texts(list@).no_duplicates() ==> texts(r@).no_duplicates(),
{
    let ghost all = texts(list@);
    let mut out: Vec<String> = Vec::new();
    let mut i: usize = 0;
    assert(texts(out@).to_set() =~= all.take(0).to_set().remove(key@));
    while i < list.len()
        invariant
            i <= list@.len(),
            all == texts(list@),
            texts(out@).to_set() == all.take(i as int).to_set().remove(key@),
            all.no_duplicates() ==> texts(out@).no_duplicates(),
        decreases list@.len() - i,
    {
        let ghost kept = texts(out@);
        let ghost next = list@[i as int]@;
        proof {
            push_adds(list@.take(i as int), list@[i as int]);
            assert(texts(list@.take(i as int)) =~= all.take(i as int));
            assert(texts(list@.take(i as int).push(list@[i as int])) =~= all.take(i + 1));
            if all.no_duplicates() && kept.contains(next) {
                assert(texts(out@).to_set().contains(next));
                assert(all.take(i as int).contains(next));
                let j = choose|j: int|
                    0 <= j < all.take(i as int).len() && all.take(i as int)[j] == next;
                assert(all[j] == all[i as int]);
            }
        }
        if !same(list[i].as_str(), key) {
            let name: String = list[i].clone();
            proof {
                push_adds(out@, name);
            }
            out.push(name);
        }
        assert(texts(out@).to_set() =~= all.take(i + 1).to_set().remove(key@));
        i += 1;
    }
    assert(all.take(i as int) =~= all);
    out
}

fn releases_for(codes: &Vec<u32>) -> (r: Vec<InputEvent>)
    ensures
        r@ == release_all(codes@),
{
    let mut events: Vec<InputEvent> = Vec::new();
    let mut i: usize = 0;
    while i < codes.len()
        invariant
            i <= codes@.len(),
            events@.len() == i,
            forall|j: int| 0 <= j < i ==> #[trigger] events@[j] == InputEvent::KeyRelease(codes@[j]),
        decreases codes@.len() - i,
    {
        events.push(InputEvent::KeyRelease(codes[i]));
        i += 1;
    }
    assert(events@ =~= release_all(codes@));
    events
}

impl IncusManager {
    /// One transition of a key for the guest. The modifiers are not sent around
    /// it: they have events of their own, and taken from whichever key is in
    /// flight their release would be lost whenever they are let go first.
    pub fn send_key(&self, key: &Keystroke, pressed: bool) -> (r: Vec<InputEvent>)
        ensures
            r@ == key_events(*self, key.key@, pressed),
    {
        let mut events: Vec<InputEvent> = Vec::new();
        if self.has_console() {
            if let Some(code) = scancode_for_host(
                key.key.as_str(),
                self.host_layout,
                self.held_modifiers.shift,
            ) {
                events.push(
                    if pressed {
                        InputEvent::KeyPress(code)
                    } else {
                        InputEvent::KeyRelease(code)
                    },
                );
            }
        }
        assert(events@ =~= key_events(*self, key.key@, pressed));
        events
    }

    /// Takes note of a key whose press is kept from the guest.
    pub(crate) fn note_consumed(&mut self, key: &str)
        ensures
            consumed(*final(self)) == consumed(*old(self)).insert(key@),
            differ_in_consumed(*old(self), *final(self)),
            old(self).wf() ==> final(self).wf(),
    {
        if listed(&self.consumed_keys, key) {
            assert(consumed(*self).insert(key@) =~= consumed(*self));
        } else {
            let name: String = key.to_owned();
            proof {
                push_adds(self.consumed_keys@, name);
            }
            self.consumed_keys.push(name);
        }
    }

    fn forget_consumed(&mut self, key: &str) -> (r: bool)
        ensures
            r == consumed(*old(self)).contains(key@),
            r ==> consumed(*final(self)) == consumed(*old(self)).remove(key@),
            r ==> differ_in_consumed(*old(self), *final(self)),
            !r ==> *final(self) == *old(self),
            old(self).wf() ==> final(self).wf(),
    {
        if !listed(&self.consumed_keys, key) {
            return false;
        }
        self.consumed_keys = keys_without(&self.consumed_keys, key);
        true
    }

    fn note_down(&mut self, key: &str, code: u32)
        ensures
            match id_of(old(self).active) {
                Some(console) => guest_keys(*final(self)) == with_key(
                    guest_keys(*old(self)),
                    (console, key@, code),
                ),
                None => *final(self) == *old(self),
            },
            *final(self) == (IncusManager { guest_keys: final(self).guest_keys, ..*old(self) }),
            old(self).wf() ==> final(self).wf(),
    {
        let console: VmId = match &self.active {
            Some(id) => id.clone(),
            None => return,
        };
        let ghost list = guest_keys(*self);
        let ghost down: Down = (console@, key@, code);
        let mut i: usize = 0;
        while i < self.guest_keys.len()
            invariant
                i <= self.guest_keys@.len(),
                *self == *old(self),
                list == guest_keys(*self),
                down == (console@, key@, code),
                id_of(old(self).active) == Some(console@),
                forall|j: int| 0 <= j < i ==> #[trigger] list[j] != down,
            decreases self.guest_keys@.len() - i,
        {
            let entry: &GuestKey = &self.guest_keys[i];
            assert(list[i as int] == (entry.console@, entry.key@, entry.code));
            if entry.code == code && entry.console.is(&console) && same(entry.key.as_str(), key) {
                assert(list.contains(down));
                return;
            }
            i += 1;
        }
        assert(!list.contains(down));
        self.guest_keys.push(GuestKey { console, key: key.to_owned(), code });
        assert(guest_keys(*self) =~= list.push(down));
    }

    /// Takes a key from those that are down in the guest that is shown: the codes
    /// it was pressed with, none where it is not.
    fn take_down(&mut self, key: &str) -> (r: Vec<u32>)
        ensures
            r@ == down_codes(*old(self), key@),
            r@.len() == 0 ==> *final(self) == *old(self),
            r@.len() > 0 ==> guest_keys(*final(self)) == other_keys(
                guest_keys(*old(self)),
                id_of(old(self).active).unwrap(),
                key@,
            ),
            *final(self) == (IncusManager { guest_keys: final(self).guest_keys, ..*old(self) }),
            old(self).wf() ==> final(self).wf(),
    {
        let mut codes: Vec<u32> = Vec::new();
        let console: VmId = match &self.active {
            Some(id) => id.clone(),
            None => return codes,
        };
        let ghost list = guest_keys(*self);
        let mut rest: Vec<GuestKey> = Vec::new();
        let mut i: usize = 0;
        assert(keys_view(rest@) =~= Seq::empty());
        while i < self.guest_keys.len()
            invariant
                i <= self.guest_keys@.len(),
                *self == *old(self),
                list == guest_keys(*self),
                codes@ == codes_of(list.take(i as int), console@, key@),
                keys_view(rest@) == other_keys(list.take(i as int), console@, key@),
            decreases self.guest_keys@.len() - i,
        {
            let ghost kept = rest@;
            let entry: &GuestKey = &self.guest_keys[i];
            assert(list.take(i + 1).drop_last() =~= list.take(i as int));
            assert(list.take(i + 1).last() == (entry.console@, entry.key@, entry.code));
            if entry.console.is(&console) && same(entry.key.as_str(), key) {
                codes.push(entry.code);
            } else {
                rest.push(
                    GuestKey {
                        console: entry.console.clone(),
                        key: entry.key.clone(),
                        code: entry.code,
                    },
                );
                assert(keys_view(rest@) =~= keys_view(kept).push(
                    (entry.console@, entry.key@, entry.code),
                ));
            }
            i += 1;
        }
        assert(list.take(i as int) =~= list);
        if codes.len() > 0 {
            self.guest_keys = rest;
        }
        codes
    }

    /// A key went down while the console has the keyboard.
    pub fn key_down(&mut self, key: &Keystroke) -> (r: (Reaction, Vec<InputEvent>))
        ensures
            presses(*old(self), *final(self), *key, r.0, r.1@),
            old(self).wf() ==> final(self).wf(),
    {
        if same(key.key.as_str(), "escape") {
            if let Some(reaction) = self.dismiss_overlay() {
                let ghost dismissed = *self;
                self.note_consumed(key.key.as_str());
                assert(*self == (IncusManager { consumed_keys: self.consumed_keys, ..dismissed }));
                return (reaction, Vec::new());
            }
        }
        if key.modifiers.platform {
            self.note_consumed(key.key.as_str());
            return match self.handle_shortcut(key) {
                Some(reaction) => (reaction, Vec::new()),
                None => (Reaction::none(), Vec::new()),
            };
        }
        let events: Vec<InputEvent> = self.send_key(key, true);
        if !self.forget_consumed(key.key.as_str()) {
            assert(consumed(*self).remove(key.key@) =~= consumed(*self));
        }
        if events.len() > 0 {
            if let InputEvent::KeyPress(code) = events[0] {
                self.note_down(key.key.as_str(), code);
            }
        }
        (Reaction::none(), events)
    }

    /// A key went up. What counts is whether it is down in the guest, not which
    /// modifiers are held by now.
    pub fn key_up(&mut self, key: &Keystroke) -> (r: Vec<InputEvent>)
        ensures
            releases(*old(self), *final(self), key.key@, r@),
            old(self).wf() ==> final(self).wf(),
    {
        let shown: bool = self.has_console();
        let codes: Vec<u32> = self.take_down(key.key.as_str());
        let ghost taken = *self;
        let kept: bool = self.forget_consumed(key.key.as_str());
        if codes.len() > 0 {
            if !kept {
                assert(consumed(taken).remove(key.key@) =~= consumed(taken));
            }
            return if shown {
                releases_for(&codes)
            } else {
                Vec::new()
            };
        }
        if kept {
            return Vec::new();
        }
        self.send_key(key, false)
    }
}

/// A key whose press was kept from the guest is not released there either,
/// whatever else has changed by then, unless it is down there from an earlier
/// press.
pub proof fn kept_presses_are_not_released(
    before: IncusManager,
    pressed: IncusManager,
    later: IncusManager,
    released: IncusManager,
    key: Keystroke,
    reaction: Reaction,
    down_events: Seq<InputEvent>,
    up_events: Seq<InputEvent>,
)
    requires
        kept(before, key),
        presses(before, pressed, key, reaction, down_events),
        consumed(later).contains(key.key@) == consumed(pressed).contains(key.key@),
        !is_down(later, key.key@),
        releases(later, released, key.key@, up_events),
    ensures
        down_events.len() == 0,
        up_events.len() == 0,
        !consumed(released).contains(key.key@),
{
}

/// A key that was pressed in the filter, the palette or the rename dialog is not
/// released in the guest, also where it moved the keyboard to the console,
/// unless it is down there from an earlier press.
pub proof fn dialog_keys_are_not_released(
    before: IncusManager,
    pressed: IncusManager,
    later: IncusManager,
    released: IncusManager,
    key: Keystroke,
    rows: Seq<Vm>,
    reaction: Reaction,
    events: Seq<InputEvent>,
)
    requires
        ({
            ||| filter_key_does(before, pressed, key, reaction)
            ||| before.palette is Some && palette_key_does(before, pressed, key, rows, reaction)
            ||| before.rename matches Some((id, name)) && rename_key_does(
                before,
                pressed,
                id,
                name,
                key,
                reaction,
            )
        }),
        consumed(later).contains(key.key@) == consumed(pressed).contains(key.key@),
        !is_down(later, key.key@),
        releases(later, released, key.key@, events),
    ensures
        events.len() == 0,
{
}

proof fn codes_are_listed(
    list: Seq<Down>,
    console: (Seq<char>, Seq<char>),
    key: Seq<char>,
    code: u32,
)
    requires
        list.contains((console, key, code)),
    ensures
        codes_of(list, console, key).contains(code),
    decreases list.len(),
{
    let down: Down = (console, key, code);
    let i = choose|i: int| 0 <= i < list.len() && list[i] == down;
    let front = list.drop_last();
    let codes = codes_of(list, console, key);
    if i < front.len() {
        assert(front[i] == down);
        codes_are_listed(front, console, key, code);
        let before = codes_of(front, console, key);
        let k = choose|k: int| 0 <= k < before.len() && before[k] == code;
        assert(codes[k] == code);
    } else {
        assert(codes.last() == code);
    }
}

proof fn other_keys_lack(list: Seq<Down>, console: (Seq<char>, Seq<char>), key: Seq<char>)
    ensures
        codes_of(other_keys(list, console, key), console, key).len() == 0,
    decreases list.len(),
{
    if list.len() > 0 {
        let front = list.drop_last();
        other_keys_lack(front, console, key);
        if list.last().0 != console || list.last().1 != key {
            assert(other_keys(list, console, key).drop_last() =~= other_keys(
                front,
                console,
                key,
            ));
        }
    }
}

proof fn releasing_lets_go(held: Set<u32>, codes: Seq<u32>)
    ensures
        forall|c: u32| #[trigger]
            held_after(held, release_all(codes)).contains(c) == (held.contains(c)
                && !codes.contains(c)),
    decreases codes.len(),
{
    let events = release_all(codes);
    if codes.len() > 0 {
        let front = codes.drop_last();
        releasing_lets_go(held, front);
        assert(events.drop_last() =~= release_all(front));
        assert(events.last() == InputEvent::KeyRelease(codes.last()));
        let mid = held_after(held, release_all(front));
        assert(held_after(held, events) == mid.remove(codes.last()));
        assert forall|c: u32| #[trigger]
            held_after(held, events).contains(c) == (held.contains(c) && !codes.contains(c)) by {
            assert(mid.contains(c) == (held.contains(c) && !front.contains(c)));
            if front.contains(c) {
                let k = choose|k: int| 0 <= k < front.len() && front[k] == c;
                assert(codes[k] == c);
            }
            if c == codes.last() {
                assert(codes[codes.len() - 1] == c);
            }
            if codes.contains(c) && c != codes.last() {
                let k = choose|k: int| 0 <= k < codes.len() && codes[k] == c;
                assert(front[k] == c);
            }
        }
    }
}

/// A key whose press went to the guest is released there with the code it was
/// pressed with, and no longer counts as down. Nothing that happens in between
/// but its own release makes a difference, as long as the same console is shown:
/// not Cmd, not Shift, not a repetition of it that was kept from the guest. Every
/// key that it did not press stays as it was.
pub proof fn sent_presses_are_released(
    before: IncusManager,
    pressed: IncusManager,
    later: IncusManager,
    released: IncusManager,
    key: Keystroke,
    code: u32,
    reaction: Reaction,
    down_events: Seq<InputEvent>,
    up_events: Seq<InputEvent>,
    held: Set<u32>,
)
    requires
        !kept(before, key),
        console_shown(before),
        host_scancode(key.key@, before.host_layout, before.held_modifiers.shift) == Some(code),
        presses(before, pressed, key, reaction, down_events),
        down_codes(later, key.key@) == down_codes(pressed, key.key@),
        id_of(later.active) == id_of(pressed.active),
        console_shown(later),
        releases(later, released, key.key@, up_events),
    ensures
        down_events == seq![InputEvent::KeyPress(code)],
        up_events.contains(InputEvent::KeyRelease(code)),
        !is_down(before, key.key@) ==> up_events == seq![InputEvent::KeyRelease(code)],
        !is_down(released, key.key@),
        !consumed(released).contains(key.key@),
        !held_after(held_after(held, down_events), up_events).contains(code),
        forall|c: u32|
            !down_codes(pressed, key.key@).contains(c) ==> (held.contains(c)
                == #[trigger] held_after(held_after(held, down_events), up_events).contains(c)),
{
    let name = key.key@;
    let console = id_of(before.active).unwrap();
    let list = guest_keys(before);
    let down: Down = (console, name, code);
    let codes = down_codes(pressed, name);
    if !list.contains(down) {
        assert(guest_keys(pressed)[list.len() as int] == down);
        assert(guest_keys(pressed).drop_last() =~= list);
        assert(codes == codes_of(list, console, name).push(code));
    }
    assert(guest_keys(pressed).contains(down));
    codes_are_listed(guest_keys(pressed), console, name, code);
    if list.contains(down) {
        codes_are_listed(list, console, name, code);
    }
    let k = choose|k: int| 0 <= k < codes.len() && codes[k] == code;
    assert(up_events == release_all(codes));
    assert(up_events[k] == InputEvent::KeyRelease(code));
    if !is_down(before, name) {
        assert(up_events =~= seq![InputEvent::KeyRelease(code)]);
    }
    other_keys_lack(guest_keys(later), console, name);
    assert(down_events.drop_last() =~= Seq::empty());
    reveal_with_fuel(held_after, 2);
    assert(held_after(held, down_events) == held.insert(code));
    releasing_lets_go(held.insert(code), codes);
}

/// A key that is down in the guest and repeats with Cmd, so that the repetition
/// is kept, is released in the guest all the same, as long as the same console
/// is shown.
pub proof fn a_kept_repetition_hides_no_release(
    before: IncusManager,
    pressed: IncusManager,
    repeated: IncusManager,
    released: IncusManager,
    down: Keystroke,
    again: Keystroke,
    code: u32,
    reactions: (Reaction, Reaction),
    down_events: Seq<InputEvent>,
    again_events: Seq<InputEvent>,
    up_events: Seq<InputEvent>,
)
    requires
        !kept(before, down),
        !is_down(before, down.key@),
        console_shown(before),
        host_scancode(down.key@, before.host_layout, before.held_modifiers.shift) == Some(code),
        presses(before, pressed, down, reactions.0, down_events),
        again.key@ == down.key@,
        kept(pressed, again),
        presses(pressed, repeated, again, reactions.1, again_events),
        id_of(repeated.active) == id_of(pressed.active),
        console_shown(repeated),
        releases(repeated, released, down.key@, up_events),
    ensures
        down_events == seq![InputEvent::KeyPress(code)],
        again_events.len() == 0,
        up_events == seq![InputEvent::KeyRelease(code)],
{
    sent_presses_are_released(
        before,
        pressed,
        repeated,
        released,
        down,
        code,
        reactions.0,
        down_events,
        up_events,
        Set::empty(),
    );
}

// ---------------------------------------------------------------------------
// What the operations amount to
// ---------------------------------------------------------------------------

proof fn a_digit_is_no_letter(n: nat)
    requires
        1 <= n <= 9,
    ensures
        shortcut_of(decimal(n)) == Some(Shortcut::ShowTab((n - 1) as usize)),
{
    let key = decimal(n);
    reveal_strlit("w");
    reveal_strlit("r");
    reveal_strlit("b");
    reveal_strlit("f");
    reveal_strlit("p");
    assert(key.len() == 1);
    assert('1' <= key[0] <= '9');
    assert("w"@[0] == 'w' && "r"@[0] == 'r' && "b"@[0] == 'b' && "f"@[0] == 'f' && "p"@[0] == 'p');
}

/// Cmd and a number show the tab that is as many from the left, and it alone.
pub proof fn cmd_and_a_number_show_a_tab(
    before: IncusManager,
    after: IncusManager,
    key: Keystroke,
    r: Option<Reaction>,
    n: nat,
)
    requires
        shortcut_taken(before, after, key, r),
        key.modifiers.platform,
        key.key@ == decimal(n),
        1 <= n <= 9,
        n <= before.tabs@.len(),
    ensures
        r matches Some(reaction) && reaction.focus == Some(Focus::Console) && reaction.repaint,
        after.active == Some(before.tabs@[n - 1].id),
        after.tabs@.len() == before.tabs@.len(),
        forall|i: int|
            0 <= i < after.tabs@.len() ==> (#[trigger] after.tabs@[i]).id == before.tabs@[i].id
                && after.tabs@[i].frame == before.tabs@[i].frame,
        forall|i: int|
            0 <= i < after.tabs@.len() ==> ((#[trigger] after.tabs@[i]).visible <==> (
            after.tabs@[i].id@ == before.tabs@[n - 1].id@)),
        after == (IncusManager { active: after.active, tabs: after.tabs, ..before }),
{
    a_digit_is_no_letter(n);
}

/// Cmd and a number for which there is no tab do nothing.
pub proof fn cmd_and_a_number_without_a_tab(
    before: IncusManager,
    after: IncusManager,
    key: Keystroke,
    r: Option<Reaction>,
    n: nat,
)
    requires
        shortcut_taken(before, after, key, r),
        key.modifiers.platform,
        key.key@ == decimal(n),
        before.tabs@.len() < n <= 9,
    ensures
        after == before,
{
    a_digit_is_no_letter(n);
}

proof fn letters_are_shortcuts()
    ensures
        shortcut_of(seq!['w']) == Some(Shortcut::CloseTab),
        shortcut_of(seq!['r']) == Some(Shortcut::Refresh),
        shortcut_of(seq!['b']) == Some(Shortcut::ToggleSidebar),
        shortcut_of(seq!['f']) == Some(Shortcut::Search),
        shortcut_of(seq!['p']) == Some(Shortcut::Jump),
{
    reveal_strlit("w");
    reveal_strlit("r");
    reveal_strlit("b");
    reveal_strlit("f");
    reveal_strlit("p");
    assert("w"@ =~= seq!['w'] && "r"@ =~= seq!['r'] && "b"@ =~= seq!['b'] && "f"@ =~= seq!['f']
        && "p"@ =~= seq!['p']);
    let w = seq!['w'];
    let r = seq!['r'];
    let b = seq!['b'];
    let f = seq!['f'];
    let p = seq!['p'];
    assert(w[0] == 'w' && r[0] == 'r' && b[0] == 'b' && f[0] == 'f' && p[0] == 'p');
}

/// Cmd-W closes the shown tab and no other, and ends its console.
pub proof fn cmd_w_closes_the_shown_tab(
    before: IncusManager,
    after: IncusManager,
    key: Keystroke,
    r: Option<Reaction>,
    at: int,
)
    requires
        shortcut_taken(before, after, key, r),
        key.modifiers.platform,
        key.key@ == seq!['w'],
        0 <= at < before.tabs@.len(),
        before.active == Some(before.tabs@[at].id),
        forall|j: int|
            0 <= j < before.tabs@.len() && j != at ==> (#[trigger] before.tabs@[j]).id@
                != before.tabs@[at].id@,
    ensures
        r matches Some(reaction) && reaction.repaint && reaction.command == Some(
            Command::EndConsole(before.tabs@[at].id),
        ),
        after.tabs@.len() == before.tabs@.len() - 1,
        forall|j: int|
            0 <= j < after.tabs@.len() ==> (#[trigger] after.tabs@[j]).id@ != before.tabs@[at].id@,
        forall|j: int| 0 <= j < at ==> (#[trigger] after.tabs@[j]).id == before.tabs@[j].id,
        forall|j: int|
            at <= j < after.tabs@.len() ==> (#[trigger] after.tabs@[j]).id == before.tabs@[j
                + 1].id,
        after.connecting == before.connecting,
{
    letters_are_shortcuts();
    let id = before.tabs@[at].id@;
    tab_at_spec(before.tabs@, id);
    closing_shows_the_neighbour(before, after, id, at);
}

/// The other letters: Cmd-B shows or hides the sidebar, Cmd-F shows it and goes
/// to the filter, Cmd-P opens an empty palette, and Cmd-R fetches the list; none
/// touches a tab.
pub proof fn cmd_and_a_letter(
    before: IncusManager,
    after: IncusManager,
    key: Keystroke,
    r: Option<Reaction>,
)
    requires
        shortcut_taken(before, after, key, r),
        key.modifiers.platform,
    ensures
        key.key@ == seq!['b'] ==> (r matches Some(reaction) && reaction.repaint && after == (
        IncusManager { sidebar_visible: !before.sidebar_visible, ..before })),
        key.key@ == seq!['f'] ==> (r matches Some(reaction) && reaction.focus == Some(Focus::Filter)
            && after == (IncusManager { sidebar_visible: true, ..before })),
        key.key@ == seq!['p'] ==> (r matches Some(reaction) && reaction.focus == Some(
            Focus::Palette,
        ) && (after.palette matches Some(p) && p.query@.len() == 0 && p.selected is None) && after
            == (IncusManager { palette: after.palette, ..before })),
        key.key@ == seq!['r'] ==> (r matches Some(reaction) && reaction.command == Some(
            Command::Refresh,
        ) && after == before),
{
    letters_are_shortcuts();
}

/// Nothing else is a shortcut: neither a key without Cmd nor one with another
/// name.
pub proof fn nothing_else_is_a_shortcut(
    before: IncusManager,
    after: IncusManager,
    key: Keystroke,
    r: Option<Reaction>,
)
    requires
        shortcut_taken(before, after, key, r),
        !key.modifiers.platform || key.key@.len() != 1 || !(key.key@[0] == 'w' || key.key@[0] == 'r'
            || key.key@[0] == 'b' || key.key@[0] == 'f' || key.key@[0] == 'p' || '1' <= key.key@[0]
            <= '9'),
    ensures
        r is None,
        after == before,
{
    reveal_strlit("w");
    reveal_strlit("r");
    reveal_strlit("b");
    reveal_strlit("f");
    reveal_strlit("p");
}

/// Every key with Cmd stays with the window, shortcut or not: nothing of it goes
/// to the guest.
pub proof fn keys_with_cmd_stay(
    before: IncusManager,
    after: IncusManager,
    key: Keystroke,
    reaction: Reaction,
    events: Seq<InputEvent>,
)
    requires
        presses(before, after, key, reaction, events),
        key.modifiers.platform,
    ensures
        events.len() == 0,
        after.guest_keys@ == before.guest_keys@,
        texts(after.consumed_keys@).contains(key.key@),
{
    assert(consumed(after).contains(key.key@));
}

/// Every other key goes to the guest that is shown, by the code of its place, but
/// for an Escape that has something to close. The window does not change with it.
pub proof fn other_keys_go_to_the_guest(
    before: IncusManager,
    after: IncusManager,
    key: Keystroke,
    reaction: Reaction,
    events: Seq<InputEvent>,
)
    requires
        presses(before, after, key, reaction, events),
        !key.modifiers.platform,
        key.key@ != "escape"@ || (before.context_menu is None && before.details is None
            && before.rename is None),
    ensures
        !reaction.repaint && reaction.focus is None && reaction.command is None,
        after.tabs == before.tabs && after.active == before.active && after.palette
            == before.palette,
        console_shown(before) ==> match host_scancode(
            key.key@,
            before.host_layout,
            before.held_modifiers.shift,
        ) {
            Some(code) => events =~= seq![InputEvent::KeyPress(code)],
            None => events.len() == 0,
        },
        !console_shown(before) ==> events.len() == 0,
{
}

/// A key that the guest never got and that was not kept from it is released by
/// the code of its place.
pub proof fn other_releases_go_to_the_guest(
    before: IncusManager,
    after: IncusManager,
    key: Seq<char>,
    events: Seq<InputEvent>,
)
    requires
        releases(before, after, key, events),
        forall|i: int|
            0 <= i < before.guest_keys@.len() ==> (#[trigger] before.guest_keys@[i]).key@ != key,
        forall|i: int|
            0 <= i < before.consumed_keys@.len() ==> (#[trigger] before.consumed_keys@[i])@ != key,
    ensures
        after == before,
        console_shown(before) ==> match host_scancode(
            key,
            before.host_layout,
            before.held_modifiers.shift,
        ) {
            Some(code) => events =~= seq![InputEvent::KeyRelease(code)],
            None => events.len() == 0,
        },
        !console_shown(before) ==> events.len() == 0,
{
    if let Some(console) = id_of(before.active) {
        no_codes(guest_keys(before), console, key);
    }
    assert(!texts(before.consumed_keys@).contains(key));
}

proof fn no_codes(list: Seq<Down>, console: (Seq<char>, Seq<char>), key: Seq<char>)
    requires
        forall|i: int| 0 <= i < list.len() ==> (#[trigger] list[i]).1 != key,
    ensures
        codes_of(list, console, key).len() == 0,
    decreases list.len(),
{
    if list.len() > 0 {
        assert(list[list.len() - 1].1 != key);
        no_codes(list.drop_last(), console, key);
    }
}

/// Releasing a key takes that key of that console, and leaves every other key of
/// it, and every key of the others, down.
pub proof fn releasing_one_key_leaves_the_others(
    list: Seq<Down>,
    console: (Seq<char>, Seq<char>),
    key: Seq<char>,
)
    ensures
        other_keys(list, console, key) == list.filter(|d: Down| !(d.0 == console && d.1 == key)),
        codes_of(list, console, key) == list.filter_map(
            |d: Down|
                if d.0 == console && d.1 == key {
                    Some(d.2)
                } else {
                    None
                },
        ),
    decreases list.len(),
{
    reveal(Seq::filter);
    if list.len() > 0 {
        releasing_one_key_leaves_the_others(list.drop_last(), console, key);
        assert(codes_of(list, console, key) =~= list.filter_map(
            |d: Down|
                if d.0 == console && d.1 == key {
                    Some(d.2)
                } else {
                    None
                },
        ));
    }
}

/// Pressing a key adds it, and no key is lost by it.
pub proof fn pressing_adds_one_key(list: Seq<Down>, down: Down, other: Down)
    ensures
        with_key(list, down).contains(other) <==> list.contains(other) || other == down,
        with_key(list, down).len() <= list.len() + 1,
{
    let out = with_key(list, down);
    if list.contains(other) {
        let i = choose|i: int| 0 <= i < list.len() && list[i] == other;
        assert(out[i] == other);
    }
    if !list.contains(down) {
        assert(out[list.len() as int] == down);
    }
    if out.contains(other) && other != down {
        let i = choose|i: int| 0 <= i < out.len() && out[i] == other;
        assert(list[i] == other);
    }
}

/// The keys that are sent without being typed have the codes of their names.
pub proof fn control_keys_have_their_codes()
    ensures
        scancode("control"@) == Some(CONTROL),
        scancode("alt"@) == Some(ALT),
        scancode("shift"@) == Some(SHIFT),
        scancode("capslock"@) == Some(CAPS_LOCK),
        scancode("delete"@) == Some(DELETE),
{
    codes_of_control_keys();
}

/// A change of Caps Lock, on or off, is one tap of its key, and no change is
/// none.
pub proof fn caps_lock_is_tapped(was: bool, now: bool)
    ensures
        was == now ==> capslock_events(was, now).len() == 0,
        was != now ==> (scancode("capslock"@) matches Some(code) && capslock_events(was, now)
            =~= seq![InputEvent::KeyPress(code), InputEvent::KeyRelease(code)]),
{
    codes_of_control_keys();
}

/// Ctrl+Alt+Del is what its name says: the three keys go down one after the other
/// and come up in the reverse order.
pub proof fn ctrl_alt_del_presses_its_keys()
    ensures
        ctrl_alt_del().len() == 6,
        scancode("control"@) matches Some(c) && ctrl_alt_del()[0] == InputEvent::KeyPress(c)
            && ctrl_alt_del()[5] == InputEvent::KeyRelease(c),
        scancode("alt"@) matches Some(c) && ctrl_alt_del()[1] == InputEvent::KeyPress(c)
            && ctrl_alt_del()[4] == InputEvent::KeyRelease(c),
        scancode("delete"@) matches Some(c) && ctrl_alt_del()[2] == InputEvent::KeyPress(c)
            && ctrl_alt_del()[3] == InputEvent::KeyRelease(c),
{
    codes_of_control_keys();
}

/// The pointer is sent where it is, as long as it is on the screen, and not at
/// all beside it.
pub proof fn the_pointer_is_sent_where_it_is(width: u32, height: u32, x: i64, y: i64)
    ensures
        0 <= x < width && 0 <= y < height && x <= i32::MAX && y <= i32::MAX ==> (motion_events(
            Some((width, height)),
            x,
            y,
        ).len() == 1 && (motion_events(
            Some((width, height)),
            x,
            y,
        )[0] matches InputEvent::MouseMotion { x: sent_x, y: sent_y } && sent_x == x && sent_y
            == y)),
        x < 0 || y < 0 || x >= width || y >= height ==> motion_events(
            Some((width, height)),
            x,
            y,
        ).len() == 0,
        motion_events(None, x, y).len() == 0,
{
}

/// The wheel: one click for every notch, up or down as it moved, and never more
/// than ten.
pub proof fn the_wheel_clicks_once_a_notch(notches: i64, i: int)
    ensures
        -10 <= notches <= 10 ==> scroll_events(notches).len() == (if notches >= 0 {
            notches as int
        } else {
            -notches
        }),
        notches > 10 || notches < -10 ==> scroll_events(notches).len() == 10,
        0 <= i < scroll_events(notches).len() && notches > 0 ==> scroll_events(notches)[i] == (
        InputEvent::MouseScroll { button: 4 }),
        0 <= i < scroll_events(notches).len() && notches < 0 ==> scroll_events(notches)[i] == (
        InputEvent::MouseScroll { button: 5 }),
{
}

/// Input goes to the shown console as it is, and nowhere while none is shown.
pub proof fn input_goes_to_the_shown_console(m: IncusManager, events: Seq<InputEvent>, at: int)
    ensures
        0 <= at < m.tabs@.len() && id_of(m.active) == Some(m.tabs@[at].id@) ==> to_console(
            m,
            events,
        ) == events,
        m.active is None ==> to_console(m, events).len() == 0,
{
    if 0 <= at < m.tabs@.len() {
        tab_at_spec(m.tabs@, m.tabs@[at].id@);
    }
}

/// The modifiers that are sent: each that went down is pressed, each that went up
/// is released, and none that stayed is mentioned.
pub proof fn modifiers_are_sent_as_they_change(was: Modifiers, now: Modifiers)
    ensures
        modifier_events(was, now).contains(InputEvent::KeyPress(CONTROL)) <==> now.control
            && !was.control,
        modifier_events(was, now).contains(InputEvent::KeyRelease(CONTROL)) <==> was.control
            && !now.control,
        modifier_events(was, now).contains(InputEvent::KeyPress(ALT)) <==> now.alt && !was.alt,
        modifier_events(was, now).contains(InputEvent::KeyRelease(ALT)) <==> was.alt && !now.alt,
        modifier_events(was, now).contains(InputEvent::KeyPress(SHIFT)) <==> now.shift
            && !was.shift,
        modifier_events(was, now).contains(InputEvent::KeyRelease(SHIFT)) <==> was.shift
            && !now.shift,
        modifier_events(was, now).len() == (if was.control != now.control {
            1int
        } else {
            0
        }) + (if was.alt != now.alt {
            1int
        } else {
            0
        }) + (if was.shift != now.shift {
            1int
        } else {
            0
        }),
{
    let a = transition(was.control, now.control, CONTROL);
    let b = transition(was.alt, now.alt, ALT);
    let c = transition(was.shift, now.shift, SHIFT);
    let all = modifier_events(was, now);
    if a.len() > 0 {
        assert(all[0] == a[0]);
    }
    if b.len() > 0 {
        assert(all[a.len() as int] == b[0]);
    }
    if c.len() > 0 {
        assert(all[a.len() + b.len() as int] == c[0]);
    }
}

/// The pointer is sent in the coordinates of the screen of the shown console, and
/// not where these cannot be told or nothing is shown yet.
pub proof fn the_pointer_is_sent_to_the_shown_screen(
    m: IncusManager,
    at: int,
    x: i64,
    y: i64,
    frame: Frame,
)
    requires
        0 <= at < m.tabs@.len(),
        id_of(m.active) == Some(m.tabs@[at].id@),
        forall|j: int| 0 <= j < at ==> (#[trigger] m.tabs@[j]).id@ != m.tabs@[at].id@,
        m.tabs@[at].frame == Some(frame),
        0 <= x < frame.width,
        0 <= y < frame.height,
        x <= i32::MAX,
        y <= i32::MAX,
    ensures
        motion_at(m, Some((x, y))).len() == 1,
        motion_at(m, Some((x, y)))[0] matches InputEvent::MouseMotion { x: sent_x, y: sent_y }
            && sent_x == x && sent_y == y,
        motion_at(m, None).len() == 0,
{
    tab_at_spec(m.tabs@, m.tabs@[at].id@);
}

/// Every button is sent as itself, when it goes down and when it comes up.
pub proof fn buttons_are_sent_as_they_are(button: i32, pressed: bool)
    ensures
        button_events(button, pressed).len() == 1,
        button_events(button, pressed)[0] == (InputEvent::MouseButton { button, pressed }),
{
}

} // verus!
