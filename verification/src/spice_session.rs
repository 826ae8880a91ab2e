//! The state and the rules of an embedded SPICE console: what the user
//! interface may ask of it, which input reaches the guest and in what form, and
//! when a changed screen is turned into a frame.

use vstd::arithmetic::div_mod::lemma_fundamental_div_mod_converse;
use vstd::prelude::*;
use vstd::string::*;

use crate::scancode::mouse::{button_mask, is_button, mask_of, masks_are_distinct_bits};
use crate::text::{
    cut_is_unique, decimal, decimal_injective, decimal_reads_back, number, same,
};

verus! {

/// `SPICE_MOUSE_MODE_SERVER`: the guest moves its pointer by deltas.
pub const MOUSE_MODE_SERVER: i32 = 1;

/// `SPICE_MOUSE_MODE_CLIENT`: the guest takes absolute pointer positions.
pub const MOUSE_MODE_CLIENT: i32 = 2;

// ---------------------------------------------------------------------------
// Starting a console
// ---------------------------------------------------------------------------

/// Why a console could not be started.
pub enum StartError {
    /// Somebody is attached to it already; it can be taken over by force.
    AlreadyConnected,
    Message(String),
}

impl StartError {
    pub open spec fn text(self) -> Seq<char> {
        match self {
            StartError::AlreadyConnected => "该虚拟机已有一个残留的控制台会话"@,
            StartError::Message(m) => m@,
        }
    }

    pub fn message(&self) -> (r: String)
        ensures
            r@ == self.text(),
    {
        match self {
            StartError::AlreadyConnected => "该虚拟机已有一个残留的控制台会话".to_owned(),
            StartError::Message(m) => m.clone(),
        }
    }
}

/// Tells the daemon's refusal of a second attachment, which can be forced, from
/// every other failure to open a console.
pub fn open_failure(error: String) -> (r: StartError)
    ensures
        r == (if error@
            == "This console is already connected. Force is required to take it over."@ {
            StartError::AlreadyConnected
        } else {
            StartError::Message(error)
        }),
{
    if same(
        error.as_str(),
        "This console is already connected. Force is required to take it over.",
    ) {
        StartError::AlreadyConnected
    } else {
        StartError::Message(error)
    }
}

/// What waiting for a new session came to: its own answer, or no answer in time.
pub fn session_ready(answer: Option<Result<(), String>>) -> (r: Result<(), StartError>)
    ensures
        match answer {
            Some(Ok(())) => r == Ok::<(), StartError>(()),
            Some(Err(e)) => r == Err::<(), StartError>(StartError::Message(e)),
            None => r is Err && r->Err_0 is Message && r->Err_0.text()
                == "等待 SPICE 会话建立超时"@,
        },
{
    match answer {
        Some(Ok(())) => Ok(()),
        Some(Err(e)) => Err(StartError::Message(e)),
        None => Err(StartError::Message("等待 SPICE 会话建立超时".to_owned())),
    }
}

/// The name of the local socket of the `n`th console of a process.
pub open spec fn socket_text(pid: nat, n: nat) -> Seq<char> {
    "inm-spice-"@ + decimal(pid) + "-"@ + decimal(n) + ".sock"@
}

pub fn socket_name(pid: u32, n: u64) -> (r: String)
    ensures
        r@ == socket_text(pid as nat, n as nat),
{
    let mut out: String = "inm-spice-".to_owned();
    out.append(number(pid as u64).as_str());
    out.append("-");
    out.append(number(n).as_str());
    out.append(".sock");
    out
}

/// Two consoles have the same socket only if the same process hands out the
/// same number twice.
pub proof fn socket_names_are_unique(pid_a: nat, n_a: nat, pid_b: nat, n_b: nat)
    requires
        socket_text(pid_a, n_a) == socket_text(pid_b, n_b),
    ensures
        pid_a == pid_b,
        n_a == n_b,
{
    reveal_strlit("inm-spice-");
    reveal_strlit("-");
    reveal_strlit(".sock");
    let a = socket_text(pid_a, n_a).skip(10);
    let b = socket_text(pid_b, n_b).skip(10);
    decimal_reads_back(pid_a);
    decimal_reads_back(pid_b);
    decimal_reads_back(n_a);
    decimal_reads_back(n_b);
    let tail_a = decimal(n_a) + ".sock"@;
    let tail_b = decimal(n_b) + ".sock"@;
    assert(a =~= decimal(pid_a) + seq!['-'] + tail_a);
    assert(b =~= decimal(pid_b) + seq!['-'] + tail_b);
    cut_is_unique(decimal(pid_a), tail_a, decimal(pid_b), tail_b, '-');
    decimal_injective(pid_a, pid_b);
    assert(decimal(n_a) =~= tail_a.take(tail_a.len() - 5));
    assert(decimal(n_b) =~= tail_b.take(tail_b.len() - 5));
    decimal_injective(n_a, n_b);
}

// ---------------------------------------------------------------------------
// The bytes between the local socket and the daemon
// ---------------------------------------------------------------------------

/// What a websocket delivered.
#[derive(Clone, Copy, PartialEq, Eq, Structural, Debug)]
pub enum Delivery {
    Binary,
    Close,
    Failure,
    Other,
}

/// Something that happened at one end of a console's tunnel.
#[derive(Clone, Copy, PartialEq, Eq, Structural, Debug)]
pub enum TunnelEvent {
    /// A read from the local socket: how many bytes it gave, or nothing where it
    /// failed.
    LocalRead(Option<usize>),
    /// Bytes could not be written to the local socket.
    LocalWriteFailed,
    /// A delivery of the websocket.
    Delivered(Delivery),
    /// The websocket delivers nothing any more.
    DeliveriesOver,
    /// Bytes could not be sent through the websocket.
    SendFailed,
}

/// What to do about it.
#[derive(Clone, Copy, PartialEq, Eq, Structural, Debug)]
pub enum TunnelStep {
    /// Send this many bytes of what was read to the daemon, and go on.
    ToDaemon(usize),
    /// Write the bytes that were delivered to the local socket, and go on.
    ToLocal,
    /// Go on.
    Skip,
    /// The tunnel is over, in both directions.
    End,
}

/// Whether an end of the tunnel is closed or has failed. A read of nothing means
/// that the local socket is closed.
pub open spec fn side_is_done(event: TunnelEvent) -> bool {
    match event {
        TunnelEvent::LocalRead(outcome) => outcome is None || outcome == Some(0usize),
        TunnelEvent::LocalWriteFailed => true,
        TunnelEvent::Delivered(delivery) => delivery == Delivery::Close || delivery
            == Delivery::Failure,
        TunnelEvent::DeliveriesOver => true,
        TunnelEvent::SendFailed => true,
    }
}

/// What to do after something happened at one end of the tunnel. Bytes are
/// carried over until either side closes or fails, which ends it all; what else
/// a websocket delivers means nothing here.
pub fn tunnel_step(event: TunnelEvent) -> (r: TunnelStep)
    ensures
        (r == TunnelStep::End) == side_is_done(event),
        !side_is_done(event) ==> r == (match event {
            TunnelEvent::LocalRead(Some(n)) => TunnelStep::ToDaemon(n),
            TunnelEvent::Delivered(Delivery::Binary) => TunnelStep::ToLocal,
            _ => TunnelStep::Skip,
        }),
{
    match event {
        TunnelEvent::LocalRead(Some(n)) => if n == 0 {
            TunnelStep::End
        } else {
            TunnelStep::ToDaemon(n)
        },
        TunnelEvent::LocalRead(None) => TunnelStep::End,
        TunnelEvent::LocalWriteFailed => TunnelStep::End,
        TunnelEvent::Delivered(delivery) => match delivery {
            Delivery::Binary => TunnelStep::ToLocal,
            Delivery::Close => TunnelStep::End,
            Delivery::Failure => TunnelStep::End,
            Delivery::Other => TunnelStep::Skip,
        },
        TunnelEvent::DeliveriesOver => TunnelStep::End,
        TunnelEvent::SendFailed => TunnelStep::End,
    }
}

// ---------------------------------------------------------------------------
// Input
// ---------------------------------------------------------------------------

/// An input event on its way from the user interface to a guest.
#[derive(Clone, Copy, PartialEq, Eq, Structural, Debug)]
pub enum InputEvent {
    MouseMotion { x: i32, y: i32 },
    MouseButton { button: i32, pressed: bool },
    /// One notch of the wheel, as the wheel button of its direction.
    MouseScroll { button: i32 },
    KeyPress(u32),
    KeyRelease(u32),
    Shutdown,
}

/// A motion that the next event overtakes.
pub open spec fn superseded(events: Seq<InputEvent>, i: int) -> bool {
    events[i] is MouseMotion && i + 1 < events.len() && events[i + 1] is MouseMotion
}

/// The events with every run of motions reduced to its last one.
pub open spec fn coalesced(events: Seq<InputEvent>) -> Seq<InputEvent>
    decreases events.len(),
{
    if events.len() == 0 {
        Seq::empty()
    } else if superseded(events, 0) {
        coalesced(events.drop_first())
    } else {
        seq![events[0]] + coalesced(events.drop_first())
    }
}

/// Reduces every run of motions to its final position: sending each point in
/// between floods the guest and makes its pointer lag behind.
pub fn coalesce(events: &Vec<InputEvent>) -> (r: Vec<InputEvent>)
    ensures
        r@ == coalesced(events@),
{
    let mut out: Vec<InputEvent> = Vec::new();
    let mut i: usize = 0;
    assert(events@.skip(0) =~= events@);
    assert(coalesced(events@) =~= out@ + coalesced(events@.skip(0)));
    while i < events.len()
        invariant
            i <= events@.len(),
            coalesced(events@) == out@ + coalesced(events@.skip(i as int)),
        decreases events@.len() - i,
    {
        let ghost rest = events@.skip(i as int);
        let ghost before = out@;
        assert(rest.drop_first() =~= events@.skip(i + 1));
        let overtaken: bool = matches!(events[i], InputEvent::MouseMotion { .. }) && i + 1
            < events.len() && matches!(events[i + 1], InputEvent::MouseMotion { .. });
        assert(overtaken == superseded(rest, 0));
        if !overtaken {
            out.push(events[i]);
            assert(before + coalesced(rest) =~= out@ + coalesced(rest.drop_first()));
        }
        i += 1;
    }
    assert(out@ + coalesced(events@.skip(i as int)) =~= out@);
    out
}

/// The position of the last motion among some events.
pub open spec fn last_motion(events: Seq<InputEvent>) -> Option<(i32, i32)>
    decreases events.len(),
{
    if events.len() == 0 {
        None
    } else {
        match events.last() {
            InputEvent::MouseMotion { x, y } => Some((x, y)),
            _ => last_motion(events.drop_last()),
        }
    }
}

proof fn last_motion_from_the_front(events: Seq<InputEvent>)
    requires
        events.len() > 0,
    ensures
        last_motion(events) == (match last_motion(events.drop_first()) {
            Some(p) => Some(p),
            None => match events[0] {
                InputEvent::MouseMotion { x, y } => Some((x, y)),
                _ => None,
            },
        }),
    decreases events.len(),
{
    if events.len() == 1 {
        assert(events.drop_last() =~= Seq::empty());
        assert(events.drop_first() =~= Seq::empty());
    } else {
        last_motion_from_the_front(events.drop_last());
        assert(events.drop_last().drop_first() =~= events.drop_first().drop_last());
        assert(events.drop_first().last() == events.last());
    }
}

/// Coalescing keeps where the pointer ends up.
pub proof fn coalescing_keeps_the_last_motion(events: Seq<InputEvent>)
    ensures
        last_motion(coalesced(events)) == last_motion(events),
    decreases events.len(),
{
    if events.len() > 0 {
        let rest = events.drop_first();
        coalescing_keeps_the_last_motion(rest);
        last_motion_from_the_front(events);
        if superseded(events, 0) {
            last_motion_from_the_front(rest);
        } else {
            let out = coalesced(events);
            assert(out.drop_first() =~= coalesced(rest));
            last_motion_from_the_front(out);
        }
    }
}

proof fn coalesced_head(events: Seq<InputEvent>)
    requires
        events.len() > 0,
        !superseded(events, 0),
    ensures
        coalesced(events).len() > 0,
        coalesced(events)[0] == events[0],
{
}

/// After coalescing no motion directly follows another.
pub proof fn coalescing_leaves_no_run(events: Seq<InputEvent>)
    ensures
        forall|i: int|
            0 <= i < coalesced(events).len() ==> !superseded(coalesced(events), i),
    decreases events.len(),
{
    if events.len() > 0 {
        let rest = events.drop_first();
        coalescing_leaves_no_run(rest);
        if superseded(events, 0) {
            assert(coalesced(events) == coalesced(rest));
        } else {
            let out = coalesced(events);
            let tail = coalesced(rest);
            if rest.len() > 0 && events[0] is MouseMotion {
                assert(!(rest[0] is MouseMotion));
                coalesced_head(rest);
            }
            assert forall|i: int| 0 <= i < out.len() implies !superseded(out, i) by {
                if i > 0 {
                    assert(out[i] == tail[i - 1]);
                    assert(!superseded(tail, i - 1));
                    if i + 1 < out.len() {
                        assert(out[i + 1] == tail[i]);
                    }
                } else if 1 < out.len() {
                    assert(out[1] == tail[0]);
                    assert(rest.len() > 0);
                    assert(out[0] == events[0]);
                }
            }
        }
    }
}

/// Everything but motion passes coalescing in its place: a click lands after
/// the motion that preceded it and before the motion that followed it.
pub proof fn coalescing_splits_at_a_click(
    before: Seq<InputEvent>,
    click: InputEvent,
    after: Seq<InputEvent>,
)
    requires
        !(click is MouseMotion),
    ensures
        coalesced(before + seq![click] + after) == coalesced(before) + seq![click] + coalesced(
            after,
        ),
    decreases before.len(),
{
    let all = before + seq![click] + after;
    if before.len() == 0 {
        assert(all[0] == click);
        assert(all.drop_first() =~= after);
        assert(coalesced(before) + seq![click] + coalesced(after) =~= seq![click] + coalesced(
            after,
        ));
    } else {
        let rest = before.drop_first();
        coalescing_splits_at_a_click(rest, click, after);
        assert(all.drop_first() =~= rest + seq![click] + after);
        assert(all[0] == before[0]);
        if before.len() > 1 {
            assert(all[1] == before[1]);
        } else {
            assert(all[1] == click);
        }
        assert(superseded(all, 0) == superseded(before, 0));
        if !superseded(all, 0) {
            assert(seq![before[0]] + (coalesced(rest) + seq![click] + coalesced(after)) =~= (seq![
                before[0],
            ] + coalesced(rest)) + seq![click] + coalesced(after));
        }
    }
}

/// One call into the guest's inputs channel.
#[derive(Clone, Copy, PartialEq, Eq, Structural, Debug)]
pub enum GuestCall {
    /// An absolute position, with the mask of the held buttons.
    Position { x: i32, y: i32, buttons: i32 },
    /// A relative motion, with the mask of the held buttons.
    Motion { dx: i32, dy: i32, buttons: i32 },
    ButtonPress { button: i32 },
    ButtonRelease { button: i32 },
    KeyPress(u32),
    KeyRelease(u32),
}

/// What the guest's pointer is known to be doing: where it was last sent, and
/// which buttons are down.
#[derive(Clone, Copy, PartialEq, Eq, Debug)]
pub struct Pointer {
    pub last: Option<(i32, i32)>,
    pub buttons: i32,
}

/// Where the pointer stands after an event, and what is held.
pub open spec fn pointer_after(p: Pointer, event: InputEvent) -> Pointer {
    match event {
        InputEvent::MouseMotion { x, y } => Pointer { last: Some((x, y)), ..p },
        InputEvent::MouseButton { button, pressed } => if pressed {
            Pointer { buttons: p.buttons | mask_of(button), ..p }
        } else {
            Pointer { buttons: p.buttons & !mask_of(button), ..p }
        },
        _ => p,
    }
}

/// What an event comes to in the guest. With an absolute pointer a motion is a
/// position; otherwise it is the way from where the pointer was last, and
/// nothing where that is unknown or no way at all. A notch of the wheel is a
/// click of its button.
pub open spec fn guest_calls(p: Pointer, event: InputEvent, absolute: bool) -> Seq<GuestCall> {
    match event {
        InputEvent::MouseMotion { x, y } => if absolute {
            seq![GuestCall::Position { x, y, buttons: p.buttons }]
        } else {
            match p.last {
                Some((px, py)) => if x != px || y != py {
                    seq![
                        GuestCall::Motion {
                            dx: (x - px) as i32,
                            dy: (y - py) as i32,
                            buttons: p.buttons,
                        },
                    ]
                } else {
                    Seq::empty()
                },
                None => Seq::empty(),
            }
        },
        InputEvent::MouseButton { button, pressed } => if pressed {
            seq![GuestCall::ButtonPress { button }]
        } else {
            seq![GuestCall::ButtonRelease { button }]
        },
        InputEvent::MouseScroll { button } => seq![
            GuestCall::ButtonPress { button },
            GuestCall::ButtonRelease { button },
        ],
        InputEvent::KeyPress(code) => seq![GuestCall::KeyPress(code)],
        InputEvent::KeyRelease(code) => seq![GuestCall::KeyRelease(code)],
        InputEvent::Shutdown => Seq::empty(),
    }
}

/// Whether the way to an event's position can be told in 32 bits.
pub open spec fn in_reach(p: Pointer, event: InputEvent, absolute: bool) -> bool {
    match (event, p.last) {
        (InputEvent::MouseMotion { x, y }, Some((px, py))) => absolute || (i32::MIN <= x - px
            <= i32::MAX && i32::MIN <= y - py <= i32::MAX),
        _ => true,
    }
}

impl Pointer {
    pub fn new() -> (r: Self)
        ensures
            r.last is None,
            r.buttons == 0,
    {
        Pointer { last: None, buttons: 0 }
    }

    /// Whether `apply` can take an event: it is no shutdown, and the way to its
    /// position can be told in 32 bits.
    pub fn accepts(&self, event: InputEvent, absolute: bool) -> (r: bool)
        ensures
            r == (!(event is Shutdown) && in_reach(*self, event, absolute)),
    {
        match event {
            InputEvent::MouseMotion { x, y } => match self.last {
                Some((px, py)) => absolute || (x.checked_sub(px).is_some() && y.checked_sub(
                    py,
                ).is_some()),
                None => true,
            },
            InputEvent::Shutdown => false,
            _ => true,
        }
    }

    /// Turns one event into calls into the guest.
    pub fn apply(&mut self, event: InputEvent, absolute: bool) -> (r: Vec<GuestCall>)
        requires
            !(event is Shutdown),
            in_reach(*old(self), event, absolute),
        ensures
            r@ == guest_calls(*old(self), event, absolute),
            *final(self) == pointer_after(*old(self), event),
    {
        let mut out: Vec<GuestCall> = Vec::new();
        match event {
            InputEvent::MouseMotion { x, y } => {
                if absolute {
                    out.push(GuestCall::Position { x, y, buttons: self.buttons });
                } else if let Some((px, py)) = self.last {
                    let dx: i32 = x - px;
                    let dy: i32 = y - py;
                    if dx != 0 || dy != 0 {
                        out.push(GuestCall::Motion { dx, dy, buttons: self.buttons });
                    }
                }
                self.last = Some((x, y));
            },
            InputEvent::MouseButton { button, pressed } => {
                if pressed {
                    out.push(GuestCall::ButtonPress { button });
                    self.buttons = self.buttons | button_mask(button);
                } else {
                    out.push(GuestCall::ButtonRelease { button });
                    self.buttons = self.buttons & !button_mask(button);
                }
            },
            InputEvent::MouseScroll { button } => {
                out.push(GuestCall::ButtonPress { button });
                out.push(GuestCall::ButtonRelease { button });
            },
            InputEvent::KeyPress(code) => {
                out.push(GuestCall::KeyPress(code));
            },
            InputEvent::KeyRelease(code) => {
                out.push(GuestCall::KeyRelease(code));
            },
            InputEvent::Shutdown => {},
        }
        assert(out@ =~= guest_calls(*old(self), event, absolute));
        out
    }
}

/// Motion in the middle of a drag tells the guest that the button is still
/// down, whatever else is held; once it is released it says so no more.
pub proof fn a_drag_keeps_its_button(p: Pointer, button: i32, x: i32, y: i32)
    requires
        is_button(button),
    ensures
        ({
            let held = pointer_after(p, InputEvent::MouseButton { button, pressed: true });
            let freed = pointer_after(held, InputEvent::MouseButton { button, pressed: false });
            let motion = InputEvent::MouseMotion { x, y };
            &&& held.buttons & mask_of(button) == mask_of(button)
            &&& pointer_after(held, motion).buttons == held.buttons
            &&& guest_calls(held, motion, true) == seq![
                GuestCall::Position { x, y, buttons: held.buttons },
            ]
            &&& freed.buttons & mask_of(button) == 0
            &&& guest_calls(freed, motion, true) == seq![
                GuestCall::Position { x, y, buttons: freed.buttons },
            ]
        }),
{
    let b = p.buttons;
    let m = mask_of(button);
    assert((b | m) & m == m && ((b | m) & !m) & m == 0) by (bit_vector);
}

/// Pressing and releasing one button leaves the other buttons as they are.
pub proof fn buttons_are_independent(p: Pointer, button: i32, other: i32, pressed: bool)
    requires
        is_button(button),
        is_button(other),
        button != other,
    ensures
        pointer_after(p, InputEvent::MouseButton { button, pressed }).buttons & mask_of(other)
            == p.buttons & mask_of(other),
{
    masks_are_distinct_bits(button, other);
    let b = p.buttons;
    let m = mask_of(button);
    let o = mask_of(other);
    assert((b | m) & o == b & o && (b & !m) & o == b & o) by (bit_vector)
        requires
            m & o == 0,
    ;
}

/// Where the pointer stands, and what is held, after some events.
pub open spec fn pointer_after_all(p: Pointer, events: Seq<InputEvent>) -> Pointer
    decreases events.len(),
{
    if events.len() == 0 {
        p
    } else {
        pointer_after(pointer_after_all(p, events.drop_last()), events.last())
    }
}

/// How far one event's calls move the guest's pointer.
pub open spec fn moved_by(calls: Seq<GuestCall>) -> (int, int) {
    if calls.len() == 1 {
        match calls[0] {
            GuestCall::Motion { dx, dy, .. } => (dx as int, dy as int),
            _ => (0, 0),
        }
    } else {
        (0, 0)
    }
}

/// The way that some events make the guest's pointer go in relative mode: the
/// sum of the motions that are sent for them.
pub open spec fn way(p: Pointer, events: Seq<InputEvent>) -> (int, int)
    decreases events.len(),
{
    if events.len() == 0 {
        (0, 0)
    } else {
        let (x, y) = way(p, events.drop_last());
        let at = pointer_after_all(p, events.drop_last());
        let (dx, dy) = moved_by(guest_calls(at, events.last(), false));
        (x + dx, y + dy)
    }
}

/// Whether every step of the way can be told in 32 bits.
pub open spec fn all_in_reach(p: Pointer, events: Seq<InputEvent>) -> bool
    decreases events.len(),
{
    events.len() > 0 ==> all_in_reach(p, events.drop_last()) && in_reach(
        pointer_after_all(p, events.drop_last()),
        events.last(),
        false,
    )
}

proof fn pointer_ends_at_the_last_motion(p: Pointer, events: Seq<InputEvent>)
    ensures
        pointer_after_all(p, events).last == (match last_motion(events) {
            Some(q) => Some(q),
            None => p.last,
        }),
    decreases events.len(),
{
    if events.len() > 0 {
        pointer_ends_at_the_last_motion(p, events.drop_last());
    }
}

proof fn way_is_the_displacement(p: Pointer, events: Seq<InputEvent>)
    requires
        p.last is Some,
        all_in_reach(p, events),
    ensures
        pointer_after_all(p, events).last matches Some((x, y)) && p.last matches Some((px, py))
            && way(p, events) == (x - px, y - py),
    decreases events.len(),
{
    if events.len() > 0 {
        way_is_the_displacement(p, events.drop_last());
    }
}

/// In relative mode too, coalescing does not change how far the guest's pointer
/// goes: the deltas that are sent add up to the same way.
pub proof fn coalescing_keeps_the_way(p: Pointer, events: Seq<InputEvent>)
    requires
        p.last is Some,
        all_in_reach(p, events),
        all_in_reach(p, coalesced(events)),
    ensures
        way(p, coalesced(events)) == way(p, events),
{
    way_is_the_displacement(p, events);
    way_is_the_displacement(p, coalesced(events));
    pointer_ends_at_the_last_motion(p, events);
    pointer_ends_at_the_last_motion(p, coalesced(events));
    coalescing_keeps_the_last_motion(events);
}

// ---------------------------------------------------------------------------
// The console as the user interface and the session share it
// ---------------------------------------------------------------------------

/// A running console, shared by the user interface and the thread that serves
/// the session.
pub struct ConsoleHandle {
    /// Input that the session has not fetched yet, oldest first.
    pub input: Vec<InputEvent>,
    /// A frame has been handed to the user interface and not been painted yet.
    pub frame_in_flight: bool,
    /// The pointer mode of the guest.
    pub mouse_mode: i32,
    /// Whether this console is the one on screen.
    pub visible: bool,
    /// The guest's screen has changed since the last frame.
    pub dirty: bool,
    /// The session goes on.
    pub alive: bool,
}

/// What the frame timer of a session does on a tick.
#[derive(Clone, Copy, PartialEq, Eq, Structural, Debug)]
pub enum Tick {
    /// The session is over: stop the timer.
    Stop,
    /// Nothing to do now.
    Wait,
    /// Turn the screen into a frame.
    Build,
}

pub open spec fn asks_for_shutdown(events: Seq<InputEvent>) -> bool {
    exists|i: int| 0 <= i < events.len() && #[trigger] events[i] is Shutdown
}

/// What fetching the queued input comes to.
pub open spec fn input_taken(
    before: ConsoleHandle,
    after: ConsoleHandle,
    r: Option<Vec<InputEvent>>,
) -> bool {
    &&& r is None <==> asks_for_shutdown(before.input@)
    &&& r matches Some(events) ==> events@ == coalesced(before.input@)
    &&& after.input@ == Seq::<InputEvent>::empty()
    &&& after == (ConsoleHandle { input: after.input, alive: before.alive && r is Some, ..before })
}

/// What a tick of the frame timer comes to.
pub open spec fn ticks(before: ConsoleHandle, after: ConsoleHandle, r: Tick) -> bool {
    &&& r == (if !before.alive {
        Tick::Stop
    } else if before.visible && !before.frame_in_flight && before.dirty {
        Tick::Build
    } else {
        Tick::Wait
    })
    &&& after == (ConsoleHandle { dirty: before.dirty && r != Tick::Build, ..before })
}

/// What handing a frame over comes to.
pub open spec fn sends(
    before: ConsoleHandle,
    after: ConsoleHandle,
    delivered: bool,
    r: Tick,
) -> bool {
    &&& r == (if delivered {
        Tick::Wait
    } else {
        Tick::Stop
    })
    &&& after == (ConsoleHandle {
        frame_in_flight: true,
        alive: before.alive && delivered,
        ..before
    })
}

impl ConsoleHandle {
    /// A console that has just been opened: on screen, because it was opened to
    /// be seen, and with a relative pointer until the guest says otherwise.
    pub fn new() -> (r: Self)
        ensures
            r.input@ == Seq::<InputEvent>::empty(),
            !r.frame_in_flight,
            r.mouse_mode == MOUSE_MODE_SERVER,
            r.visible,
            !r.dirty,
            r.alive,
    {
        ConsoleHandle {
            input: Vec::new(),
            frame_in_flight: false,
            mouse_mode: MOUSE_MODE_SERVER,
            visible: true,
            dirty: false,
            alive: true,
        }
    }

    /// Queues an event for the guest.
    pub fn send_input(&mut self, event: InputEvent)
        ensures
            final(self).input@ == old(self).input@.push(event),
            *final(self) == (ConsoleHandle { input: final(self).input, ..*old(self) }),
    {
        self.input.push(event);
    }

    /// The user interface has painted the frame it was given, which lets the
    /// session build the next one.
    pub fn frame_painted(&mut self)
        ensures
            *final(self) == (ConsoleHandle { frame_in_flight: false, ..*old(self) }),
    {
        self.frame_in_flight = false;
    }

    /// A console in the background stays connected and builds no frames.
    pub fn set_visible(&mut self, visible: bool)
        ensures
            *final(self) == (ConsoleHandle { visible, ..*old(self) }),
    {
        self.visible = visible;
    }

    /// The guest has settled on a pointer mode.
    pub fn set_mouse_mode(&mut self, mode: i32)
        ensures
            *final(self) == (ConsoleHandle { mouse_mode: mode, ..*old(self) }),
    {
        self.mouse_mode = mode;
    }

    /// The guest's screen has changed.
    pub fn screen_changed(&mut self)
        ensures
            *final(self) == (ConsoleHandle { dirty: true, ..*old(self) }),
    {
        self.dirty = true;
    }

    /// Whether the guest takes absolute pointer positions.
    pub fn absolute_pointer(&self) -> (r: bool)
        ensures
            r == (self.mouse_mode == MOUSE_MODE_CLIENT),
    {
        self.mouse_mode == MOUSE_MODE_CLIENT
    }

    /// Asks the session to end.
    pub fn stop(&mut self)
        ensures
            final(self).input@ == old(self).input@.push(InputEvent::Shutdown),
            *final(self) == (ConsoleHandle { input: final(self).input, ..*old(self) }),
    {
        self.send_input(InputEvent::Shutdown);
    }

    /// Fetches the queued input for the guest, with runs of motion reduced to
    /// their final position. `None` means that a shutdown was among it: the
    /// session is over and nothing more is sent.
    pub fn take_input(&mut self) -> (r: Option<Vec<InputEvent>>)
        ensures
            input_taken(*old(self), *final(self), r),
    {
        let mut i: usize = 0;
        while i < self.input.len()
            invariant
                i <= self.input@.len(),
                *self == *old(self),
                forall|j: int| 0 <= j < i ==> !(#[trigger] self.input@[j] is Shutdown),
            decreases self.input@.len() - i,
        {
            if matches!(self.input[i], InputEvent::Shutdown) {
                assert(asks_for_shutdown(self.input@));
                self.input = Vec::new();
                self.alive = false;
                return None;
            }
            i += 1;
        }
        let events: Vec<InputEvent> = coalesce(&self.input);
        self.input = Vec::new();
        Some(events)
    }

    /// One tick of the frame timer. A frame is built only of a changed screen
    /// that is being looked at, and never while the user interface still owes a
    /// paint for the last one: the renderer sets the pace. A change on a hidden
    /// screen stays noted, so that it is painted as soon as it is shown.
    pub fn tick(&mut self) -> (r: Tick)
        ensures
            ticks(*old(self), *final(self), r),
    {
        if !self.alive {
            return Tick::Stop;
        }
        if !self.visible {
            return Tick::Wait;
        }
        if self.frame_in_flight {
            return Tick::Wait;
        }
        if self.dirty {
            self.dirty = false;
            Tick::Build
        } else {
            Tick::Wait
        }
    }

    /// A frame has been handed over; where nobody took it the session is over.
    pub fn frame_sent(&mut self, delivered: bool) -> (r: Tick)
        ensures
            sends(*old(self), *final(self), delivered, r),
    {
        self.frame_in_flight = true;
        if delivered {
            Tick::Wait
        } else {
            self.alive = false;
            Tick::Stop
        }
    }
}

/// A stop is heard whatever input is still queued, before it or behind it.
pub proof fn a_stop_is_heard(before: Seq<InputEvent>, behind: Seq<InputEvent>)
    ensures
        asks_for_shutdown(before.push(InputEvent::Shutdown) + behind),
{
    assert((before.push(InputEvent::Shutdown) + behind)[before.len() as int] is Shutdown);
}

// ---------------------------------------------------------------------------
// Frames
// ---------------------------------------------------------------------------

/// The pixel format of a guest's screen.
#[derive(Clone, Copy, PartialEq, Eq, Structural, Debug)]
pub enum SurfaceFormat {
    Xrgb32,
    Argb32,
    Other,
}

/// Whether a screen can be turned into a frame: its pixels have 32 bits, there
/// are some, and its last row lies within the data.
pub open spec fn convertible(
    format: SurfaceFormat,
    width: int,
    height: int,
    stride: int,
    len: int,
) -> bool {
    &&& format != SurfaceFormat::Other
    &&& width > 0
    &&& height > 0
    &&& (height - 1) * stride + width * 4 <= len
}

/// Byte `k` of a frame `width` pixels wide: alpha is opaque, every other byte is
/// that of the screen, whose rows begin `stride` bytes apart.
pub open spec fn frame_byte(data: Seq<u8>, width: int, stride: int, k: int) -> u8 {
    let row = width * 4;
    if k % 4 == 3 {
        255
    } else {
        data[(k / row) * stride + k % row]
    }
}

/// The bytes of a frame: the rows of the screen without the gaps between them.
pub open spec fn frame_bytes(data: Seq<u8>, width: int, height: int, stride: int) -> Seq<u8> {
    Seq::new((width * 4 * height) as nat, |k: int| frame_byte(data, width, stride, k))
}

/// Copies a guest's screen into the bytes of a frame.
///
/// The bytes are in BGRA order already, which is what a frame wants. Alpha is
/// made opaque, because the X of 32XRGB carries none and zero would be drawn
/// fully transparent.
pub fn primary_to_image(
    format: SurfaceFormat,
    width: usize,
    height: usize,
    stride: usize,
    data: &[u8],
) -> (r: Option<Vec<u8>>)
    ensures
        r is Some <==> convertible(
            format,
            width as int,
            height as int,
            stride as int,
            data@.len() as int,
        ),
        r matches Some(pixels) ==> pixels@ == frame_bytes(
            data@,
            width as int,
            height as int,
            stride as int,
        ),
{
    if matches!(format, SurfaceFormat::Other) || width == 0 || height == 0 {
        return None;
    }
    let len: usize = data.len();
    assert((height - 1) * stride >= 0) by (nonlinear_arith)
        requires
            height >= 1,
            stride >= 0,
    ;
    if width > len / 4 {
        return None;
    }
    let row: usize = width * 4;
    let mut pixels: Vec<u8> = Vec::new();
    let mut start: usize = 0;
    let mut y: usize = 0;
    assert(0 * stride == 0) by (nonlinear_arith);
    assert(0 * row == 0) by (nonlinear_arith);
    while y < height
        invariant
            y <= height,
            height > 0,
            width > 0,
            row == width * 4,
            row <= len,
            len == data@.len(),
            format != SurfaceFormat::Other,
            y < height ==> start == y * stride,
            y == height ==> (height - 1) * stride + row <= len,
            start <= len,
            pixels@.len() == y * row,
            forall|k: int|
                0 <= k < pixels@.len() ==> #[trigger] pixels@[k] == frame_byte(
                    data@,
                    width as int,
                    stride as int,
                    k,
                ),
        decreases height - y,
    {
        assert(y * stride <= (height - 1) * stride) by (nonlinear_arith)
            requires
                y <= height - 1,
                stride >= 0,
        ;
        if start > len - row {
            return None;
        }
        let mut x: usize = 0;
        while x < row
            invariant
                x <= row,
                row == width * 4,
                width > 0,
                len == data@.len(),
                start == y * stride,
                start + row <= len,
                pixels@.len() == y * row + x,
                forall|k: int|
                    0 <= k < pixels@.len() ==> #[trigger] pixels@[k] == frame_byte(
                        data@,
                        width as int,
                        stride as int,
                        k,
                    ),
            decreases row - x,
        {
            let byte: u8 = if x % 4 == 3 {
                255
            } else {
                data[start + x]
            };
            proof {
                let k = y * row + x;
                lemma_fundamental_div_mod_converse(k, row as int, y as int, x as int);
                assert(k == 4 * (y * width) + x) by (nonlinear_arith)
                    requires
                        k == y * row + x,
                        row == width * 4,
                ;
                assert(k % 4 == x % 4);
                assert(byte == frame_byte(data@, width as int, stride as int, k));
            }
            pixels.push(byte);
            x += 1;
        }
        assert((y + 1) * row == y * row + row) by (nonlinear_arith);
        assert((y + 1) * stride == y * stride + stride) by (nonlinear_arith);
        y += 1;
        if y < height {
            assert(y * stride <= (height - 1) * stride) by (nonlinear_arith)
                requires
                    y <= height - 1,
                    stride >= 0,
            ;
            if stride > len - start {
                return None;
            }
            start += stride;
        }
    }
    assert(height * row == width * 4 * height) by (nonlinear_arith)
        requires
            row == width * 4,
    ;
    assert(pixels@ =~= frame_bytes(data@, width as int, height as int, stride as int));
    Some(pixels)
}

/// Every pixel of a frame is opaque and has the colour of the screen's pixel at
/// its place.
pub proof fn frames_show_the_screen(
    data: Seq<u8>,
    width: int,
    height: int,
    stride: int,
    x: int,
    y: int,
)
    requires
        0 <= x < width,
        0 <= y < height,
    ensures
        ({
            let frame = frame_bytes(data, width, height, stride);
            let at = (y * width + x) * 4;
            let from = y * stride + x * 4;
            &&& at + 4 <= frame.len()
            &&& frame[at] == data[from]
            &&& frame[at + 1] == data[from + 1]
            &&& frame[at + 2] == data[from + 2]
            &&& frame[at + 3] == 255
        }),
{
    let row = width * 4;
    let at = (y * width + x) * 4;
    assert(at == y * row + x * 4) by (nonlinear_arith)
        requires
            at == (y * width + x) * 4,
            row == width * 4,
    ;
    assert(y * row + row <= height * row) by (nonlinear_arith)
        requires
            y + 1 <= height,
            row >= 0,
    ;
    assert(height * row == width * 4 * height) by (nonlinear_arith)
        requires
            row == width * 4,
    ;
    lemma_fundamental_div_mod_converse(at, row, y, x * 4);
    lemma_fundamental_div_mod_converse(at + 1, row, y, x * 4 + 1);
    lemma_fundamental_div_mod_converse(at + 2, row, y, x * 4 + 2);
    lemma_fundamental_div_mod_converse(at + 3, row, y, x * 4 + 3);
    let frame = frame_bytes(data, width, height, stride);
    assert(frame[at] == frame_byte(data, width, stride, at));
    assert(frame[at + 1] == frame_byte(data, width, stride, at + 1));
    assert(frame[at + 2] == frame_byte(data, width, stride, at + 2));
    assert(frame[at + 3] == frame_byte(data, width, stride, at + 3));
}

// ---------------------------------------------------------------------------
// What the operations amount to
// ---------------------------------------------------------------------------

/// Keys reach the guest with the codes they were sent with, whatever the pointer
/// does, and buttons with their numbers.
pub proof fn keys_and_buttons_reach_the_guest(
    p: Pointer,
    absolute: bool,
    code: u32,
    button: i32,
)
    ensures
        guest_calls(p, InputEvent::KeyPress(code), absolute) =~= seq![GuestCall::KeyPress(code)],
        guest_calls(p, InputEvent::KeyRelease(code), absolute) =~= seq![
            GuestCall::KeyRelease(code),
        ],
        guest_calls(p, InputEvent::MouseButton { button, pressed: true }, absolute) =~= seq![
            GuestCall::ButtonPress { button },
        ],
        guest_calls(p, InputEvent::MouseButton { button, pressed: false }, absolute) =~= seq![
            GuestCall::ButtonRelease { button },
        ],
        guest_calls(p, InputEvent::MouseScroll { button }, absolute) =~= seq![
            GuestCall::ButtonPress { button },
            GuestCall::ButtonRelease { button },
        ],
        pointer_after(p, InputEvent::KeyPress(code)) == p,
        pointer_after(p, InputEvent::KeyRelease(code)) == p,
        pointer_after(p, InputEvent::MouseScroll { button }) == p,
{
}

/// The pointer goes where it is sent: to the position itself where the guest takes
/// positions, and otherwise the rest of the way from where it was, if there is
/// any. Either way that is where it is afterwards.
pub proof fn the_pointer_goes_where_it_is_sent(p: Pointer, x: i32, y: i32, absolute: bool)
    requires
        in_reach(p, InputEvent::MouseMotion { x, y }, absolute),
    ensures
        pointer_after(p, InputEvent::MouseMotion { x, y }).last == Some((x, y)),
        pointer_after(p, InputEvent::MouseMotion { x, y }).buttons == p.buttons,
        absolute ==> guest_calls(p, InputEvent::MouseMotion { x, y }, absolute) =~= seq![
            GuestCall::Position { x, y, buttons: p.buttons },
        ],
        !absolute && p.last is None ==> guest_calls(
            p,
            InputEvent::MouseMotion { x, y },
            absolute,
        ).len() == 0,
        !absolute && p.last is Some ==> ({
            let calls = guest_calls(p, InputEvent::MouseMotion { x, y }, absolute);
            let (px, py) = p.last.unwrap();
            &&& calls.len() == 0 <==> x == px && y == py
            &&& calls.len() > 0 ==> calls.len() == 1 && (calls[0] matches GuestCall::Motion {
                dx,
                dy,
                buttons,
            } && px + dx == x && py + dy == y && buttons == p.buttons)
        }),
{
}

/// Coalescing loses nothing but motions: every other event stays, in its order.
pub proof fn coalescing_loses_only_motions(events: Seq<InputEvent>)
    ensures
        coalesced(events).filter(|e: InputEvent| !(e is MouseMotion)) == events.filter(
            |e: InputEvent| !(e is MouseMotion),
        ),
    decreases events.len(),
{
    if events.len() > 0 {
        let rest = events.drop_first();
        let head = seq![events[0]];
        coalescing_loses_only_motions(rest);
        assert(events =~= head + rest);
        Seq::filter_distributes_over_add(head, rest, |e: InputEvent| !(e is MouseMotion));
        Seq::filter_distributes_over_add(
            head,
            coalesced(rest),
            |e: InputEvent| !(e is MouseMotion),
        );
        reveal_with_fuel(Seq::filter, 3);
        if superseded(events, 0) {
            assert(head.drop_last() =~= Seq::empty());
            assert(head.filter(|e: InputEvent| !(e is MouseMotion)) =~= Seq::empty());
            assert(events.filter(|e: InputEvent| !(e is MouseMotion)) =~= rest.filter(
                |e: InputEvent| !(e is MouseMotion),
            ));
        }
    } else {
        assert(coalesced(events) =~= events);
    }
}

/// A session ends by a stop alone: input without one never ends it.
pub proof fn only_a_stop_ends_a_session(events: Seq<InputEvent>)
    requires
        !events.contains(InputEvent::Shutdown),
    ensures
        !asks_for_shutdown(events),
{
    if asks_for_shutdown(events) {
        let i = choose|i: int| 0 <= i < events.len() && #[trigger] events[i] is Shutdown;
        assert(events[i] == InputEvent::Shutdown);
    }
}

/// A screen is shown exactly if it has pixels, in a format with 32 bits each, and
/// all of them are there.
pub proof fn screens_are_shown_whole(
    format: SurfaceFormat,
    width: int,
    height: int,
    stride: int,
    len: int,
)
    requires
        width >= 0,
        height >= 0,
        stride >= 0,
    ensures
        convertible(format, width, height, stride, len) <==> format != SurfaceFormat::Other && width
            > 0 && height > 0 && (forall|x: int, y: int|
            0 <= x < width && 0 <= y < height ==> #[trigger] pixel_end(stride, x, y) <= len),
        frame_bytes(Seq::empty(), width, height, stride).len() == width * 4 * height,
{
    assert(width * 4 * height >= 0) by (nonlinear_arith)
        requires
            width >= 0,
            height >= 0,
    ;
    if format != SurfaceFormat::Other && width > 0 && height > 0 {
        if convertible(format, width, height, stride, len) {
            assert forall|x: int, y: int| 0 <= x < width && 0 <= y < height implies
                #[trigger] pixel_end(stride, x, y) <= len by {
                assert(y * stride <= (height - 1) * stride) by (nonlinear_arith)
                    requires
                        y <= height - 1,
                        stride >= 0,
                ;
            }
        }
        if forall|x: int, y: int|
            0 <= x < width && 0 <= y < height ==> #[trigger] pixel_end(stride, x, y) <= len {
            assert(pixel_end(stride, width - 1, height - 1) <= len);
        }
    }
}

/// Where a pixel of a screen ends in its data.
pub open spec fn pixel_end(stride: int, x: int, y: int) -> int {
    y * stride + x * 4 + 4
}

/// The tunnel carries bytes on as long as both sides do: what is read goes to the
/// daemon, what is delivered goes to the local side, and only a close or a failure
/// of one of them ends it.
pub proof fn the_tunnel_ends_with_a_side(n: usize, delivery: Delivery)
    ensures
        side_is_done(TunnelEvent::LocalRead(None)),
        side_is_done(TunnelEvent::LocalRead(Some(n))) <==> n == 0,
        side_is_done(TunnelEvent::Delivered(delivery)) <==> delivery == Delivery::Close || delivery
            == Delivery::Failure,
        side_is_done(TunnelEvent::LocalWriteFailed),
        side_is_done(TunnelEvent::SendFailed),
        side_is_done(TunnelEvent::DeliveriesOver),
{
}

/// A frame is built of a changed screen that is looked at, and of no other; a
/// change that is not shown yet stays noted.
pub proof fn frames_are_built_of_what_is_seen(before: ConsoleHandle, after: ConsoleHandle, r: Tick)
    requires
        ticks(before, after, r),
    ensures
        r == Tick::Build <==> before.alive && before.visible && before.dirty
            && !before.frame_in_flight,
        r == Tick::Stop <==> !before.alive,
        r == Tick::Build ==> !after.dirty,
        r != Tick::Build ==> after.dirty == before.dirty,
        after.alive == before.alive && after.visible == before.visible && after.frame_in_flight
            == before.frame_in_flight && after.input == before.input && after.mouse_mode
            == before.mouse_mode,
{
}

/// No frame is built while the last one waits to be painted, however the screen
/// changes meanwhile; a frame that nobody took ends the session.
pub proof fn frames_wait_for_the_painting(
    before: ConsoleHandle,
    sent: ConsoleHandle,
    changed: ConsoleHandle,
    after: ConsoleHandle,
    delivered: bool,
    step: Tick,
    r: Tick,
)
    requires
        sends(before, sent, delivered, step),
        changed == (ConsoleHandle { dirty: true, ..sent }),
        ticks(changed, after, r),
    ensures
        r != Tick::Build,
        !delivered ==> step == Tick::Stop && r == Tick::Stop,
        delivered && before.alive ==> step == Tick::Wait && r == Tick::Wait && after.dirty,
{
}

/// Input is fetched once: nothing is left behind, everything but overtaken motions
/// comes out, and a stop ends the session.
pub proof fn input_is_fetched_once(
    before: ConsoleHandle,
    after: ConsoleHandle,
    r: Option<Vec<InputEvent>>,
)
    requires
        input_taken(before, after, r),
    ensures
        after.input@.len() == 0,
        before.input@.contains(InputEvent::Shutdown) ==> r is None && !after.alive,
        !before.input@.contains(InputEvent::Shutdown) ==> r is Some && after.alive == before.alive,
        r matches Some(events) ==> events@.filter(|e: InputEvent| !(e is MouseMotion))
            == before.input@.filter(|e: InputEvent| !(e is MouseMotion)) && last_motion(events@)
            == last_motion(before.input@),
        after.visible == before.visible && after.dirty == before.dirty && after.frame_in_flight
            == before.frame_in_flight,
{
    coalescing_loses_only_motions(before.input@);
    coalescing_keeps_the_last_motion(before.input@);
    if !before.input@.contains(InputEvent::Shutdown) {
        only_a_stop_ends_a_session(before.input@);
    } else {
        let i = choose|i: int|
            0 <= i < before.input@.len() && before.input@[i] == InputEvent::Shutdown;
        assert(before.input@[i] is Shutdown);
    }
}

/// The pointer modes have the numbers that SPICE gives them.
pub proof fn pointer_modes_are_numbered()
    ensures
        MOUSE_MODE_SERVER == 1,
        MOUSE_MODE_CLIENT == 2,
{
}

/// A button that goes down is held, with all that were; one that goes up is not
/// held any more, and all others still are.
pub proof fn buttons_are_held_until_released(p: Pointer, button: i32)
    requires
        1 <= button <= 7,
    ensures
        pointer_after(p, InputEvent::MouseButton { button, pressed: true }).buttons == p.buttons
            | mask_of(button),
        pointer_after(p, InputEvent::MouseButton { button, pressed: true }).buttons & p.buttons
            == p.buttons,
        pointer_after(p, InputEvent::MouseButton { button, pressed: false }).buttons | mask_of(
            button,
        ) == p.buttons | mask_of(button),
        pointer_after(p, InputEvent::MouseButton { button, pressed: false }).buttons & mask_of(
            button,
        ) == 0,
        pointer_after(p, InputEvent::MouseButton { button, pressed: true }).last == p.last,
        pointer_after(p, InputEvent::MouseButton { button, pressed: false }).last == p.last,
{
    let b = p.buttons;
    let m = mask_of(button);
    assert((b | m) & b == b && ((b & !m) | m) == (b | m) && (b & !m) & m == 0) by (bit_vector);
}

} // verus!
