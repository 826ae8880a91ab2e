//! The state of the user interface and everything that changes it.
//!
//! Drawing, timers, and whatever talks to the daemon or a guest happen outside:
//! events come in as calls, and what is to be done about them goes out as
//! results.

use std::collections::VecDeque;
use vstd::prelude::*;

pub mod dialogs;
pub mod frames;
pub mod keys;
pub mod palette;
pub mod remotes;
pub mod sidebar;
pub mod tab_bar;
pub mod tabs;

use crate::incus::{id_of, Vm, VmId};
use crate::manager::dialogs::VmDetails;
use crate::manager::palette::Palette;
use crate::manager::sidebar::{grouped_vms, groups_view, lowered_names, Group};
use crate::manager::tabs::{
    active_is_open, groups_are_contiguous, one_console_each, only_active_is_visible, ConsoleTab,
};
use crate::scancode::HostLayout;
use crate::text::{lowercase, texts};

verus! {

/// The modifier keys of the host. `platform` is Cmd, or the Windows key.
#[derive(Clone, Copy, PartialEq, Eq, Structural, Debug)]
pub struct Modifiers {
    pub control: bool,
    pub alt: bool,
    pub shift: bool,
    pub platform: bool,
}

/// A key as the host reports it: its name, what it types, if anything, and the
/// modifiers held with it.
pub struct Keystroke {
    pub modifiers: Modifiers,
    pub key: String,
    pub key_char: Option<String>,
}

/// A key that is down in a guest: whose console that is, the key, and the
/// scancode it was pressed with.
pub struct GuestKey {
    pub console: VmId,
    pub key: String,
    pub code: u32,
}

/// The part of the window that takes the keyboard.
#[derive(Clone, Copy, PartialEq, Eq, Structural, Debug)]
pub enum Focus {
    Console,
    Filter,
    Palette,
    Rename,
}

/// A change of a machine's power.
#[derive(Clone, Copy, PartialEq, Eq, Structural, Debug)]
pub enum PowerAction {
    Start,
    Stop,
    Restart,
}

impl PowerAction {
    /// The daemon's word for it.
    pub open spec fn word(self) -> Seq<char> {
        match self {
            PowerAction::Start => "start"@,
            PowerAction::Stop => "stop"@,
            PowerAction::Restart => "restart"@,
        }
    }

    pub fn name(self) -> (r: &'static str)
        ensures
            r@ == self.word(),
    {
        match self {
            PowerAction::Start => "start",
            PowerAction::Stop => "stop",
            PowerAction::Restart => "restart",
        }
    }
}

/// Work to be done outside.
pub enum Command {
    /// Fetch the list of machines again.
    Refresh,
    /// Fetch the list of machines of another remote, and listen to its events.
    Reload,
    /// Connect to a machine's console.
    Connect(VmId),
    /// End a machine's console.
    EndConsole(VmId),
    /// Change a machine's power.
    Power { id: VmId, action: PowerAction },
    /// Fetch what there is to know of a machine.
    FetchDetails(VmId),
    /// Give a machine another name.
    Rename { id: VmId, name: String },
}

/// What an event asks of the outside: to repaint, to move the keyboard, to do
/// some work.
pub struct Reaction {
    pub repaint: bool,
    pub focus: Option<Focus>,
    pub command: Option<Command>,
}

impl Reaction {
    /// Nothing is asked for.
    pub open spec fn idle(self) -> bool {
        !self.repaint && self.focus is None && self.command is None
    }

    /// A repaint is asked for, and nothing else.
    pub open spec fn repaints(self) -> bool {
        self.repaint && self.focus is None && self.command is None
    }

    /// A repaint is asked for, with the keyboard moved, and nothing else.
    pub open spec fn repaints_with(self, focus: Focus) -> bool {
        self.repaint && self.focus == Some(focus) && self.command is None
    }

    /// A repaint is asked for, some work, and nothing else.
    pub open spec fn repaints_and(self, command: Command) -> bool {
        self.repaint && self.focus is None && self.command == Some(command)
    }

    pub fn none() -> (r: Self)
        ensures
            r.idle(),
    {
        Reaction { repaint: false, focus: None, command: None }
    }

    pub fn repaint() -> (r: Self)
        ensures
            r.repaints(),
    {
        Reaction { repaint: true, focus: None, command: None }
    }

    pub fn repaint_with(focus: Focus) -> (r: Self)
        ensures
            r.repaints_with(focus),
    {
        Reaction { repaint: true, focus: Some(focus), command: None }
    }
}

/// The state of the user interface.
pub struct IncusManager {
    /// Every machine of the daemon, as it was listed last.
    pub vms: Vec<Vm>,
    /// Open console tabs, in the order of the tab bar.
    pub tabs: Vec<ConsoleTab>,
    /// Which tab is shown; it is also where keyboard and mouse input goes.
    pub active: Option<VmId>,
    /// Machines that are being connected, shown as pending tabs so that a click
    /// has an effect at once.
    pub connecting: Vec<VmId>,
    /// Projects that are folded in the sidebar.
    pub collapsed: Vec<String>,
    /// The sidebar's filter.
    pub filter: String,
    /// The filtered machines by project. Kept, because the window is drawn anew
    /// for every frame of a guest and this changes only with the list or the
    /// filter.
    pub grouped: Vec<Group>,
    pub error: Option<String>,
    /// A passing message, such as that of a machine that somebody else has just
    /// created.
    pub notice: Option<String>,
    /// The number of the last message, so that a newer one is told from an older
    /// one that says the same.
    pub notice_number: u64,
    pub sidebar_visible: bool,
    /// The modifiers as they were last sent to the guest, so that a release can
    /// be sent as such.
    pub held_modifiers: Modifiers,
    /// The host's Caps Lock as it was last seen. It is reported as a state, not
    /// as a key, so a change of it is sent as one tap.
    pub held_capslock: bool,
    /// Keys whose last press was kept from the guest, so that their release is
    /// kept from it too.
    pub consumed_keys: Vec<String>,
    /// Keys that are down in a guest, with the scancodes they were pressed with,
    /// so that these are released and no others.
    pub guest_keys: Vec<GuestKey>,
    /// Projects whose tabs are folded away.
    pub collapsed_groups: Vec<String>,
    /// The machine whose context menu is open.
    pub context_menu: Option<VmId>,
    /// Whether the power submenu of the context menu is open.
    pub power_menu_open: bool,
    /// The machine of the details dialog, and its details once they are there.
    pub details: Option<(VmId, Option<VmDetails>)>,
    /// The machine of the rename dialog, and the name as typed so far.
    pub rename: Option<(VmId, String)>,
    /// The quick-open palette.
    pub palette: Option<Palette>,
    /// Frames that must not be destroyed yet, oldest first: the repaint at which
    /// each was retired, and its key.
    pub retired_frames: VecDeque<(u64, u64)>,
    /// The number of repaints so far.
    pub render_seq: u64,
    pub host_layout: HostLayout,
    /// The remotes of the configuration.
    pub remotes: Vec<String>,
    /// The remote in use.
    pub current_remote: String,
    pub remote_switcher_open: bool,
    /// Counts the changes of the remote, so that what still arrives from an
    /// earlier one can be told.
    pub remote_epoch: u64,
}

impl IncusManager {
    /// The invariant of the state: only the shown tab builds frames and it is
    /// open, a project's tabs stand together, a machine has one console at most,
    /// the kept groups are those of the list and the filter, and no key is noted
    /// twice.
    pub open spec fn wf(self) -> bool {
        &&& only_active_is_visible(self.tabs@, id_of(self.active))
        &&& active_is_open(self.tabs@, id_of(self.active))
        &&& groups_are_contiguous(self.tabs@)
        &&& one_console_each(self.tabs@, self.connecting@)
        &&& groups_view(self.grouped@) == grouped_vms(
            self.vms@,
            lowered_names(self.vms@),
            lowercase(self.filter@),
        )
        &&& texts(self.consumed_keys@).no_duplicates()
    }

    /// The state at the start: nothing is listed, open or pending.
    pub fn new(host_layout: HostLayout, remotes: Vec<String>, current_remote: String) -> (r: Self)
        ensures
            r.wf(),
            r.vms@.len() == 0,
            r.tabs@.len() == 0,
            r.active is None,
            r.connecting@.len() == 0,
            r.collapsed@.len() == 0,
            r.filter@.len() == 0,
            r.grouped@.len() == 0,
            r.error is None,
            r.notice is None,
            r.notice_number == 0,
            r.sidebar_visible,
            r.held_modifiers == (Modifiers {
                control: false,
                alt: false,
                shift: false,
                platform: false,
            }),
            !r.held_capslock,
            r.consumed_keys@.len() == 0,
            r.guest_keys@.len() == 0,
            r.collapsed_groups@.len() == 0,
            r.context_menu is None,
            !r.power_menu_open,
            r.details is None,
            r.rename is None,
            r.palette is None,
            r.retired_frames@.len() == 0,
            r.render_seq == 0,
            r.host_layout == host_layout,
            r.remotes == remotes,
            r.current_remote == current_remote,
            !r.remote_switcher_open,
            r.remote_epoch == 0,
    {
        let r = IncusManager {
            vms: Vec::new(),
            tabs: Vec::new(),
            active: None,
            connecting: Vec::new(),
            collapsed: Vec::new(),
            filter: String::new(),
            grouped: Vec::new(),
            error: None,
            notice: None,
            notice_number: 0,
            sidebar_visible: true,
            held_modifiers: Modifiers { control: false, alt: false, shift: false, platform: false },
            held_capslock: false,
            consumed_keys: Vec::new(),
            guest_keys: Vec::new(),
            collapsed_groups: Vec::new(),
            context_menu: None,
            power_menu_open: false,
            details: None,
            rename: None,
            palette: None,
            retired_frames: VecDeque::new(),
            render_seq: 0,
            host_layout,
            remotes,
            current_remote,
            remote_switcher_open: false,
            remote_epoch: 0,
        };
        assert(groups_view(r.grouped@) =~= Seq::empty());
        r
    }
}

} // verus!
