//! What opens on top of the window: the context menu of a machine, its details,
//! and the dialog that renames it.

use vstd::prelude::*;
use vstd::string::*;

use crate::incus::{Vm, VmId};
use crate::manager::keys::consumed;
use crate::manager::tabs::opens;
use crate::manager::{Command, Focus, IncusManager, Keystroke, PowerAction, Reaction};
use crate::text::{
    all_printable, before_first, concat, control_char, is_space, printable, same, text_of, texts,
    trim, trimmed, trimming_takes_off_the_space, until,
};

verus! {

// ---------------------------------------------------------------------------
// Overlays
// ---------------------------------------------------------------------------

/// What Escape closes, and where the keyboard goes: the context menu first,
/// which leaves the keyboard where it is, and otherwise the details or, where
/// these are not open, the rename dialog.
pub open spec fn dismisses(before: IncusManager, after: IncusManager, reaction: Reaction) -> bool {
    if before.context_menu is Some {
        after == (IncusManager { context_menu: None, ..before }) && reaction.repaints()
    } else if before.details is Some {
        after == (IncusManager { details: None, ..before }) && reaction.repaints_with(
            Focus::Console,
        )
    } else {
        after == (IncusManager { rename: None, ..before }) && reaction.repaints_with(
            Focus::Console,
        )
    }
}

/// Whether anything is open on top of the window.
pub open spec fn overlay_open(m: IncusManager) -> bool {
    m.context_menu is Some || m.details is Some || m.rename is Some
}

impl IncusManager {
    /// Closes what is on top, if anything is; `None` where nothing is.
    pub fn dismiss_overlay(&mut self) -> (r: Option<Reaction>)
        ensures
            match r {
                Some(reaction) => overlay_open(*old(self)) && dismisses(
                    *old(self),
                    *final(self),
                    reaction,
                ),
                None => !overlay_open(*old(self)) && *final(self) == *old(self),
            },
            old(self).wf() ==> final(self).wf(),
    {
        if self.context_menu.is_some() {
            self.context_menu = None;
            return Some(Reaction::repaint());
        }
        if self.details.is_some() {
            self.details = None;
            return Some(Reaction::repaint_with(Focus::Console));
        }
        if self.rename.is_some() {
            self.rename = None;
            return Some(Reaction::repaint_with(Focus::Console));
        }
        None
    }

    /// Opens the context menu of a machine.
    pub fn open_context_menu(&mut self, id: VmId) -> (r: Reaction)
        ensures
            *final(self) == (IncusManager {
                context_menu: Some(id),
                power_menu_open: false,
                ..*old(self)
            }),
            r.repaints(),
            old(self).wf() ==> final(self).wf(),
    {
        self.context_menu = Some(id);
        self.power_menu_open = false;
        Reaction::repaint()
    }

    /// A click beside the context menu.
    pub fn close_context_menu(&mut self) -> (r: Reaction)
        ensures
            *final(self) == (IncusManager { context_menu: None, ..*old(self) }),
            r.repaints(),
            old(self).wf() ==> final(self).wf(),
    {
        self.context_menu = None;
        Reaction::repaint()
    }

    /// The pointer is over an item of the context menu: the power submenu opens
    /// over its own item and closes over any other.
    pub fn hover_menu(&mut self, over_power: bool) -> (r: Reaction)
        ensures
            *final(self) == (IncusManager { power_menu_open: over_power, ..*old(self) }),
            if old(self).power_menu_open == over_power {
                r.idle()
            } else {
                r.repaints()
            },
            old(self).wf() ==> final(self).wf(),
    {
        if self.power_menu_open == over_power {
            return Reaction::none();
        }
        self.power_menu_open = over_power;
        Reaction::repaint()
    }

    /// Closes the details.
    pub fn close_details(&mut self) -> (r: Reaction)
        ensures
            *final(self) == (IncusManager { details: None, ..*old(self) }),
            r.repaints(),
            old(self).wf() ==> final(self).wf(),
    {
        self.details = None;
        Reaction::repaint()
    }

    /// Closes the rename dialog.
    pub fn cancel_rename(&mut self) -> (r: Reaction)
        ensures
            *final(self) == (IncusManager { rename: None, ..*old(self) }),
            r.repaints_with(Focus::Console),
            old(self).wf() ==> final(self).wf(),
    {
        self.rename = None;
        Reaction::repaint_with(Focus::Console)
    }
}

/// Pressing Escape again and again closes everything that is open, in no more
/// presses than there are overlays: each press closes one and opens none.
pub proof fn every_dismissal_closes_one(
    before: IncusManager,
    after: IncusManager,
    reaction: Reaction,
)
    requires
        overlay_open(before),
        dismisses(before, after, reaction),
    ensures
        overlays(after) + 1 == overlays(before),
{
}

/// How many overlays are open.
pub open spec fn overlays(m: IncusManager) -> int {
    (if m.context_menu is Some {
        1int
    } else {
        0
    }) + (if m.details is Some {
        1int
    } else {
        0
    }) + (if m.rename is Some {
        1int
    } else {
        0
    })
}

// ---------------------------------------------------------------------------
// The context menu
// ---------------------------------------------------------------------------

/// What an item of the context menu does.
#[derive(Clone, Copy, PartialEq, Eq, Structural, Debug)]
pub enum MenuAction {
    OpenConsole,
    Rename,
    Details,
    Power(PowerAction),
}

/// An item of the context menu.
#[derive(Clone, Copy)]
pub struct MenuItem {
    pub label: &'static str,
    pub enabled: bool,
    pub action: MenuAction,
}

/// The context menu as it is drawn.
pub struct ContextMenu {
    pub id: VmId,
    pub open_console: MenuItem,
    pub rename: MenuItem,
    pub details: MenuItem,
    /// Start, stop and restart, where the submenu is open.
    pub power: Option<[MenuItem; 3]>,
}

/// Whether an action can be taken on a machine: only a running one has a console
/// or can be stopped, and only a stopped one can be renamed or started.
pub open spec fn allowed(action: MenuAction, running: bool) -> bool {
    match action {
        MenuAction::OpenConsole => running,
        MenuAction::Rename => !running,
        MenuAction::Details => true,
        MenuAction::Power(PowerAction::Start) => !running,
        MenuAction::Power(PowerAction::Stop) => running,
        MenuAction::Power(PowerAction::Restart) => running,
    }
}

/// What an item of the context menu says.
pub open spec fn menu_label(action: MenuAction, running: bool) -> Seq<char> {
    match action {
        MenuAction::OpenConsole => "打开控制台"@,
        MenuAction::Rename => if running {
            "重命名（需先停止）"@
        } else {
            "重命名"@
        },
        MenuAction::Details => "详细信息"@,
        MenuAction::Power(PowerAction::Start) => if running {
            "已在运行"@
        } else {
            "启动"@
        },
        MenuAction::Power(PowerAction::Stop) => "停止"@,
        MenuAction::Power(PowerAction::Restart) => "重启"@,
    }
}

/// Whether an item is that of an action.
pub open spec fn menu_item_is(item: MenuItem, action: MenuAction, running: bool) -> bool {
    &&& item.action == action
    &&& item.enabled == allowed(action, running)
    &&& item.label@ == menu_label(action, running)
}

fn menu_item(action: MenuAction, running: bool) -> (r: MenuItem)
    ensures
        menu_item_is(r, action, running),
{
    match action {
        MenuAction::OpenConsole => MenuItem { label: "打开控制台", enabled: running, action },
        MenuAction::Rename => MenuItem {
            label: if running {
                "重命名（需先停止）"
            } else {
                "重命名"
            },
            enabled: !running,
            action,
        },
        MenuAction::Details => MenuItem { label: "详细信息", enabled: true, action },
        MenuAction::Power(PowerAction::Start) => MenuItem {
            label: if running {
                "已在运行"
            } else {
                "启动"
            },
            enabled: !running,
            action,
        },
        MenuAction::Power(PowerAction::Stop) => MenuItem {
            label: "停止",
            enabled: running,
            action,
        },
        MenuAction::Power(PowerAction::Restart) => MenuItem {
            label: "重启",
            enabled: running,
            action,
        },
    }
}

/// The first machine of a list with an identifier.
pub open spec fn listed_vm(vms: Seq<Vm>, id: (Seq<char>, Seq<char>)) -> Option<Vm>
    decreases vms.len(),
{
    if vms.len() == 0 {
        None
    } else if vms[0].id@ == id {
        Some(vms[0])
    } else {
        listed_vm(vms.drop_first(), id)
    }
}

fn find_vm<'a>(vms: &'a Vec<Vm>, id: &VmId) -> (r: Option<&'a Vm>)
    ensures
        match r {
            Some(vm) => listed_vm(vms@, id@) == Some(*vm),
            None => listed_vm(vms@, id@) is None,
        },
{
    let mut i: usize = 0;
    assert(vms@.skip(0) =~= vms@);
    while i < vms.len()
        invariant
            i <= vms@.len(),
            listed_vm(vms@, id@) == listed_vm(vms@.skip(i as int), id@),
        decreases vms@.len() - i,
    {
        assert(vms@.skip(i as int)[0] == vms@[i as int]);
        if vms[i].id.is(id) {
            return Some(&vms[i]);
        }
        assert(vms@.skip(i as int).drop_first() =~= vms@.skip(i + 1));
        i += 1;
    }
    None
}

/// Whether a context menu is that of a machine.
pub open spec fn menu_is(menu: ContextMenu, id: VmId, running: bool, power: bool) -> bool {
    &&& menu.id == id
    &&& menu_item_is(menu.open_console, MenuAction::OpenConsole, running)
    &&& menu_item_is(menu.rename, MenuAction::Rename, running)
    &&& menu_item_is(menu.details, MenuAction::Details, running)
    &&& match menu.power {
        Some(items) => {
            &&& power
            &&& menu_item_is(items[0], MenuAction::Power(PowerAction::Start), running)
            &&& menu_item_is(items[1], MenuAction::Power(PowerAction::Stop), running)
            &&& menu_item_is(items[2], MenuAction::Power(PowerAction::Restart), running)
        },
        None => !power,
    }
}

/// What choosing an action of the context menu does. The menu closes with every
/// action.
pub open spec fn menu_does(
    before: IncusManager,
    after: IncusManager,
    id: VmId,
    action: MenuAction,
    reaction: Reaction,
) -> bool {
    let closed = IncusManager { context_menu: None, ..before };
    match action {
        MenuAction::OpenConsole => opens(closed, after, id, reaction),
        MenuAction::Rename => renames(before, after, id, reaction),
        MenuAction::Details => {
            &&& after == (IncusManager { details: Some((id, None)), ..closed })
            &&& reaction.repaints_and(Command::FetchDetails(id))
        },
        MenuAction::Power(action) => {
            &&& after == (IncusManager { power_menu_open: false, ..closed })
            &&& reaction == (Reaction {
                repaint: false,
                focus: None,
                command: Some(Command::Power { id, action }),
            })
        },
    }
}

/// What the end of a change of a machine's power, or of its name, comes to.
pub open spec fn action_ends(
    before: IncusManager,
    after: IncusManager,
    result: Result<(), String>,
    reaction: Reaction,
) -> bool {
    &&& after == (IncusManager {
        error: match result {
            Ok(_) => before.error,
            Err(e) => Some(e),
        },
        ..before
    })
    &&& reaction.repaints_and(Command::Refresh)
}

impl IncusManager {
    /// The context menu to draw: there is one where a machine's is asked for and
    /// that machine is still in the list.
    pub fn context_menu_items(&self) -> (r: Option<ContextMenu>)
        ensures
            match self.context_menu {
                None => r is None,
                Some(id) => match listed_vm(self.vms@, id@) {
                    None => r is None,
                    Some(vm) => r matches Some(menu) && menu_is(
                        menu,
                        id,
                        vm.is_running(),
                        self.power_menu_open,
                    ),
                },
            },
    {
        let id: &VmId = match &self.context_menu {
            Some(id) => id,
            None => return None,
        };
        let running: bool = match find_vm(&self.vms, id) {
            Some(vm) => vm.running(),
            None => return None,
        };
        Some(
            ContextMenu {
                id: id.clone(),
                open_console: menu_item(MenuAction::OpenConsole, running),
                rename: menu_item(MenuAction::Rename, running),
                details: menu_item(MenuAction::Details, running),
                power: if self.power_menu_open {
                    Some(
                        [
                            menu_item(MenuAction::Power(PowerAction::Start), running),
                            menu_item(MenuAction::Power(PowerAction::Stop), running),
                            menu_item(MenuAction::Power(PowerAction::Restart), running),
                        ],
                    )
                } else {
                    None
                },
            },
        )
    }

    /// An item of the context menu has been clicked. One that is not enabled
    /// does nothing.
    pub fn choose_menu_item(&mut self, id: VmId, item: &MenuItem) -> (r: Reaction)
        ensures
            if item.enabled {
                menu_does(*old(self), *final(self), id, item.action, r)
            } else {
                *final(self) == *old(self) && r.idle()
            },
            old(self).wf() ==> final(self).wf(),
    {
        if !item.enabled {
            return Reaction::none();
        }
        match item.action {
            MenuAction::OpenConsole => {
                self.context_menu = None;
                self.open_or_focus(id)
            },
            MenuAction::Rename => self.begin_rename(id),
            MenuAction::Details => self.show_details(id),
            MenuAction::Power(action) => {
                self.context_menu = None;
                self.power_menu_open = false;
                Reaction { repaint: false, focus: None, command: Some(Command::Power { id, action }) }
            },
        }
    }

    /// A change of a machine's power, or of its name, has come to its end: the
    /// user is told of a failure, and the list is fetched again either way.
    pub fn action_done(&mut self, result: Result<(), String>) -> (r: Reaction)
        ensures
            action_ends(*old(self), *final(self), result, r),
            old(self).wf() ==> final(self).wf(),
    {
        if let Err(e) = result {
            self.error = Some(e);
        }
        Reaction { repaint: true, focus: None, command: Some(Command::Refresh) }
    }
}

// ---------------------------------------------------------------------------
// Renaming
// ---------------------------------------------------------------------------

/// The rename dialog opens with the machine's present name in it.
pub open spec fn renames(
    before: IncusManager,
    after: IncusManager,
    id: VmId,
    reaction: Reaction,
) -> bool {
    &&& after == (IncusManager {
        context_menu: None,
        rename: Some((id, id.name)),
        ..before
    })
    &&& reaction.repaints_with(Focus::Rename)
}

/// What a key does in the rename dialog, in which `name` stands. Enter renames
/// where the name, without the space around it, is neither empty nor the present
/// one. Every key is kept from the guest.
pub open spec fn rename_key_does(
    before: IncusManager,
    after: IncusManager,
    id: VmId,
    name: String,
    key: Keystroke,
    reaction: Reaction,
) -> bool {
    let noted = IncusManager { consumed_keys: after.consumed_keys, ..before };
    let gone = IncusManager { rename: None, ..noted };
    &&& consumed(after) == consumed(before).insert(key.key@)
    &&& if key.key@ == "escape"@ {
        after == gone && reaction.repaints_with(Focus::Console)
    } else if key.key@ == "enter"@ {
        let chosen = trimmed(name@);
        &&& after == gone
        &&& reaction.repaint
        &&& reaction.focus == Some(Focus::Console)
        &&& if chosen.len() == 0 || chosen == id.name@ {
            reaction.command is None
        } else {
            reaction.command matches Some(Command::Rename { id: target, name: new_name })
                && target == id && new_name@ == chosen
        }
    } else {
        &&& after.rename matches Some((same_id, typed)) && same_id == id && typed@ == edited_name(
            name@,
            key,
        )
        &&& after == (IncusManager { rename: after.rename, ..noted })
        &&& reaction.repaints()
    }
}

/// The name after a key that edits it.
pub open spec fn edited_name(name: Seq<char>, key: Keystroke) -> Seq<char> {
    if key.key@ == "backspace"@ {
        if name.len() > 0 {
            name.drop_last()
        } else {
            name
        }
    } else {
        match key.key_char {
            Some(typed) => if printable(typed@) {
                name + typed@
            } else {
                name
            },
            None => name,
        }
    }
}

/// The rename dialog as it is drawn.
pub struct RenameDialog {
    pub title: String,
    pub name: String,
}

impl IncusManager {
    /// The rename dialog to draw, where it is open.
    pub fn rename_dialog(&self) -> (r: Option<RenameDialog>)
        ensures
            match self.rename {
                Some((id, name)) => r matches Some(dialog) && dialog.title@ == "重命名 "@ + id.name@
                    && dialog.name == name,
                None => r is None,
            },
    {
        match &self.rename {
            Some((id, name)) => Some(
                RenameDialog { title: concat("重命名 ", id.name.as_str()), name: name.clone() },
            ),
            None => None,
        }
    }

    /// Opens the rename dialog of a machine.
    pub fn begin_rename(&mut self, id: VmId) -> (r: Reaction)
        ensures
            renames(*old(self), *final(self), id, r),
            old(self).wf() ==> final(self).wf(),
    {
        let name: String = id.name.clone();
        self.context_menu = None;
        self.rename = Some((id, name));
        Reaction::repaint_with(Focus::Rename)
    }

    /// A key in the rename dialog.
    pub fn handle_rename_key(&mut self, key: &Keystroke) -> (r: Reaction)
        ensures
            match old(self).rename {
                None => *final(self) == *old(self) && r.idle(),
                Some((id, name)) => rename_key_does(*old(self), *final(self), id, name, *key, r),
            },
            old(self).wf() ==> final(self).wf(),
    {
        let (id, mut name): (VmId, String) = match self.rename.take() {
            Some((id, name)) => (id, name),
            None => return Reaction::none(),
        };
        self.note_consumed(key.key.as_str());
        if same(key.key.as_str(), "escape") {
            return Reaction::repaint_with(Focus::Console);
        }
        if same(key.key.as_str(), "enter") {
            let chosen: String = trim(name.as_str());
            if chosen.as_str().is_empty() || same(chosen.as_str(), id.name.as_str()) {
                return Reaction::repaint_with(Focus::Console);
            }
            return self.commit_rename(id, chosen);
        }
        if same(key.key.as_str(), "backspace") {
            name.pop();
        } else if let Some(typed) = &key.key_char {
            if all_printable(typed.as_str()) {
                name.append(typed.as_str());
            }
        }
        self.rename = Some((id, name));
        Reaction::repaint()
    }

    /// Closes the rename dialog and asks for the change.
    pub fn commit_rename(&mut self, id: VmId, name: String) -> (r: Reaction)
        ensures
            *final(self) == (IncusManager { rename: None, ..*old(self) }),
            r == (Reaction {
                repaint: true,
                focus: Some(Focus::Console),
                command: Some(Command::Rename { id, name }),
            }),
            old(self).wf() ==> final(self).wf(),
    {
        self.rename = None;
        Reaction {
            repaint: true,
            focus: Some(Focus::Console),
            command: Some(Command::Rename { id, name }),
        }
    }
}

// ---------------------------------------------------------------------------
// Details
// ---------------------------------------------------------------------------

/// What there is to know of a machine.
pub struct VmDetails {
    pub status: String,
    /// The cluster member that runs it; empty where there is no cluster.
    pub location: String,
    pub location_address: Option<String>,
    pub location_status: Option<String>,
    pub architecture: String,
    pub cpu_limit: Option<String>,
    pub memory_limit: Option<String>,
    /// The memory in use, in words.
    pub memory_used: Option<String>,
    pub root_disk: Option<String>,
    /// Network interfaces and their addresses.
    pub addresses: Vec<(String, String)>,
    pub profiles: Vec<String>,
    pub created_at: String,
}

/// One line of the details.
pub struct DetailRow {
    pub label: &'static str,
    pub value: String,
}

/// Lines, as labels and values.
pub open spec fn rows_view(rows: Seq<DetailRow>) -> Seq<(Seq<char>, Seq<char>)> {
    Seq::new(rows.len(), |i: int| (rows[i].label@, rows[i].value@))
}

/// A line that is there only with a value.
pub open spec fn row_if(label: Seq<char>, value: Option<Seq<char>>) -> Seq<(Seq<char>, Seq<char>)> {
    match value {
        Some(value) => seq![(label, value)],
        None => Seq::empty(),
    }
}

/// Where a machine runs: which cluster member, and at what address.
pub open spec fn host_text(d: VmDetails) -> Seq<char> {
    if d.location@.len() == 0 {
        "（非集群）"@
    } else {
        match d.location_address {
            Some(address) => d.location@ + "  "@ + address@,
            None => d.location@,
        }
    }
}

/// The memory of a machine: its limit, and how much of it is in use.
pub open spec fn memory_text(d: VmDetails) -> Option<Seq<char>> {
    match d.memory_limit {
        Some(limit) => Some(
            match d.memory_used {
                Some(used) => limit@ + "（已用 "@ + used@ + "）"@,
                None => limit@,
            },
        ),
        None => None,
    }
}

/// One line for each address.
pub open spec fn address_rows(addresses: Seq<(String, String)>) -> Seq<(Seq<char>, Seq<char>)> {
    Seq::new(
        addresses.len(),
        |i: int| ("地址"@, addresses[i].1@ + "  ("@ + addresses[i].0@ + ")"@),
    )
}

/// Texts in a row, with a comma and a space between them.
pub open spec fn comma_joined(list: Seq<Seq<char>>) -> Seq<char>
    decreases list.len(),
{
    if list.len() == 0 {
        Seq::empty()
    } else if list.len() == 1 {
        list[0]
    } else {
        comma_joined(list.drop_last()) + ", "@ + list.last()
    }
}

/// The lines that tell what there is to know of a machine.
pub open spec fn known_text(d: VmDetails) -> Seq<(Seq<char>, Seq<char>)> {
    seq![("状态"@, d.status@), ("宿主机"@, host_text(d))] + row_if(
        "节点状态"@,
        text_of(d.location_status),
    ) + seq![("架构"@, d.architecture@)] + row_if("CPU"@, text_of(d.cpu_limit)) + row_if(
        "内存"@,
        memory_text(d),
    ) + row_if("根盘"@, text_of(d.root_disk)) + address_rows(d.addresses@) + row_if(
        "profile"@,
        if d.profiles@.len() > 0 {
            Some(comma_joined(texts(d.profiles@)))
        } else {
            None
        },
    ) + seq![("创建于"@, until(d.created_at@, 'T'))]
}

/// The lines of the details of a machine. Until they have come, one line says
/// so.
pub open spec fn detail_text(id: VmId, details: Option<VmDetails>) -> Seq<(Seq<char>, Seq<char>)> {
    seq![("项目"@, id.project@), ("名称"@, id.name@)] + match details {
        None => seq![(""@, "加载中…"@)],
        Some(d) => known_text(d),
    }
}

/// Texts in a row, with a comma and a space between them.
pub fn comma_join(list: &Vec<String>) -> (r: String)
    ensures
        r@ == comma_joined(texts(list@)),
{
    let ghost all = texts(list@);
    let mut out: String = String::new();
    let mut i: usize = 0;
    assert(out@ =~= Seq::empty());
    while i < list.len()
        invariant
            i <= list@.len(),
            all == texts(list@),
            out@ == comma_joined(all.take(i as int)),
        decreases list@.len() - i,
    {
        let ghost next = all.take(i + 1);
        assert(next.drop_last() =~= all.take(i as int));
        assert(next.last() == list@[i as int]@);
        if i > 0 {
            out.append(", ");
        }
        out.append(list[i].as_str());
        assert(out@ =~= comma_joined(next));
        i += 1;
    }
    assert(all.take(i as int) =~= all);
    out
}

fn add_row(rows: &mut Vec<DetailRow>, label: &'static str, value: String)
    ensures
        rows_view(final(rows)@) == rows_view(old(rows)@) + seq![(label@, value@)],
{
    rows.push(DetailRow { label, value });
    assert(rows_view(rows@) =~= rows_view(old(rows)@) + seq![(label@, value@)]);
}

fn add_row_if(rows: &mut Vec<DetailRow>, label: &'static str, value: Option<String>)
    ensures
        rows_view(final(rows)@) == rows_view(old(rows)@) + row_if(label@, text_of(value)),
{
    match value {
        Some(value) => add_row(rows, label, value),
        None => {
            assert(rows_view(rows@) =~= rows_view(rows@) + Seq::<(Seq<char>, Seq<char>)>::empty());
        },
    }
}

fn copied(s: &Option<String>) -> (r: Option<String>)
    ensures
        r == *s,
{
    match s {
        Some(s) => Some(s.clone()),
        None => None,
    }
}

fn host_of(d: &VmDetails) -> (r: String)
    ensures
        r@ == host_text(*d),
{
    if d.location.as_str().is_empty() {
        return "（非集群）".to_owned();
    }
    match &d.location_address {
        Some(address) => concat(concat(d.location.as_str(), "  ").as_str(), address.as_str()),
        None => d.location.clone(),
    }
}

fn memory_of(d: &VmDetails) -> (r: Option<String>)
    ensures
        text_of(r) == memory_text(*d),
{
    match &d.memory_limit {
        Some(limit) => {
            let mut out: String = limit.clone();
            if let Some(used) = &d.memory_used {
                out.append("（已用 ");
                out.append(used.as_str());
                out.append("）");
            }
            Some(out)
        },
        None => None,
    }
}

fn add_address_rows(rows: &mut Vec<DetailRow>, addresses: &Vec<(String, String)>)
    ensures
        rows_view(final(rows)@) == rows_view(old(rows)@) + address_rows(addresses@),
{
    let ghost before = rows_view(rows@);
    let mut i: usize = 0;
    assert(before =~= before + address_rows(addresses@.take(0)));
    while i < addresses.len()
        invariant
            i <= addresses@.len(),
            rows_view(rows@) == before + address_rows(addresses@.take(i as int)),
        decreases addresses@.len() - i,
    {
        let mut value: String = addresses[i].1.clone();
        value.append("  (");
        value.append(addresses[i].0.as_str());
        value.append(")");
        let ghost line = ("地址"@, value@);
        add_row(rows, "地址", value);
        assert(address_rows(addresses@.take(i + 1)) =~= address_rows(addresses@.take(i as int))
            + seq![line]);
        assert(rows_view(rows@) =~= before + address_rows(addresses@.take(i + 1)));
        i += 1;
    }
    assert(addresses@.take(i as int) =~= addresses@);
}

fn known_rows(d: &VmDetails) -> (r: Vec<DetailRow>)
    ensures
        rows_view(r@) == known_text(*d),
{
    let mut rows: Vec<DetailRow> = Vec::new();
    assert(rows_view(rows@) =~= Seq::empty());
    add_row(&mut rows, "状态", d.status.clone());
    add_row(&mut rows, "宿主机", host_of(d));
    assert(rows_view(rows@) =~= seq![("状态"@, d.status@), ("宿主机"@, host_text(*d))]);
    add_row_if(&mut rows, "节点状态", copied(&d.location_status));
    add_row(&mut rows, "架构", d.architecture.clone());
    add_row_if(&mut rows, "CPU", copied(&d.cpu_limit));
    add_row_if(&mut rows, "内存", memory_of(d));
    add_row_if(&mut rows, "根盘", copied(&d.root_disk));
    add_address_rows(&mut rows, &d.addresses);
    let profiles: Option<String> = if d.profiles.len() > 0 {
        Some(comma_join(&d.profiles))
    } else {
        None
    };
    add_row_if(&mut rows, "profile", profiles);
    add_row(&mut rows, "创建于", before_first(d.created_at.as_str(), 'T'));
    rows
}

/// The lines of the details of a machine.
pub fn detail_rows(id: &VmId, details: &Option<VmDetails>) -> (r: Vec<DetailRow>)
    ensures
        rows_view(r@) == detail_text(*id, *details),
{
    let mut rows: Vec<DetailRow> = Vec::new();
    assert(rows_view(rows@) =~= Seq::empty());
    add_row(&mut rows, "项目", id.project.clone());
    add_row(&mut rows, "名称", id.name.clone());
    let ghost head = rows@;
    assert(rows_view(head) =~= seq![("项目"@, id.project@), ("名称"@, id.name@)]);
    match details {
        None => {
            add_row(&mut rows, "", "加载中…".to_owned());
        },
        Some(d) => {
            let mut known: Vec<DetailRow> = known_rows(d);
            let ghost tail = known@;
            rows.append(&mut known);
            assert(rows_view(rows@) =~= rows_view(head) + rows_view(tail));
        },
    }
    rows
}

/// What the details of a machine, or the failure to fetch them, come to.
pub open spec fn details_arrive(
    before: IncusManager,
    after: IncusManager,
    id: VmId,
    result: Result<VmDetails, String>,
    reaction: Reaction,
) -> bool {
    &&& after == (IncusManager {
        details: if before.shows_details_of(id@) {
            match result {
                Ok(details) => Some((id, Some(details))),
                Err(_) => None,
            }
        } else {
            before.details
        },
        error: match result {
            Ok(_) => before.error,
            Err(e) => Some(e),
        },
        ..before
    })
    &&& reaction.repaints()
}

impl IncusManager {
    /// Opens the details of a machine and asks for them.
    pub fn show_details(&mut self, id: VmId) -> (r: Reaction)
        ensures
            *final(self) == (IncusManager {
                context_menu: None,
                details: Some((id, None)),
                ..*old(self)
            }),
            r.repaints_and(Command::FetchDetails(id)),
            old(self).wf() ==> final(self).wf(),
    {
        self.context_menu = None;
        self.details = Some((id.clone(), None));
        Reaction { repaint: true, focus: None, command: Some(Command::FetchDetails(id)) }
    }

    /// Whether the details of a machine are open.
    pub open spec fn shows_details_of(self, id: (Seq<char>, Seq<char>)) -> bool {
        self.details matches Some((shown, _)) && shown@ == id
    }

    /// The details of a machine have come, or fetching them has failed. Either
    /// changes the dialog only where it still shows that machine: the user may
    /// have closed it meanwhile, or opened another one's.
    pub fn details_loaded(&mut self, id: VmId, result: Result<VmDetails, String>) -> (r: Reaction)
        ensures
            details_arrive(*old(self), *final(self), id, result, r),
            old(self).wf() ==> final(self).wf(),
    {
        let shown: bool = match &self.details {
            Some((shown, _)) => shown.is(&id),
            None => false,
        };
        match result {
            Ok(details) => {
                if shown {
                    self.details = Some((id, Some(details)));
                }
            },
            Err(e) => {
                if shown {
                    self.details = None;
                }
                self.error = Some(e);
            },
        }
        Reaction::repaint()
    }
}

// ---------------------------------------------------------------------------
// What the operations amount to
// ---------------------------------------------------------------------------

/// Escape closes one thing at a time, the topmost: the context menu, then the
/// details, then the rename dialog. Everything else stays.
pub proof fn escape_closes_the_topmost(
    before: IncusManager,
    after: IncusManager,
    reaction: Reaction,
)
    requires
        dismisses(before, after, reaction),
        overlay_open(before),
    ensures
        reaction.repaint && reaction.command is None,
        before.context_menu is Some ==> after.context_menu is None && after.details
            == before.details && after.rename == before.rename && reaction.focus is None,
        before.context_menu is None && before.details is Some ==> after.details is None
            && after.rename == before.rename && reaction.focus == Some(Focus::Console),
        before.context_menu is None && before.details is None ==> after.rename is None
            && reaction.focus == Some(Focus::Console),
        after.tabs == before.tabs && after.active == before.active && after.connecting
            == before.connecting && after.vms == before.vms && after.palette == before.palette,
{
}

/// What can be done with a machine: one that runs can be opened, stopped and
/// restarted, one that does not can be started and renamed, and the details of
/// either can be seen.
pub proof fn the_menu_allows_what_makes_sense(running: bool)
    ensures
        allowed(MenuAction::OpenConsole, running) <==> running,
        allowed(MenuAction::Power(PowerAction::Stop), running) <==> running,
        allowed(MenuAction::Power(PowerAction::Restart), running) <==> running,
        allowed(MenuAction::Power(PowerAction::Start), running) <==> !running,
        allowed(MenuAction::Rename, running) <==> !running,
        allowed(MenuAction::Details, running),
{
}

/// Every item of the context menu acts on the machine that the menu is for, and
/// closes the menu.
pub proof fn the_menu_acts_on_its_machine(
    before: IncusManager,
    after: IncusManager,
    id: VmId,
    action: MenuAction,
    reaction: Reaction,
)
    requires
        menu_does(before, after, id, action, reaction),
    ensures
        after.context_menu is None,
        action matches MenuAction::Power(power) ==> reaction.command == Some(
            Command::Power { id, action: power },
        ) && !after.power_menu_open && after.tabs == before.tabs && after.details
            == before.details && after.rename == before.rename,
        action == MenuAction::Details ==> reaction.command == Some(Command::FetchDetails(id))
            && after.details == Some((id, None::<VmDetails>)) && after.rename == before.rename,
        action == MenuAction::Rename ==> reaction.command is None && reaction.focus == Some(
            Focus::Rename,
        ) && (after.rename matches Some((target, name)) && target == id && name@ == id.name@)
            && after.details == before.details,
        action == MenuAction::OpenConsole ==> reaction.focus == Some(Focus::Console) && (
        reaction.command is None || reaction.command == Some(Command::Connect(id))),
{
}

/// The menu is for a machine of the list, the first with its identity.
pub proof fn the_menu_is_for_a_listed_machine(
    vms: Seq<Vm>,
    id: (Seq<char>, Seq<char>),
)
    ensures
        listed_vm(vms, id) matches Some(vm) ==> vm.id@ == id && vms.contains(vm),
        listed_vm(vms, id) is None ==> (forall|i: int|
            0 <= i < vms.len() ==> (#[trigger] vms[i]).id@ != id),
    decreases vms.len(),
{
    if vms.len() > 0 {
        let rest = vms.drop_first();
        the_menu_is_for_a_listed_machine(rest, id);
        if vms[0].id@ == id {
            assert(vms.contains(vms[0]));
        } else {
            if let Some(vm) = listed_vm(rest, id) {
                let i = choose|i: int| 0 <= i < rest.len() && rest[i] == vm;
                assert(vms[i + 1] == vm);
            } else {
                assert forall|i: int| 0 <= i < vms.len() implies (#[trigger] vms[i]).id@ != id by {
                    if i > 0 {
                        assert(rest[i - 1] == vms[i]);
                    }
                }
            }
        }
    }
}

/// Typing a character into the name appends it, and Backspace takes it away
/// again; a control character is not typed.
pub proof fn the_name_is_edited_at_its_end(
    name: Seq<char>,
    c: char,
    key: Keystroke,
    back: Keystroke,
)
    requires
        key.key@ != "backspace"@,
        key.key_char matches Some(typed) && typed@ == seq![c],
        back.key@ == "backspace"@,
    ensures
        !control_char(c) ==> edited_name(name, key) == name.push(c) && edited_name(
            edited_name(name, key),
            back,
        ) == name,
        control_char(c) ==> edited_name(name, key) == name,
        edited_name(Seq::empty(), back).len() == 0,
{
    if !control_char(c) {
        assert(printable(seq![c]));
        assert(name + seq![c] =~= name.push(c));
        assert(name.push(c).drop_last() =~= name);
    } else {
        assert(control_char(seq![c][0]));
    }
}

/// Enter asks for the name that was typed, without the white space around it, for
/// the machine that the dialog is for; Escape asks for nothing. Both close it.
pub proof fn enter_renames(
    before: IncusManager,
    after: IncusManager,
    id: VmId,
    name: String,
    key: Keystroke,
    reaction: Reaction,
    space: Seq<char>,
    chosen: Seq<char>,
    more_space: Seq<char>,
)
    requires
        rename_key_does(before, after, id, name, key, reaction),
        name@ == space + chosen + more_space,
        forall|i: int| 0 <= i < space.len() ==> is_space(space[i]),
        forall|i: int| 0 <= i < more_space.len() ==> is_space(more_space[i]),
        chosen.len() > 0 && !is_space(chosen[0]) && !is_space(chosen.last()),
    ensures
        key.key@ == "enter"@ && chosen != id.name@ ==> after.rename is None && (
        reaction.command matches Some(Command::Rename { id: target, name: asked }) && target == id
            && asked@ == chosen),
        key.key@ == "enter"@ && chosen == id.name@ ==> after.rename is None
            && reaction.command is None,
        key.key@ == "escape"@ ==> after.rename is None && reaction.command is None,
        key.key@ != "enter"@ && key.key@ != "escape"@ ==> after.rename is Some
            && reaction.command is None,
{
    trimming_takes_off_the_space(space, chosen, more_space);
    reveal_strlit("enter");
    reveal_strlit("escape");
    assert("enter"@.len() != "escape"@.len());
}

/// Two rows of texts joined are those of either row joined, with a comma between
/// them: nothing in the middle is lost.
pub proof fn joining_goes_on(a: Seq<Seq<char>>, b: Seq<Seq<char>>)
    requires
        a.len() > 0,
        b.len() > 0,
    ensures
        comma_joined(a + b) == comma_joined(a) + seq![',', ' '] + comma_joined(b),
        comma_joined(seq![a[0]]) == a[0],
    decreases b.len(),
{
    reveal_strlit(", ");
    assert(", "@ =~= seq![',', ' ']);
    assert((a + b).last() == b.last());
    if b.len() == 1 {
        assert((a + b).drop_last() =~= a);
    } else {
        joining_goes_on(a, b.drop_last());
        assert((a + b).drop_last() =~= a + b.drop_last());
        assert(comma_joined(a + b) =~= comma_joined(a) + seq![',', ' '] + comma_joined(b));
    }
}

/// Every address of a machine has a line, in order: the address and, in brackets,
/// its interface.
pub proof fn every_address_has_a_line(addresses: Seq<(String, String)>, i: int)
    requires
        0 <= i < addresses.len(),
    ensures
        address_rows(addresses).len() == addresses.len(),
        address_rows(addresses)[i].1 == addresses[i].1@ + seq![' ', ' ', '('] + addresses[i].0@
            + seq![')'],
{
    reveal_strlit("  (");
    reveal_strlit(")");
    assert("  ("@ =~= seq![' ', ' ', '(']);
    assert(")"@ =~= seq![')']);
}

/// Details fill the dialog of their own machine, and a failure closes it; the
/// dialog of another machine stays as it is either way, and so does one that was
/// closed.
pub proof fn details_fill_their_own_dialog(
    before: IncusManager,
    after: IncusManager,
    id: VmId,
    result: Result<VmDetails, String>,
    reaction: Reaction,
)
    requires
        details_arrive(before, after, id, result, reaction),
    ensures
        before.details is None ==> after.details is None,
        before.details matches Some((shown, _)) ==> (if shown.project@ == id.project@ && shown.name@
            == id.name@ {
            match result {
                Ok(details) => after.details == Some((id, Some(details))),
                Err(_) => after.details is None,
            }
        } else {
            after.details == before.details
        }),
        result matches Err(e) ==> after.error == Some(e),
        result is Ok ==> after.error == before.error,
        after.rename == before.rename && after.tabs == before.tabs,
{
    if let Some((shown, _)) = before.details {
        assert(shown@ == id@ <==> shown.project@ == id.project@ && shown.name@ == id.name@);
    }
}

/// After a change of a machine the list is fetched again, whether it went well or
/// not; a failure is told, and a success hides no message.
pub proof fn changes_are_followed_by_a_refresh(
    before: IncusManager,
    after: IncusManager,
    result: Result<(), String>,
    reaction: Reaction,
)
    requires
        action_ends(before, after, result, reaction),
    ensures
        reaction.command == Some(Command::Refresh),
        result matches Err(e) ==> after.error == Some(e),
        result is Ok ==> after == before,
{
}

/// The items of the context menu do what stands in their place: open, rename and
/// see, and in the submenu start, stop and restart, in this order.
pub proof fn the_items_of_the_menu_are_in_place(
    menu: ContextMenu,
    id: VmId,
    running: bool,
    power: bool,
)
    requires
        menu_is(menu, id, running, power),
    ensures
        menu.id == id,
        menu.open_console.action == MenuAction::OpenConsole && (menu.open_console.enabled
            <==> running),
        menu.rename.action == MenuAction::Rename && (menu.rename.enabled <==> !running),
        menu.details.action == MenuAction::Details && menu.details.enabled,
        menu.power is Some <==> power,
        menu.power matches Some(items) ==> items[0].action == MenuAction::Power(
            PowerAction::Start,
        ) && items[1].action == MenuAction::Power(PowerAction::Stop) && items[2].action
            == MenuAction::Power(PowerAction::Restart) && (items[0].enabled <==> !running) && (
        items[1].enabled <==> running) && (items[2].enabled <==> running),
{
}

/// The daemon's words for the changes of power.
pub proof fn power_has_the_daemons_words()
    ensures
        PowerAction::Start.word() =~= seq!['s', 't', 'a', 'r', 't'],
        PowerAction::Stop.word() =~= seq!['s', 't', 'o', 'p'],
        PowerAction::Restart.word() =~= seq!['r', 'e', 's', 't', 'a', 'r', 't'],
{
    reveal_strlit("start");
    reveal_strlit("stop");
    reveal_strlit("restart");
}

/// What is known of a machine has a line where it is known, and none otherwise.
pub proof fn optional_lines_are_there_if_known(
    label: Seq<char>,
    value: Option<Seq<char>>,
    d: VmDetails,
)
    ensures
        value matches Some(text) ==> row_if(label, value) =~= seq![(label, text)],
        value is None ==> row_if(label, value).len() == 0,
        d.location@.len() > 0 && d.location_address is None ==> host_text(d) == d.location@,
        d.memory_limit is None ==> memory_text(d) is None,
        d.memory_limit is Some && d.memory_used is None ==> memory_text(d) == Some(
            d.memory_limit.unwrap()@,
        ),
{
}

} // verus!
