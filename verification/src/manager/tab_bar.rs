//! What is drawn around the console: the strip of tabs, the line at the bottom,
//! and what stands in the console's place while none is shown.

use vstd::prelude::*;
use vstd::string::*;

use crate::incus::{id_of, is_this, VmId};
use crate::manager::keys::{
    cmd_and_a_number_show_a_tab, shortcut_of, shortcut_taken, Shortcut,
};
use crate::manager::tabs::{groups_are_contiguous, shown_tab, ConsoleTab};
use crate::manager::{IncusManager, Keystroke, Reaction};
use crate::scancode::HostLayout;
use crate::text::{decimal, listed, number, same, texts};

verus! {

/// How many tabs have a number that selects them.
pub const NUMBERED_TABS: usize = 9;

/// One element of the strip of tabs.
pub enum TabBarItem {
    /// Stands before the tabs of a project: its name, how many tabs it has, and
    /// whether they are folded away.
    Header { project: String, members: usize, collapsed: bool },
    /// A tab, with the number that selects it while that is to be seen.
    Tab { id: VmId, is_active: bool, badge: Option<usize> },
    /// A console that is being connected.
    Pending(VmId),
}

/// How many tabs a project has.
pub open spec fn members_of(tabs: Seq<ConsoleTab>, project: Seq<char>) -> nat
    decreases tabs.len(),
{
    if tabs.len() == 0 {
        0
    } else {
        members_of(tabs.drop_last(), project) + if tabs.last().id.project@ == project {
            1nat
        } else {
            0
        }
    }
}

/// Whether a tab is the first of its project's.
pub open spec fn starts_group(tabs: Seq<ConsoleTab>, i: int) -> bool {
    i == 0 || tabs[i - 1].id.project@ != tabs[i].id.project@
}

/// Whether a project's tabs are folded away.
pub open spec fn group_folded(m: IncusManager, project: Seq<char>) -> bool {
    texts(m.collapsed_groups@).contains(project)
}

/// The header before a tab, where it has one.
pub open spec fn header_at(m: IncusManager, i: int) -> Seq<TabBarItem> {
    let project = m.tabs@[i].id.project;
    if starts_group(m.tabs@, i) {
        seq![
            TabBarItem::Header {
                project,
                members: members_of(m.tabs@, project@) as usize,
                collapsed: group_folded(m, project@),
            },
        ]
    } else {
        Seq::empty()
    }
}

/// A tab as an element of the strip. While Cmd is held, the first tabs wear the
/// numbers that select them.
pub open spec fn tab_item(m: IncusManager, i: int) -> TabBarItem {
    TabBarItem::Tab {
        id: m.tabs@[i].id,
        is_active: id_of(m.active) == Some(m.tabs@[i].id@),
        badge: if m.held_modifiers.platform && i < NUMBERED_TABS {
            Some((i + 1) as usize)
        } else {
            None
        },
    }
}

/// A tab, unless it is folded away. The one that is shown never is.
pub open spec fn tab_items_at(m: IncusManager, i: int) -> Seq<TabBarItem> {
    if group_folded(m, m.tabs@[i].id.project@) && id_of(m.active) != Some(m.tabs@[i].id@) {
        Seq::empty()
    } else {
        seq![tab_item(m, i)]
    }
}

/// The first `n` tabs and their headers.
pub open spec fn bar_of(m: IncusManager, n: nat) -> Seq<TabBarItem>
    decreases n,
{
    if n == 0 {
        Seq::empty()
    } else {
        bar_of(m, (n - 1) as nat) + header_at(m, n - 1) + tab_items_at(m, n - 1)
    }
}

/// The consoles that are being connected.
pub open spec fn pending_items(connecting: Seq<VmId>) -> Seq<TabBarItem> {
    Seq::new(connecting.len(), |i: int| TabBarItem::Pending(connecting[i]))
}

fn count_members(tabs: &Vec<ConsoleTab>, project: &str) -> (r: usize)
    ensures
        r == members_of(tabs@, project@),
{
    let mut count: usize = 0;
    let mut i: usize = 0;
    while i < tabs.len()
        invariant
            i <= tabs@.len(),
            count <= i,
            count == members_of(tabs@.take(i as int), project@),
        decreases tabs@.len() - i,
    {
        assert(tabs@.take(i + 1).drop_last() =~= tabs@.take(i as int));
        if same(tabs[i].id.project.as_str(), project) {
            count += 1;
        }
        i += 1;
    }
    assert(tabs@.take(i as int) =~= tabs@);
    count
}

impl IncusManager {
    /// What the strip of tabs shows: the tabs by project, and then what is being
    /// connected, so that a click on a machine is answered at once.
    pub fn tab_bar(&self) -> (r: Vec<TabBarItem>)
        ensures
            r@ == bar_of(*self, self.tabs@.len()) + pending_items(self.connecting@),
    {
        let mut out: Vec<TabBarItem> = Vec::new();
        let mut i: usize = 0;
        assert(out@ =~= bar_of(*self, 0));
        while i < self.tabs.len()
            invariant
                i <= self.tabs@.len(),
                out@ == bar_of(*self, i as nat),
            decreases self.tabs@.len() - i,
        {
            let ghost before = out@;
            let tab: &ConsoleTab = &self.tabs[i];
            let collapsed: bool = listed(&self.collapsed_groups, tab.id.project.as_str());
            let is_active: bool = is_this(&self.active, &tab.id);
            if i == 0 || !same(
                self.tabs[i - 1].id.project.as_str(),
                tab.id.project.as_str(),
            ) {
                let members: usize = count_members(&self.tabs, tab.id.project.as_str());
                out.push(
                    TabBarItem::Header { project: tab.id.project.clone(), members, collapsed },
                );
            }
            assert(out@ =~= before + header_at(*self, i as int));
            let ghost headed = out@;
            if !collapsed || is_active {
                let badge: Option<usize> = if self.held_modifiers.platform && i < NUMBERED_TABS {
                    Some(i + 1)
                } else {
                    None
                };
                out.push(TabBarItem::Tab { id: tab.id.clone(), is_active, badge });
            }
            assert(out@ =~= headed + tab_items_at(*self, i as int));
            i += 1;
        }
        let ghost tabs = out@;
        let mut j: usize = 0;
        assert(tabs =~= tabs + pending_items(self.connecting@.take(0)));
        while j < self.connecting.len()
            invariant
                j <= self.connecting@.len(),
                out@ == tabs + pending_items(self.connecting@.take(j as int)),
            decreases self.connecting@.len() - j,
        {
            out.push(TabBarItem::Pending(self.connecting[j].clone()));
            j += 1;
            assert(out@ =~= tabs + pending_items(self.connecting@.take(j as int)));
        }
        assert(self.connecting@.take(j as int) =~= self.connecting@);
        out
    }

    /// Shows or hides the sidebar.
    pub fn toggle_sidebar(&mut self) -> (r: Reaction)
        ensures
            *final(self) == (IncusManager {
                sidebar_visible: !old(self).sidebar_visible,
                ..*old(self)
            }),
            r.repaints(),
            old(self).wf() ==> final(self).wf(),
    {
        self.sidebar_visible = !self.sidebar_visible;
        Reaction::repaint()
    }
}

/// As long as a project's tabs stand together, every project has one header: no
/// two tabs of the same project have one before them.
pub proof fn every_project_has_one_header(tabs: Seq<ConsoleTab>, i: int, j: int)
    requires
        groups_are_contiguous(tabs),
        0 <= i < j < tabs.len(),
        starts_group(tabs, i),
        starts_group(tabs, j),
    ensures
        tabs[i].id.project@ != tabs[j].id.project@,
{
    if tabs[i].id.project@ == tabs[j].id.project@ && i < j - 1 {
        assert(tabs[j - 1].id.project@ == tabs[i].id.project@);
    }
}

proof fn bar_grows(m: IncusManager, a: nat, b: nat)
    requires
        a <= b,
    ensures
        bar_of(m, a).is_prefix_of(bar_of(m, b)),
    decreases b,
{
    if a < b {
        bar_grows(m, a, (b - 1) as nat);
        assert(bar_of(m, a) =~= bar_of(m, b).subrange(0, bar_of(m, a).len() as int));
    } else {
        assert(bar_of(m, a) =~= bar_of(m, b).subrange(0, bar_of(m, a).len() as int));
    }
}

/// The tab that is shown is never folded away.
pub proof fn the_shown_tab_is_in_the_bar(m: IncusManager, i: int)
    requires
        0 <= i < m.tabs@.len(),
        id_of(m.active) == Some(m.tabs@[i].id@),
    ensures
        bar_of(m, m.tabs@.len()).contains(tab_item(m, i)),
{
    let part = bar_of(m, (i + 1) as nat);
    assert(part.last() == tab_item(m, i));
    bar_grows(m, (i + 1) as nat, m.tabs@.len());
    let all = bar_of(m, m.tabs@.len());
    assert(all[part.len() - 1] == part[part.len() - 1]) by {
        assert(part == all.subrange(0, part.len() as int));
    }
}

/// The number that a tab wears is the key that selects it.
pub proof fn the_number_selects_its_tab(m: IncusManager, i: int)
    requires
        0 <= i < m.tabs@.len(),
    ensures
        tab_item(m, i)->badge matches Some(n) ==> shortcut_of(decimal(n as nat)) == Some(
            Shortcut::ShowTab(i as usize),
        ),
{
    if i < NUMBERED_TABS {
        let key = decimal((i + 1) as nat);
        reveal_strlit("w");
        reveal_strlit("r");
        reveal_strlit("b");
        reveal_strlit("f");
        reveal_strlit("p");
        assert(key.len() == 1);
        assert('1' <= key[0] <= '9');
        assert("w"@[0] == 'w' && "r"@[0] == 'r' && "b"@[0] == 'b' && "f"@[0] == 'f' && "p"@[0]
            == 'p');
    }
}

// ---------------------------------------------------------------------------
// The line at the bottom
// ---------------------------------------------------------------------------

pub open spec fn layout_label(layout: HostLayout) -> Seq<char> {
    match layout {
        HostLayout::Qwerty => "QWERTY"@,
        HostLayout::Dvorak => "Dvorak"@,
    }
}

/// What the line at the bottom says of the shown console: its project, the size
/// of its screen, how its pointer moves, and the layout of the host's keyboard.
pub open spec fn status_text(m: IncusManager, absolute: bool) -> Seq<char> {
    match shown_tab(m.tabs@, id_of(m.active)) {
        Some(tab) => {
            let (width, height) = match tab.size() {
                Some(size) => size,
                None => (0u32, 0u32),
            };
            tab.id.project@ + "  ·  "@ + decimal(width as nat) + "×"@ + decimal(height as nat)
                + "  ·  "@ + (if absolute {
                "绝对定位"@
            } else {
                "相对移动"@
            }) + "  ·  "@ + layout_label(m.host_layout)
        },
        None => "未连接"@,
    }
}

/// What stands in the console's place.
pub struct Placeholder {
    pub text: &'static str,
    /// Whether the shortcuts are listed below it.
    pub hint: bool,
}

impl IncusManager {
    /// The line at the bottom. `absolute` says how the shown console's pointer
    /// moves.
    pub fn status_line(&self, absolute: bool) -> (r: String)
        ensures
            r@ == status_text(*self, absolute),
    {
        let tab: &ConsoleTab = match self.active_tab() {
            Some(tab) => tab,
            None => return "未连接".to_owned(),
        };
        let (width, height): (u32, u32) = match tab.frame_size() {
            Some(size) => size,
            None => (0, 0),
        };
        let mut out: String = tab.id.project.clone();
        out.append("  ·  ");
        out.append(number(width as u64).as_str());
        out.append("×");
        out.append(number(height as u64).as_str());
        out.append("  ·  ");
        out.append(
            if absolute {
                "绝对定位"
            } else {
                "相对移动"
            },
        );
        out.append("  ·  ");
        out.append(self.host_layout.label());
        out
    }

    /// What stands in the console's place while none is shown.
    pub fn placeholder(&self) -> (r: Option<Placeholder>)
        ensures
            match shown_tab(self.tabs@, id_of(self.active)) {
                Some(_) => r is None,
                None => r matches Some(p) && p.hint == (self.connecting@.len() == 0) && p.text@
                    == if self.connecting@.len() > 0 {
                    "正在连接…"@
                } else {
                    "选择一台虚拟机"@
                },
            },
    {
        if self.active_tab().is_some() {
            return None;
        }
        if self.connecting.len() > 0 {
            Some(Placeholder { text: "正在连接…", hint: false })
        } else {
            Some(Placeholder { text: "选择一台虚拟机", hint: true })
        }
    }
}

/// The identifier of an element that belongs to a machine.
pub open spec fn element_text(id: VmId, prefix: Seq<char>) -> Seq<char> {
    prefix + "-"@ + id.project@ + "-"@ + id.name@
}

/// The identifier of an element that belongs to a machine.
pub fn element_id(id: &VmId, prefix: &str) -> (r: String)
    ensures
        r@ == element_text(*id, prefix@),
{
    let mut out: String = prefix.to_owned();
    out.append("-");
    out.append(id.project.as_str());
    out.append("-");
    out.append(id.name.as_str());
    out
}

// ---------------------------------------------------------------------------
// What the operations amount to
// ---------------------------------------------------------------------------

proof fn tabs_of_the_bar(m: IncusManager, n: nat, k: int) -> (i: int)
    requires
        n <= m.tabs@.len(),
        0 <= k < bar_of(m, n).len(),
        bar_of(m, n)[k] is Tab,
    ensures
        0 <= i < n,
        bar_of(m, n)[k] == tab_item(m, i),
    decreases n,
{
    let front = bar_of(m, (n - 1) as nat);
    if k < front.len() {
        tabs_of_the_bar(m, (n - 1) as nat, k)
    } else {
        n - 1
    }
}

/// Every tab of the bar is an open tab, says of itself whether it is shown, and
/// wears a number only while Cmd is held: the first nine do, counted from the
/// left.
pub proof fn the_bar_shows_open_tabs(m: IncusManager, k: int)
    requires
        0 <= k < bar_of(m, m.tabs@.len()).len(),
    ensures
        bar_of(m, m.tabs@.len())[k] matches TabBarItem::Tab { id, is_active, badge } ==> exists|
            i: int,
        |
            0 <= i < m.tabs@.len() && (#[trigger] m.tabs@[i]).id == id && (is_active <==> id_of(
                m.active,
            ) == Some(id@)) && (badge is Some <==> m.held_modifiers.platform && i < 9) && (
            badge matches Some(n) ==> n == i + 1),
{
    if bar_of(m, m.tabs@.len())[k] is Tab {
        let i = tabs_of_the_bar(m, m.tabs@.len(), k);
        assert(m.tabs@[i].id == tab_item(m, i)->id);
    }
}

/// Every tab whose project is not folded away is in the bar, and so is the shown
/// one in any case.
pub proof fn every_unfolded_tab_is_in_the_bar(m: IncusManager, i: int)
    requires
        0 <= i < m.tabs@.len(),
        id_of(m.active) == Some(m.tabs@[i].id@) || (forall|j: int|
            0 <= j < m.collapsed_groups@.len() ==> (#[trigger] m.collapsed_groups@[j])@
                != m.tabs@[i].id.project@),
    ensures
        exists|k: int|
            0 <= k < bar_of(m, m.tabs@.len()).len() && (#[trigger] bar_of(
                m,
                m.tabs@.len(),
            )[k] matches TabBarItem::Tab { id, .. } && id == m.tabs@[i].id),
{
    assert(!group_folded(m, m.tabs@[i].id.project@) || id_of(m.active) == Some(m.tabs@[i].id@));
    let part = bar_of(m, (i + 1) as nat);
    assert(part.last() == tab_item(m, i));
    bar_grows(m, (i + 1) as nat, m.tabs@.len());
    let all = bar_of(m, m.tabs@.len());
    assert(all[part.len() - 1] == part[part.len() - 1]) by {
        assert(part == all.subrange(0, part.len() as int));
    }
}

/// A tab whose project is folded away is not in the bar, unless it is shown.
pub proof fn folded_tabs_are_not_in_the_bar(m: IncusManager, k: int, j: int)
    requires
        0 <= k < bar_of(m, m.tabs@.len()).len(),
        0 <= j < m.collapsed_groups@.len(),
    ensures
        bar_of(m, m.tabs@.len())[k] matches TabBarItem::Tab { id, .. } ==> id.project@
            != m.collapsed_groups@[j]@ || id_of(m.active) == Some(id@),
{
    folded_out(m, m.tabs@.len(), k, j);
}

proof fn folded_out(m: IncusManager, n: nat, k: int, j: int)
    requires
        n <= m.tabs@.len(),
        0 <= k < bar_of(m, n).len(),
        0 <= j < m.collapsed_groups@.len(),
    ensures
        bar_of(m, n)[k] matches TabBarItem::Tab { id, .. } ==> id.project@
            != m.collapsed_groups@[j]@ || id_of(m.active) == Some(id@),
    decreases n,
{
    let front = bar_of(m, (n - 1) as nat);
    assert(texts(m.collapsed_groups@)[j] == m.collapsed_groups@[j]@);
    if k < front.len() {
        folded_out(m, (n - 1) as nat, k, j);
    }
}

/// Pressing Cmd and the number that a tab wears shows that very tab, and it alone.
pub proof fn the_number_of_a_tab_shows_it(
    m: IncusManager,
    after: IncusManager,
    key: Keystroke,
    r: Option<Reaction>,
    k: int,
)
    requires
        0 <= k < bar_of(m, m.tabs@.len()).len(),
        bar_of(m, m.tabs@.len())[k] matches TabBarItem::Tab { badge: Some(n), .. } && key.key@
            == decimal(n as nat),
        key.modifiers.platform,
        shortcut_taken(m, after, key, r),
    ensures
        bar_of(m, m.tabs@.len())[k] matches TabBarItem::Tab { id, .. } && after.active == Some(id)
            && (forall|i: int|
            0 <= i < after.tabs@.len() ==> ((#[trigger] after.tabs@[i]).visible <==> (
            after.tabs@[i].id@ == id@))) && after.tabs@.len() == m.tabs@.len(),
{
    let i = tabs_of_the_bar(m, m.tabs@.len(), k);
    cmd_and_a_number_show_a_tab(m, after, key, r, (i + 1) as nat);
}

/// A header says how many tabs its project has.
pub proof fn headers_count_their_tabs(tabs: Seq<ConsoleTab>, project: Seq<char>)
    ensures
        members_of(tabs, project) == tabs.filter(
            |tab: ConsoleTab| tab.id.project@ == project,
        ).len(),
    decreases tabs.len(),
{
    reveal(Seq::filter);
    if tabs.len() > 0 {
        headers_count_their_tabs(tabs.drop_last(), project);
    }
}

proof fn members_fit(tabs: Seq<ConsoleTab>, project: Seq<char>)
    ensures
        members_of(tabs, project) <= tabs.len(),
    decreases tabs.len(),
{
    if tabs.len() > 0 {
        members_fit(tabs.drop_last(), project);
    }
}

proof fn headers_of_the_bar(m: IncusManager, n: nat, k: int) -> (i: int)
    requires
        n <= m.tabs@.len(),
        0 <= k < bar_of(m, n).len(),
        bar_of(m, n)[k] is Header,
    ensures
        0 <= i < n,
        starts_group(m.tabs@, i),
        seq![bar_of(m, n)[k]] == header_at(m, i),
    decreases n,
{
    let front = bar_of(m, (n - 1) as nat);
    if k < front.len() {
        headers_of_the_bar(m, (n - 1) as nat, k)
    } else {
        assert(seq![bar_of(m, n)[k]] =~= header_at(m, n - 1));
        n - 1
    }
}

/// Every header of the bar is that of a project with tabs, says how many these
/// are, and whether they are folded away.
pub proof fn headers_tell_of_their_project(m: IncusManager, k: int)
    requires
        m.tabs@.len() <= usize::MAX,
        0 <= k < bar_of(m, m.tabs@.len()).len(),
    ensures
        bar_of(m, m.tabs@.len())[k] matches TabBarItem::Header { project, members, collapsed }
            ==> {
            &&& exists|i: int|
                0 <= i < m.tabs@.len() && (#[trigger] m.tabs@[i]).id.project == project && (i == 0
                    || m.tabs@[i - 1].id.project@ != project@)
            &&& members as int == members_of(m.tabs@, project@)
            &&& collapsed <==> exists|j: int|
                0 <= j < m.collapsed_groups@.len() && (#[trigger] m.collapsed_groups@[j])@
                    == project@
        },
{
    let bar = bar_of(m, m.tabs@.len());
    if let TabBarItem::Header { project, members, collapsed } = bar[k] {
        let i = headers_of_the_bar(m, m.tabs@.len(), k);
        let here = header_at(m, i);
        assert(here[0] == bar[k]) by {
            assert(seq![bar[k]][0] == bar[k]);
        }
        assert(m.tabs@[i].id.project == project);
        assert(collapsed == group_folded(m, project@));
        assert(members == members_of(m.tabs@, project@) as usize);
        members_fit(m.tabs@, project@);
        if collapsed {
            let j = choose|j: int|
                0 <= j < texts(m.collapsed_groups@).len() && texts(m.collapsed_groups@)[j]
                    == project@;
            assert(m.collapsed_groups@[j]@ == project@);
        } else {
            assert forall|j: int| 0 <= j < m.collapsed_groups@.len() implies (
            #[trigger] m.collapsed_groups@[j])@ != project@ by {
                assert(texts(m.collapsed_groups@)[j] == m.collapsed_groups@[j]@);
            }
        }
    }
}

/// Everything that is being connected stands behind the tabs, in its order.
pub proof fn pending_consoles_are_in_the_bar(connecting: Seq<VmId>, i: int)
    ensures
        pending_items(connecting).len() == connecting.len(),
        0 <= i < connecting.len() ==> pending_items(connecting)[i] == TabBarItem::Pending(
            connecting[i],
        ),
{
}

/// Every project with tabs has a header, folded away or not.
pub proof fn every_project_has_a_header(m: IncusManager, i: int)
    requires
        0 <= i < m.tabs@.len(),
        i == 0 || m.tabs@[i - 1].id.project@ != m.tabs@[i].id.project@,
    ensures
        exists|k: int|
            0 <= k < bar_of(m, m.tabs@.len()).len() && (#[trigger] bar_of(
                m,
                m.tabs@.len(),
            )[k] matches TabBarItem::Header { project, .. } && project == m.tabs@[i].id.project),
{
    let before = bar_of(m, i as nat);
    let part = bar_of(m, (i + 1) as nat);
    let all = bar_of(m, m.tabs@.len());
    bar_grows(m, (i + 1) as nat, m.tabs@.len());
    let k = before.len() as int;
    assert(part[k] == header_at(m, i)[0]);
    assert(all[k] == part[k]) by {
        assert(part == all.subrange(0, part.len() as int));
    }
}

/// The tabs stand in the bar in their order.
pub proof fn the_bar_keeps_the_order(m: IncusManager, i: int, j: int)
    requires
        0 <= i < j < m.tabs@.len(),
        m.collapsed_groups@.len() == 0,
    ensures
        exists|k: int, l: int|
            0 <= k < l < bar_of(m, m.tabs@.len()).len() && (#[trigger] bar_of(
                m,
                m.tabs@.len(),
            )[k] matches TabBarItem::Tab { id, .. } && id == m.tabs@[i].id) && (#[trigger] bar_of(
                m,
                m.tabs@.len(),
            )[l] matches TabBarItem::Tab { id, .. } && id == m.tabs@[j].id),
{
    let first = bar_of(m, (i + 1) as nat);
    let second = bar_of(m, (j + 1) as nat);
    let all = bar_of(m, m.tabs@.len());
    assert(first.last() == tab_item(m, i));
    assert(second.last() == tab_item(m, j));
    bar_grows(m, (i + 1) as nat, j as nat);
    bar_grows(m, (i + 1) as nat, m.tabs@.len());
    bar_grows(m, (j + 1) as nat, m.tabs@.len());
    assert(first.len() <= bar_of(m, j as nat).len());
    let k = first.len() - 1;
    let l = second.len() - 1;
    assert(all[k] == first[k]) by {
        assert(first == all.subrange(0, first.len() as int));
    }
    assert(all[l] == second[l]) by {
        assert(second == all.subrange(0, second.len() as int));
    }
}

} // verus!
