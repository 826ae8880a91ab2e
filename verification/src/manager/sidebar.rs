//! The tree of projects and machines: its filter, its groups and its rows.

use vstd::prelude::*;
use vstd::string::*;

use crate::incus::{id_listed, id_of, in_order, is_this, lists_id, vm_le, Vm, VmId};
use crate::manager::keys::consumed;
use crate::manager::tabs::{opens, tab_at_spec, tab_open};
use crate::manager::{Command, IncusManager, Keystroke, PowerAction, Reaction};
use crate::text::{
    all_printable, concat, contains, control_char, decimal, listed, lowercase, number, occurs, printable, same,
    text_le,
    text_le_antisymmetric, texts,
};

verus! {

/// A project and its machines.
pub struct Group {
    pub project: String,
    pub vms: Vec<Vm>,
}

/// The groups, as projects and their machines.
pub open spec fn groups_view(groups: Seq<Group>) -> Seq<(Seq<char>, Seq<Vm>)> {
    Seq::new(groups.len(), |i: int| (groups[i].project@, groups[i].vms@))
}

/// The names of the machines in lowercase.
pub open spec fn lowered_names(vms: Seq<Vm>) -> Seq<Seq<char>> {
    Seq::new(vms.len(), |i: int| lowercase(vms[i].id.name@))
}

/// Whether a machine passes the filter, by its name in lowercase: it does if the
/// filter is empty or stands somewhere in the name.
pub open spec fn passes(name: Seq<char>, needle: Seq<char>) -> bool {
    needle.len() == 0 || occurs(name, needle)
}

/// The machines that pass the filter, in the order of the list, those that
/// follow each other in one project taken together. `names` are the machines'
/// names in lowercase.
pub open spec fn grouped_vms(vms: Seq<Vm>, names: Seq<Seq<char>>, needle: Seq<char>) -> Seq<
    (Seq<char>, Seq<Vm>),
>
    decreases vms.len(),
{
    if vms.len() == 0 {
        Seq::empty()
    } else {
        let groups = grouped_vms(vms.drop_last(), names.drop_last(), needle);
        let vm = vms.last();
        if !passes(names.last(), needle) {
            groups
        } else if groups.len() > 0 && groups.last().0 == vm.id.project@ {
            groups.drop_last().push((groups.last().0, groups.last().1.push(vm)))
        } else {
            groups.push((vm.id.project@, seq![vm]))
        }
    }
}

/// The machines that pass the filter.
pub open spec fn filtered_vms(vms: Seq<Vm>, names: Seq<Seq<char>>, needle: Seq<char>) -> Seq<Vm>
    decreases vms.len(),
{
    if vms.len() == 0 {
        Seq::empty()
    } else {
        let front = filtered_vms(vms.drop_last(), names.drop_last(), needle);
        if passes(names.last(), needle) {
            front.push(vms.last())
        } else {
            front
        }
    }
}

/// The machines of some groups, one group after the other.
pub open spec fn all_of(groups: Seq<(Seq<char>, Seq<Vm>)>) -> Seq<Vm>
    decreases groups.len(),
{
    if groups.len() == 0 {
        Seq::empty()
    } else {
        all_of(groups.drop_last()) + groups.last().1
    }
}

/// Groups the machines that pass the filter. `names` are their names in
/// lowercase, and so is the filter.
pub fn group_by_project(vms: &Vec<Vm>, names: &Vec<String>, needle: &str) -> (r: Vec<Group>)
    requires
        names@.len() == vms@.len(),
    ensures
        groups_view(r@) == grouped_vms(vms@, texts(names@), needle@),
{
    let mut out: Vec<Group> = Vec::new();
    let mut i: usize = 0;
    let ghost all = texts(names@);
    assert(groups_view(out@) =~= Seq::empty());
    while i < vms.len()
        invariant
            i <= vms@.len(),
            names@.len() == vms@.len(),
            all == texts(names@),
            groups_view(out@) == grouped_vms(vms@.take(i as int), all.take(i as int), needle@),
        decreases vms@.len() - i,
    {
        let ghost before = groups_view(out@);
        let vm: &Vm = &vms[i];
        proof {
            assert(vms@.take(i + 1).drop_last() =~= vms@.take(i as int));
            assert(all.take(i + 1).drop_last() =~= all.take(i as int));
            assert(all.take(i + 1).last() == names@[i as int]@);
        }
        if needle.is_empty() || contains(names[i].as_str(), needle) {
            let n: usize = out.len();
            if n > 0 && same(out[n - 1].project.as_str(), vm.id.project.as_str()) {
                assert(before.last() == (out@[n - 1].project@, out@[n - 1].vms@));
                out[n - 1].vms.push(vm.clone());
                assert(groups_view(out@) =~= before.drop_last().push(
                    (before.last().0, before.last().1.push(*vm)),
                ));
            } else {
                let mut list: Vec<Vm> = Vec::new();
                list.push(vm.clone());
                assert(list@ =~= seq![*vm]);
                if n > 0 {
                    assert(before.last() == (out@[n - 1].project@, out@[n - 1].vms@));
                }
                out.push(Group { project: vm.id.project.clone(), vms: list });
                assert(groups_view(out@) =~= before.push((vm.id.project@, seq![*vm])));
            }
        }
        i += 1;
    }
    assert(vms@.take(i as int) =~= vms@);
    assert(all.take(i as int) =~= all);
    out
}

/// The names of some machines in lowercase.
pub fn lower_names(vms: &Vec<Vm>) -> (r: Vec<String>)
    ensures
        texts(r@) == lowered_names(vms@),
{
    let mut out: Vec<String> = Vec::new();
    let mut i: usize = 0;
    while i < vms.len()
        invariant
            i <= vms@.len(),
            out@.len() == i,
            forall|j: int| 0 <= j < i ==> (#[trigger] out@[j])@ == lowercase(vms@[j].id.name@),
        decreases vms@.len() - i,
    {
        out.push(vms[i].id.name.as_str().to_lowercase());
        i += 1;
    }
    assert(texts(out@) =~= lowered_names(vms@));
    out
}

proof fn all_of_push(groups: Seq<(Seq<char>, Seq<Vm>)>, group: (Seq<char>, Seq<Vm>))
    ensures
        all_of(groups.push(group)) == all_of(groups) + group.1,
{
    assert(groups.push(group).drop_last() =~= groups);
}

/// The groups hold every machine that passes the filter, once, in the order of
/// the list.
pub proof fn groups_hold_what_passes(vms: Seq<Vm>, names: Seq<Seq<char>>, needle: Seq<char>)
    ensures
        all_of(grouped_vms(vms, names, needle)) == filtered_vms(vms, names, needle),
    decreases vms.len(),
{
    if vms.len() > 0 {
        groups_hold_what_passes(vms.drop_last(), names.drop_last(), needle);
        let groups = grouped_vms(vms.drop_last(), names.drop_last(), needle);
        let vm = vms.last();
        if passes(names.last(), needle) {
            if groups.len() > 0 && groups.last().0 == vm.id.project@ {
                let last = groups.last();
                all_of_push(groups.drop_last(), (last.0, last.1.push(vm)));
                assert(all_of(groups.drop_last()) + last.1.push(vm) =~= all_of(groups).push(vm));
            } else {
                all_of_push(groups, (vm.id.project@, seq![vm]));
                assert(all_of(groups) + seq![vm] =~= all_of(groups).push(vm));
            }
        }
    }
}

/// Whether groups are not empty, hold machines of their own project only, and
/// differ in their project from the group before.
pub open spec fn proper_groups(groups: Seq<(Seq<char>, Seq<Vm>)>) -> bool {
    &&& forall|i: int| 0 <= i < groups.len() ==> (#[trigger] groups[i]).1.len() > 0
    &&& forall|i: int, j: int|
        0 <= i < groups.len() && 0 <= j < groups[i].1.len() ==> (
        #[trigger] groups[i].1[j]).id.project@ == groups[i].0
    &&& forall|i: int, j: int|
        0 <= i < groups.len() - 1 && j == i + 1 ==> (#[trigger] groups[i]).0 != (
        #[trigger] groups[j]).0
}

/// Every group is of one project, is not empty, and stands next to groups of
/// other projects.
pub proof fn groups_are_proper(vms: Seq<Vm>, names: Seq<Seq<char>>, needle: Seq<char>)
    ensures
        proper_groups(grouped_vms(vms, names, needle)),
    decreases vms.len(),
{
    if vms.len() > 0 {
        groups_are_proper(vms.drop_last(), names.drop_last(), needle);
        let groups = grouped_vms(vms.drop_last(), names.drop_last(), needle);
        let out = grouped_vms(vms, names, needle);
        let vm = vms.last();
        if passes(names.last(), needle) {
            if groups.len() > 0 && groups.last().0 == vm.id.project@ {
                let n = groups.len() - 1;
                assert forall|i: int, j: int|
                    0 <= i < out.len() && 0 <= j < out[i].1.len() implies (
                #[trigger] out[i].1[j]).id.project@ == out[i].0 by {
                    if i == n {
                        if j < groups[n].1.len() {
                            assert(out[i].1[j] == groups[n].1[j]);
                        }
                    } else {
                        assert(out[i] == groups[i]);
                    }
                }
                assert forall|i: int, j: int|
                    0 <= i < out.len() - 1 && j == i + 1 implies (#[trigger] out[i]).0 != (
                #[trigger] out[j]).0 by {
                    assert(out[i].0 == groups[i].0 && out[j].0 == groups[j].0);
                }
            } else {
                assert forall|i: int, j: int|
                    0 <= i < out.len() && 0 <= j < out[i].1.len() implies (
                #[trigger] out[i].1[j]).id.project@ == out[i].0 by {
                    if i < groups.len() {
                        assert(out[i] == groups[i]);
                    }
                }
            }
        }
    }
}

/// Whether groups come in the order of their projects, none twice.
pub open spec fn ascending(groups: Seq<(Seq<char>, Seq<Vm>)>) -> bool {
    forall|i: int, j: int|
        0 <= i < j < groups.len() ==> (#[trigger] groups[i]).0 != (#[trigger] groups[j]).0
            && text_le(groups[i].0, groups[j].0)
}

proof fn group_member(vms: Seq<Vm>, names: Seq<Seq<char>>, needle: Seq<char>, i: int)
    requires
        0 <= i < grouped_vms(vms, names, needle).len(),
    ensures
        exists|k: int|
            0 <= k < vms.len() && (#[trigger] vms[k]).id.project@ == grouped_vms(
                vms,
                names,
                needle,
            )[i].0,
    decreases vms.len(),
{
    let groups = grouped_vms(vms.drop_last(), names.drop_last(), needle);
    let out = grouped_vms(vms, names, needle);
    if i < groups.len() {
        group_member(vms.drop_last(), names.drop_last(), needle, i);
        let k = choose|k: int|
            0 <= k < vms.drop_last().len() && (#[trigger] vms.drop_last()[k]).id.project@
                == groups[i].0;
        assert(vms[k].id.project@ == out[i].0);
    } else {
        assert(vms[vms.len() - 1].id.project@ == out[i].0);
    }
}

/// In a list sorted by project, every project has one group, and the groups are
/// in the projects' order.
pub proof fn sorted_lists_group_once(vms: Seq<Vm>, names: Seq<Seq<char>>, needle: Seq<char>)
    requires
        in_order(vms),
    ensures
        ascending(grouped_vms(vms, names, needle)),
    decreases vms.len(),
{
    if vms.len() > 0 {
        let front = vms.drop_last();
        let groups = grouped_vms(front, names.drop_last(), needle);
        assert(in_order(front)) by {
            assert forall|i: int, j: int| 0 <= i < j < front.len() implies vm_le(
                #[trigger] front[i],
                #[trigger] front[j],
            ) by {
                assert(vm_le(vms[i], vms[j]));
            }
        }
        sorted_lists_group_once(front, names.drop_last(), needle);
        let out = grouped_vms(vms, names, needle);
        let vm = vms.last();
        let project = vm.id.project@;
        // Every project of the groups so far comes no later than the new one.
        assert forall|i: int| 0 <= i < groups.len() implies (#[trigger] groups[i]).0 == project
            || text_le(groups[i].0, project) by {
            group_member(front, names.drop_last(), needle, i);
            let k = choose|k: int|
                0 <= k < front.len() && (#[trigger] front[k]).id.project@ == groups[i].0;
            assert(vm_le(vms[k], vms[vms.len() - 1]));
        }
        if passes(names.last(), needle) {
            if groups.len() > 0 && groups.last().0 == project {
                assert forall|i: int, j: int| 0 <= i < j < out.len() implies (#[trigger] out[i]).0
                    != (#[trigger] out[j]).0 && text_le(out[i].0, out[j].0) by {
                    assert(out[i].0 == groups[i].0 && out[j].0 == groups[j].0);
                }
            } else {
                assert forall|i: int, j: int| 0 <= i < j < out.len() implies (#[trigger] out[i]).0
                    != (#[trigger] out[j]).0 && text_le(out[i].0, out[j].0) by {
                    assert(out[i] == groups[i]);
                    if j < groups.len() {
                        assert(out[j] == groups[j]);
                    } else if groups[i].0 == project {
                        // The last group would come after the new project and
                        // no later than it.
                        let n = groups.len() - 1;
                        assert(i < n);
                        assert(text_le(groups[i].0, groups[n].0));
                        assert(text_le(groups[n].0, project));
                        text_le_antisymmetric(groups[n].0, project);
                    }
                }
            }
        }
    }
}

// ---------------------------------------------------------------------------
// The list and the filter
// ---------------------------------------------------------------------------

/// What a key does to the filter.
pub open spec fn edited_filter(filter: Seq<char>, key: Keystroke) -> Seq<char> {
    if key.key@ == "backspace"@ {
        if filter.len() > 0 {
            filter.drop_last()
        } else {
            filter
        }
    } else if key.key@ == "escape"@ {
        Seq::empty()
    } else {
        match key.key_char {
            Some(typed) => if printable(typed@) {
                filter + typed@
            } else {
                filter
            },
            None => filter,
        }
    }
}

/// What a key in the filter does: the groups follow the filter, and the key is
/// kept from the guest.
pub open spec fn filter_key_does(
    before: IncusManager,
    after: IncusManager,
    key: Keystroke,
    reaction: Reaction,
) -> bool {
    &&& after.filter@ == edited_filter(before.filter@, key)
    &&& groups_view(after.grouped@) == grouped_vms(
        before.vms@,
        lowered_names(before.vms@),
        lowercase(after.filter@),
    )
    &&& consumed(after) == consumed(before).insert(key.key@)
    &&& after == (IncusManager {
        filter: after.filter,
        grouped: after.grouped,
        consumed_keys: after.consumed_keys,
        ..before
    })
    &&& reaction.repaints()
}

/// What a list that was fetched while the remote of `epoch` was in use comes to.
pub open spec fn refreshes(
    before: IncusManager,
    after: IncusManager,
    epoch: u64,
    result: Result<Vec<Vm>, String>,
    reaction: Reaction,
) -> bool {
    if epoch != before.remote_epoch {
        after == before && reaction.idle()
    } else {
        &&& reaction.repaints()
        &&& match result {
            Ok(vms) => {
                &&& groups_view(after.grouped@) == grouped_vms(
                    vms@,
                    lowered_names(vms@),
                    lowercase(before.filter@),
                )
                &&& after == (IncusManager { error: None, vms, grouped: after.grouped, ..before })
            },
            Err(e) => after == (IncusManager { error: Some(e), ..before }),
        }
    }
}

impl IncusManager {
    /// Rebuilds the groups of the sidebar.
    pub fn regroup(&mut self)
        ensures
            groups_view(final(self).grouped@) == grouped_vms(
                old(self).vms@,
                lowered_names(old(self).vms@),
                lowercase(old(self).filter@),
            ),
            *final(self) == (IncusManager { grouped: final(self).grouped, ..*old(self) }),
            old(self).wf() ==> final(self).wf(),
    {
        let needle: String = self.filter.as_str().to_lowercase();
        let names: Vec<String> = lower_names(&self.vms);
        assert(names@.len() == texts(names@).len());
        self.grouped = group_by_project(&self.vms, &names, needle.as_str());
    }

    /// Takes over a new list of machines.
    pub fn set_vms(&mut self, vms: Vec<Vm>)
        ensures
            groups_view(final(self).grouped@) == grouped_vms(
                vms@,
                lowered_names(vms@),
                lowercase(old(self).filter@),
            ),
            *final(self) == (IncusManager { vms, grouped: final(self).grouped, ..*old(self) }),
            old(self).wf() ==> final(self).wf(),
    {
        self.vms = vms;
        self.regroup();
    }

    /// Fetching the list of the remote that was in use at `epoch` has come to its
    /// end. A failure leaves the list on screen and says why it is stale. Where
    /// another remote has come into use since, nothing changes.
    pub fn refresh(&mut self, epoch: u64, result: Result<Vec<Vm>, String>) -> (r: Reaction)
        ensures
            refreshes(*old(self), *final(self), epoch, result, r),
            old(self).wf() ==> final(self).wf(),
    {
        if epoch != self.remote_epoch {
            return Reaction::none();
        }
        match result {
            Ok(vms) => {
                self.error = None;
                self.set_vms(vms);
            },
            Err(e) => {
                self.error = Some(e);
            },
        }
        Reaction::repaint()
    }

    /// A key in the filter: erases, clears or appends.
    pub fn handle_filter_key(&mut self, key: &Keystroke) -> (r: Reaction)
        ensures
            filter_key_does(*old(self), *final(self), *key, r),
            old(self).wf() ==> final(self).wf(),
    {
        self.note_consumed(key.key.as_str());
        if same(key.key.as_str(), "backspace") {
            self.filter.pop();
        } else if same(key.key.as_str(), "escape") {
            self.filter = String::new();
        } else if let Some(typed) = &key.key_char {
            if all_printable(typed.as_str()) {
                self.filter.append(typed.as_str());
            }
        }
        self.regroup();
        Reaction::repaint()
    }
}

// ---------------------------------------------------------------------------
// Folding
// ---------------------------------------------------------------------------

/// The index of the first entry that is `key`; the length where there is none.
pub open spec fn entry_at(list: Seq<String>, key: Seq<char>) -> int
    decreases list.len(),
{
    if list.len() == 0 {
        0
    } else if list[0]@ == key {
        0
    } else {
        1 + entry_at(list.drop_first(), key)
    }
}

proof fn entry_at_spec(list: Seq<String>, key: Seq<char>)
    ensures
        0 <= entry_at(list, key) <= list.len(),
        entry_at(list, key) < list.len() ==> list[entry_at(list, key)]@ == key,
        forall|j: int| 0 <= j < entry_at(list, key) ==> (#[trigger] list[j])@ != key,
    decreases list.len(),
{
    if list.len() > 0 && list[0]@ != key {
        let rest = list.drop_first();
        entry_at_spec(rest, key);
        assert forall|j: int| 0 <= j < entry_at(list, key) implies (#[trigger] list[j])@ != key by {
            if j > 0 {
                assert(rest[j - 1] == list[j]);
            }
        }
    }
}

/// A list of folded projects with one more folded, or unfolded where it was.
pub open spec fn toggled(list: Seq<Seq<char>>, key: Seq<char>, at: int) -> Seq<Seq<char>> {
    if at < list.len() {
        list.remove(at)
    } else {
        list.push(key)
    }
}

/// Folds or unfolds a project.
pub fn toggle_collapsed(list: &mut Vec<String>, key: &str)
    ensures
        texts(final(list)@) == toggled(texts(old(list)@), key@, entry_at(old(list)@, key@)),
{
    let mut i: usize = 0;
    while i < list.len()
        invariant
            i <= list@.len(),
            list@ == old(list)@,
            forall|j: int| 0 <= j < i ==> (#[trigger] list@[j])@ != key@,
        decreases list@.len() - i,
    {
        if same(list[i].as_str(), key) {
            proof {
                entry_at_spec(list@, key@);
                assert(entry_at(list@, key@) == i);
            }
            list.remove(i);
            assert(texts(list@) =~= texts(old(list)@).remove(i as int));
            return;
        }
        i += 1;
    }
    proof {
        entry_at_spec(list@, key@);
        assert(entry_at(list@, key@) == list@.len());
    }
    list.push(key.to_owned());
    assert(texts(list@) =~= texts(old(list)@).push(key@));
}

/// Toggling flips one project: in a list without repetitions it is folded
/// afterwards exactly if it was not before, every other project is as it was,
/// and the list stays without repetitions.
pub proof fn toggling_flips_one_entry(list: Seq<String>, key: Seq<char>, other: Seq<char>)
    requires
        texts(list).no_duplicates(),
    ensures
        ({
            let after = toggled(texts(list), key, entry_at(list, key));
            &&& after.contains(key) == !texts(list).contains(key)
            &&& other != key ==> after.contains(other) == texts(list).contains(other)
            &&& after.no_duplicates()
        }),
{
    let before = texts(list);
    let at = entry_at(list, key);
    let after = toggled(before, key, at);
    entry_at_spec(list, key);
    if at < list.len() {
        assert(before[at] == key);
        if after.contains(key) {
            let k = choose|k: int| 0 <= k < after.len() && after[k] == key;
            let there = if k < at {
                k
            } else {
                k + 1
            };
            assert(before[there] == key);
        }
        if other != key && before.contains(other) {
            let k = choose|k: int| 0 <= k < before.len() && before[k] == other;
            let there = if k < at {
                k
            } else {
                k - 1
            };
            assert(after[there] == other);
        }
        if after.contains(other) {
            let k = choose|k: int| 0 <= k < after.len() && after[k] == other;
            let there = if k < at {
                k
            } else {
                k + 1
            };
            assert(before[there] == other);
        }
    } else {
        assert forall|j: int| 0 <= j < before.len() implies before[j] != key by {
            assert(list[j]@ != key);
        }
        assert(after[before.len() as int] == key);
        if other != key && before.contains(other) {
            let k = choose|k: int| 0 <= k < before.len() && before[k] == other;
            assert(after[k] == other);
        }
        if other != key && after.contains(other) {
            let k = choose|k: int| 0 <= k < after.len() && after[k] == other;
            assert(before[k] == other);
        }
    }
}

// ---------------------------------------------------------------------------
// Rows
// ---------------------------------------------------------------------------

/// A machine in the sidebar.
pub struct SidebarRow {
    pub vm: Vm,
    /// Its tab is shown.
    pub is_active: bool,
    /// It has a tab, and is not being connected.
    pub is_open: bool,
    /// It is being connected.
    pub pending: bool,
    /// It is running; otherwise it can be started.
    pub running: bool,
}

/// A project in the sidebar: its name, how many machines it shows, and the rows
/// of these unless it is folded.
pub struct SidebarGroup {
    pub project: String,
    pub count: usize,
    pub collapsed: bool,
    pub rows: Vec<SidebarRow>,
}

/// The row of a machine.
pub open spec fn sidebar_row(m: IncusManager, vm: Vm) -> SidebarRow {
    SidebarRow {
        vm,
        is_active: id_of(m.active) == Some(vm.id@),
        is_open: tab_open(m.tabs@, vm.id@) && !id_listed(m.connecting@, vm.id@),
        pending: id_listed(m.connecting@, vm.id@),
        running: vm.is_running(),
    }
}

/// Whether a project is folded. A search unfolds everything, because its hits
/// would stay hidden otherwise.
pub open spec fn project_folded(m: IncusManager, project: Seq<char>) -> bool {
    m.filter@.len() == 0 && texts(m.collapsed@).contains(project)
}

/// Whether a group of the sidebar is that of a project and its machines.
pub open spec fn sidebar_group_is(
    m: IncusManager,
    shown: SidebarGroup,
    project: Seq<char>,
    vms: Seq<Vm>,
) -> bool {
    &&& shown.project@ == project
    &&& shown.count == vms.len()
    &&& shown.collapsed == project_folded(m, project)
    &&& shown.rows@ == (if shown.collapsed {
        Seq::empty()
    } else {
        Seq::new(vms.len(), |j: int| sidebar_row(m, vms[j]))
    })
}

impl IncusManager {
    fn row(&self, vm: &Vm) -> (r: SidebarRow)
        ensures
            r == sidebar_row(*self, *vm),
    {
        let pending: bool = lists_id(&self.connecting, &vm.id);
        SidebarRow {
            vm: vm.clone(),
            is_active: is_this(&self.active, &vm.id),
            is_open: self.is_open(&vm.id) && !pending,
            pending,
            running: vm.running(),
        }
    }

    /// What the sidebar shows.
    pub fn sidebar(&self) -> (r: Vec<SidebarGroup>)
        ensures
            r@.len() == self.grouped@.len(),
            forall|i: int|
                0 <= i < r@.len() ==> sidebar_group_is(
                    *self,
                    #[trigger] r@[i],
                    self.grouped@[i].project@,
                    self.grouped@[i].vms@,
                ),
    {
        let filtering: bool = !self.filter.as_str().is_empty();
        let mut out: Vec<SidebarGroup> = Vec::new();
        let mut i: usize = 0;
        while i < self.grouped.len()
            invariant
                i <= self.grouped@.len(),
                out@.len() == i,
                filtering == (self.filter@.len() > 0),
                forall|k: int|
                    0 <= k < i ==> sidebar_group_is(
                        *self,
                        #[trigger] out@[k],
                        self.grouped@[k].project@,
                        self.grouped@[k].vms@,
                    ),
            decreases self.grouped@.len() - i,
        {
            let group: &Group = &self.grouped[i];
            let collapsed: bool = !filtering && listed(&self.collapsed, group.project.as_str());
            let mut rows: Vec<SidebarRow> = Vec::new();
            if !collapsed {
                let mut j: usize = 0;
                while j < group.vms.len()
                    invariant
                        j <= group.vms@.len(),
                        rows@.len() == j,
                        forall|k: int|
                            0 <= k < j ==> #[trigger] rows@[k] == sidebar_row(
                                *self,
                                group.vms@[k],
                            ),
                    decreases group.vms@.len() - j,
                {
                    rows.push(self.row(&group.vms[j]));
                    j += 1;
                }
            }
            let shown: SidebarGroup = SidebarGroup {
                project: group.project.clone(),
                count: group.vms.len(),
                collapsed,
                rows,
            };
            assert(sidebar_group_is(*self, shown, group.project@, group.vms@)) by {
                if !collapsed {
                    assert(shown.rows@ =~= Seq::new(
                        group.vms@.len(),
                        |j: int| sidebar_row(*self, group.vms@[j]),
                    ));
                } else {
                    assert(shown.rows@ =~= Seq::empty());
                }
            }
            out.push(shown);
            i += 1;
        }
        out
    }
}

/// What stands above the machines: the remote in use, how many machines there
/// are, and the filter.
pub struct SidebarHeader {
    pub remote: String,
    pub count: String,
    pub filter: String,
    /// Whether anything is in the filter; otherwise it says how to get there.
    pub filtering: bool,
}

impl IncusManager {
    /// What stands above the machines.
    pub fn sidebar_header(&self) -> (r: SidebarHeader)
        ensures
            r.remote@ == self.current_remote@ + " ▾"@,
            r.count@ == decimal(self.vms@.len()) + " 台 ⟳"@,
            r.filtering == (self.filter@.len() > 0),
            r.filter@ == if r.filtering {
                self.filter@
            } else {
                "搜索  ⌘F"@
            },
    {
        let filtering: bool = !self.filter.as_str().is_empty();
        SidebarHeader {
            remote: concat(self.current_remote.as_str(), " ▾"),
            count: concat(number(self.vms.len() as u64).as_str(), " 台 ⟳"),
            filter: if filtering {
                self.filter.clone()
            } else {
                "搜索  ⌘F".to_owned()
            },
            filtering,
        }
    }
}

// ---------------------------------------------------------------------------
// Clicks
// ---------------------------------------------------------------------------

impl IncusManager {
    /// A click on a machine's start control.
    pub fn start_clicked(&self, id: VmId) -> (r: Reaction)
        ensures
            r == (Reaction {
                repaint: false,
                focus: None,
                command: Some(Command::Power { id, action: PowerAction::Start }),
            }),
    {
        Reaction {
            repaint: false,
            focus: None,
            command: Some(Command::Power { id, action: PowerAction::Start }),
        }
    }

    /// A click on a project: folds or unfolds its machines.
    pub fn project_clicked(&mut self, project: &str) -> (r: Reaction)
        ensures
            texts(final(self).collapsed@) == toggled(
                texts(old(self).collapsed@),
                project@,
                entry_at(old(self).collapsed@, project@),
            ),
            *final(self) == (IncusManager { collapsed: final(self).collapsed, ..*old(self) }),
            r.repaints(),
            old(self).wf() ==> final(self).wf(),
    {
        toggle_collapsed(&mut self.collapsed, project);
        Reaction::repaint()
    }

    /// A click on the header of a project's tabs: folds or unfolds them.
    pub fn group_clicked(&mut self, project: &str) -> (r: Reaction)
        ensures
            texts(final(self).collapsed_groups@) == toggled(
                texts(old(self).collapsed_groups@),
                project@,
                entry_at(old(self).collapsed_groups@, project@),
            ),
            *final(self) == (IncusManager {
                collapsed_groups: final(self).collapsed_groups,
                ..*old(self)
            }),
            r.repaints(),
            old(self).wf() ==> final(self).wf(),
    {
        toggle_collapsed(&mut self.collapsed_groups, project);
        Reaction::repaint()
    }

    /// A click on a machine: opens its console where it is running. One that is
    /// not is never started by a mere click.
    pub fn row_clicked(&mut self, vm: &Vm) -> (r: Reaction)
        ensures
            ({
                let closed = IncusManager { context_menu: None, ..*old(self) };
                if vm.is_running() {
                    opens(closed, *final(self), vm.id, r)
                } else {
                    *final(self) == closed && r.idle()
                }
            }),
            old(self).wf() ==> final(self).wf(),
    {
        self.context_menu = None;
        if vm.running() {
            self.open_or_focus(vm.id.clone())
        } else {
            Reaction::none()
        }
    }
}

// ---------------------------------------------------------------------------
// What the operations amount to
// ---------------------------------------------------------------------------

/// The machines that pass the filter are those whose names hold it, ignoring
/// case, in the order of the list; all of them where the filter is empty.
/// `names` are the machines' names in lowercase.
pub proof fn the_filter_goes_by_the_name(vms: Seq<Vm>, names: Seq<Seq<char>>, needle: Seq<char>)
    requires
        names.len() == vms.len(),
    ensures
        all_of(grouped_vms(vms, names, needle)) == vms.zip_with(names).filter_map(
            |row: (Vm, Seq<char>)|
                if needle.len() == 0 || occurs(row.1, needle) {
                    Some(row.0)
                } else {
                    None
                },
        ),
{
    groups_hold_what_passes(vms, names, needle);
    filtering_by_name(vms, names, needle);
}

proof fn filtering_by_name(vms: Seq<Vm>, names: Seq<Seq<char>>, needle: Seq<char>)
    requires
        names.len() == vms.len(),
    ensures
        filtered_vms(vms, names, needle) == vms.zip_with(names).filter_map(
            |row: (Vm, Seq<char>)|
                if needle.len() == 0 || occurs(row.1, needle) {
                    Some(row.0)
                } else {
                    None
                },
        ),
    decreases vms.len(),
{
    let rows = vms.zip_with(names);
    let f = |row: (Vm, Seq<char>)|
        if needle.len() == 0 || occurs(row.1, needle) {
            Some(row.0)
        } else {
            None
        };
    if vms.len() > 0 {
        let front = vms.drop_last().zip_with(names.drop_last());
        filtering_by_name(vms.drop_last(), names.drop_last(), needle);
        assert(rows.drop_last() =~= front);
        assert(rows.last() == (vms.last(), names.last()));
        assert(rows.filter_map(f) =~= filtered_vms(vms, names, needle));
    }
}

proof fn filtered_members(vms: Seq<Vm>, names: Seq<Seq<char>>, needle: Seq<char>, vm: Vm)
    requires
        names.len() == vms.len(),
    ensures
        filtered_vms(vms, names, needle).contains(vm) <==> exists|i: int|
            0 <= i < vms.len() && #[trigger] vms[i] == vm && (needle.len() == 0 || occurs(
                names[i],
                needle,
            )),
    decreases vms.len(),
{
    let out = filtered_vms(vms, names, needle);
    if vms.len() > 0 {
        let (v, n) = (vms.drop_last(), names.drop_last());
        let front = filtered_vms(v, n, needle);
        filtered_members(v, n, needle, vm);
        if out.contains(vm) {
            let k = choose|k: int| 0 <= k < out.len() && out[k] == vm;
            if k < front.len() {
                assert(front[k] == vm);
                assert(front.contains(vm));
                let i = choose|i: int|
                    0 <= i < v.len() && #[trigger] v[i] == vm && (needle.len() == 0 || occurs(
                        n[i],
                        needle,
                    ));
                assert(vms[i] == vm);
            } else {
                assert(vms[vms.len() - 1] == vm);
            }
        }
        if exists|i: int|
            0 <= i < vms.len() && #[trigger] vms[i] == vm && (needle.len() == 0 || occurs(
                names[i],
                needle,
            )) {
            let i = choose|i: int|
                0 <= i < vms.len() && #[trigger] vms[i] == vm && (needle.len() == 0 || occurs(
                    names[i],
                    needle,
                ));
            if i < v.len() {
                assert(v[i] == vm);
                let k = choose|k: int| 0 <= k < front.len() && front[k] == vm;
                assert(out[k] == vm);
            } else {
                assert(out.last() == vm);
            }
        }
    }
}

/// What the sidebar holds: a machine of the list is in one of the groups exactly
/// if the filter is empty or its name holds the filter, both in lowercase.
pub proof fn the_tree_holds_what_the_filter_matches(m: IncusManager, vm: Vm)
    requires
        m.wf(),
    ensures
        all_of(groups_view(m.grouped@)).contains(vm) <==> m.vms@.contains(vm) && (lowercase(
            m.filter@,
        ).len() == 0 || occurs(lowercase(vm.id.name@), lowercase(m.filter@))),
{
    let names = lowered_names(m.vms@);
    let needle = lowercase(m.filter@);
    groups_hold_what_passes(m.vms@, names, needle);
    filtered_members(m.vms@, names, needle, vm);
    if m.vms@.contains(vm) {
        let i = choose|i: int| 0 <= i < m.vms@.len() && m.vms@[i] == vm;
        assert(names[i] == lowercase(vm.id.name@));
        assert(m.vms@[i] == vm);
    }
    if filtered_vms(m.vms@, names, needle).contains(vm) {
        let i = choose|i: int|
            0 <= i < m.vms@.len() && #[trigger] m.vms@[i] == vm && (needle.len() == 0 || occurs(
                names[i],
                needle,
            ));
        assert(names[i] == lowercase(vm.id.name@));
    }
}

/// Typing a character into the filter appends it, and Backspace takes it away
/// again; Escape empties the filter; a control character is not typed.
pub proof fn the_filter_is_edited_at_its_end(
    filter: Seq<char>,
    c: char,
    key: Keystroke,
    back: Keystroke,
    escape: Keystroke,
)
    requires
        key.key@ != "backspace"@,
        key.key@ != "escape"@,
        key.key_char matches Some(typed) && typed@ == seq![c],
        back.key@ == "backspace"@,
        escape.key@ == "escape"@,
    ensures
        !control_char(c) ==> edited_filter(filter, key) == filter.push(c) && edited_filter(
            edited_filter(filter, key),
            back,
        ) == filter,
        control_char(c) ==> edited_filter(filter, key) == filter,
        edited_filter(Seq::empty(), back).len() == 0,
        edited_filter(filter, escape).len() == 0,
{
    reveal_strlit("backspace");
    reveal_strlit("escape");
    assert("backspace"@.len() != "escape"@.len());
    if !control_char(c) {
        assert(printable(seq![c]));
        assert(filter + seq![c] =~= filter.push(c));
        assert(filter.push(c).drop_last() =~= filter);
    } else {
        assert(control_char(seq![c][0]));
    }
}

/// A project is folded exactly if it was folded and nothing is searched for.
pub proof fn searching_unfolds(m: IncusManager, project: Seq<char>)
    ensures
        project_folded(m, project) <==> m.filter@.len() == 0 && (exists|i: int|
            0 <= i < m.collapsed@.len() && (#[trigger] m.collapsed@[i])@ == project),
{
    if project_folded(m, project) {
        let i = choose|i: int|
            0 <= i < texts(m.collapsed@).len() && texts(m.collapsed@)[i] == project;
        assert(m.collapsed@[i]@ == project);
    }
    if exists|i: int| 0 <= i < m.collapsed@.len() && (#[trigger] m.collapsed@[i])@ == project {
        let i = choose|i: int|
            0 <= i < m.collapsed@.len() && (#[trigger] m.collapsed@[i])@ == project;
        assert(texts(m.collapsed@)[i] == project);
    }
}

/// A row tells the state of its machine: whether its tab is shown, whether it has
/// one, whether it is being connected, and whether it runs.
pub proof fn rows_tell_the_state(m: IncusManager, vm: Vm)
    ensures
        ({
            let row = sidebar_row(m, vm);
            let pending = exists|i: int|
                0 <= i < m.connecting@.len() && (#[trigger] m.connecting@[i])@ == vm.id@;
            let open = exists|i: int|
                0 <= i < m.tabs@.len() && (#[trigger] m.tabs@[i]).id@ == vm.id@;
            &&& row.vm == vm
            &&& row.is_active <==> (m.active matches Some(id) && id.project@ == vm.id.project@
                && id.name@ == vm.id.name@)
            &&& row.pending <==> pending
            &&& row.is_open <==> open && !pending
            &&& row.running <==> vm.status@ == "Running"@
        }),
{
    tab_at_spec(m.tabs@, vm.id@);
    if let Some(id) = m.active {
        assert(id@ == vm.id@ <==> id.project@ == vm.id.project@ && id.name@ == vm.id.name@);
    }
}

/// A list that has come replaces the one before and the message about it; one
/// that has not leaves the list on screen and says why; and one of a remote that
/// is no longer in use is not taken. The tabs stay in any case.
pub proof fn a_failed_refresh_keeps_the_list(
    before: IncusManager,
    after: IncusManager,
    epoch: u64,
    result: Result<Vec<Vm>, String>,
    reaction: Reaction,
)
    requires
        refreshes(before, after, epoch, result, reaction),
    ensures
        epoch == before.remote_epoch ==> reaction.repaint && (match result {
            Ok(vms) => after.vms == vms && after.error is None,
            Err(e) => after.vms == before.vms && after.grouped == before.grouped && after.error
                == Some(e),
        }),
        epoch != before.remote_epoch ==> after == before && !reaction.repaint,
        after.tabs == before.tabs && after.active == before.active && after.connecting
            == before.connecting && after.filter == before.filter && after.collapsed
            == before.collapsed,
{
}

/// A group is of one project: all its machines belong to it, there is at least
/// one, and the group before and the group behind are of other projects.
pub proof fn a_group_is_one_project(
    vms: Seq<Vm>,
    names: Seq<Seq<char>>,
    needle: Seq<char>,
    i: int,
    j: int,
)
    requires
        0 <= i < grouped_vms(vms, names, needle).len(),
    ensures
        ({
            let groups = grouped_vms(vms, names, needle);
            &&& groups[i].1.len() > 0
            &&& 0 <= j < groups[i].1.len() ==> groups[i].1[j].id.project@ == groups[i].0
            &&& i + 1 < groups.len() ==> groups[i].0 != groups[i + 1].0
        }),
{
    groups_are_proper(vms, names, needle);
}

/// In a list that is sorted by project no project has two groups.
pub proof fn a_project_has_one_group(
    vms: Seq<Vm>,
    names: Seq<Seq<char>>,
    needle: Seq<char>,
    i: int,
    j: int,
)
    requires
        forall|a: int, b: int|
            0 <= a < b < vms.len() ==> #[trigger] text_le(
                vms[a].id.project@,
                vms[b].id.project@,
            ) && (vms[a].id.project@ == vms[b].id.project@ ==> text_le(
                vms[a].id.name@,
                vms[b].id.name@,
            )),
        0 <= i < j < grouped_vms(vms, names, needle).len(),
    ensures
        grouped_vms(vms, names, needle)[i].0 != grouped_vms(vms, names, needle)[j].0,
        text_le(grouped_vms(vms, names, needle)[i].0, grouped_vms(vms, names, needle)[j].0),
{
    assert(in_order(vms)) by {
        assert forall|a: int, b: int| 0 <= a < b < vms.len() implies vm_le(
            #[trigger] vms[a],
            #[trigger] vms[b],
        ) by {
            assert(text_le(vms[a].id.project@, vms[b].id.project@));
        }
    }
    sorted_lists_group_once(vms, names, needle);
}

/// A click on a project folds it or unfolds it, and a second one undoes the first.
pub proof fn folding_twice_changes_nothing(list: Seq<String>, key: Seq<char>)
    requires
        texts(list).no_duplicates(),
        !texts(list).contains(key),
    ensures
        toggled(texts(list), key, entry_at(list, key)) == texts(list).push(key),
        toggled(texts(list).push(key), key, list.len() as int) == texts(list),
{
    entry_at_spec(list, key);
    if entry_at(list, key) < list.len() {
        assert(texts(list)[entry_at(list, key)] == key);
    }
    assert(texts(list).push(key).remove(list.len() as int) =~= texts(list));
}

/// A group of the sidebar says how many machines it has, folded or not, and shows
/// a row for each of them, in order, unless it is folded.
pub proof fn a_group_shows_its_machines(
    m: IncusManager,
    shown: SidebarGroup,
    project: Seq<char>,
    vms: Seq<Vm>,
    j: int,
)
    requires
        sidebar_group_is(m, shown, project, vms),
    ensures
        shown.project@ == project,
        shown.count == vms.len(),
        shown.collapsed <==> project_folded(m, project),
        shown.collapsed ==> shown.rows@.len() == 0,
        !shown.collapsed ==> shown.rows@.len() == vms.len(),
        !shown.collapsed && 0 <= j < vms.len() ==> shown.rows@[j].vm == vms[j],
{
}

} // verus!
