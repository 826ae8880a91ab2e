//! Console tabs: opening, showing and closing them.

use vstd::prelude::*;
use vstd::string::*;

use crate::incus::{id_listed, id_of, is_this, lists_id, VmId};
use crate::manager::frames::retired;
use crate::manager::{Command, Focus, IncusManager, Reaction};
use crate::spice_session::StartError;
use crate::text::{concat, same, text_of};

verus! {

/// A picture of a guest's screen that the renderer holds under a key.
#[derive(Clone, Copy, PartialEq, Eq, Structural, Debug)]
pub struct Frame {
    pub key: u64,
    pub width: u32,
    pub height: u32,
}

/// One open console: a live session and its latest frame. Tabs stay connected
/// in the background, so that going back to one is instant.
pub struct ConsoleTab {
    pub id: VmId,
    /// Whether its session builds frames.
    pub visible: bool,
    pub frame: Option<Frame>,
}

impl ConsoleTab {
    /// The guest's resolution, as its frame has it.
    pub open spec fn size(self) -> Option<(u32, u32)> {
        match self.frame {
            Some(frame) => Some((frame.width, frame.height)),
            None => None,
        }
    }

    pub fn frame_size(&self) -> (r: Option<(u32, u32)>)
        ensures
            r == self.size(),
    {
        match self.frame {
            Some(frame) => Some((frame.width, frame.height)),
            None => None,
        }
    }
}

// ---------------------------------------------------------------------------
// What holds of the tabs
// ---------------------------------------------------------------------------

/// The index of the first tab of a machine; the number of tabs where it has
/// none.
pub open spec fn tab_at(tabs: Seq<ConsoleTab>, id: (Seq<char>, Seq<char>)) -> int
    decreases tabs.len(),
{
    if tabs.len() == 0 {
        0
    } else if tabs[0].id@ == id {
        0
    } else {
        1 + tab_at(tabs.drop_first(), id)
    }
}

/// Whether a machine has a tab.
pub open spec fn tab_open(tabs: Seq<ConsoleTab>, id: (Seq<char>, Seq<char>)) -> bool {
    tab_at(tabs, id) < tabs.len()
}

pub proof fn tab_at_spec(tabs: Seq<ConsoleTab>, id: (Seq<char>, Seq<char>))
    ensures
        0 <= tab_at(tabs, id) <= tabs.len(),
        tab_open(tabs, id) ==> tabs[tab_at(tabs, id)].id@ == id,
        forall|j: int| 0 <= j < tab_at(tabs, id) ==> (#[trigger] tabs[j]).id@ != id,
    decreases tabs.len(),
{
    if tabs.len() > 0 && tabs[0].id@ != id {
        let rest = tabs.drop_first();
        tab_at_spec(rest, id);
        assert forall|j: int| 0 <= j < tab_at(tabs, id) implies (#[trigger] tabs[j]).id@ != id by {
            if j > 0 {
                assert(rest[j - 1] == tabs[j]);
            }
        }
    }
}

proof fn tab_at_unique(tabs: Seq<ConsoleTab>, id: (Seq<char>, Seq<char>), i: int)
    requires
        0 <= i <= tabs.len(),
        i < tabs.len() ==> tabs[i].id@ == id,
        forall|j: int| 0 <= j < i ==> (#[trigger] tabs[j]).id@ != id,
    ensures
        tab_at(tabs, id) == i,
{
    tab_at_spec(tabs, id);
}

/// The tab that is shown.
pub open spec fn shown_tab(
    tabs: Seq<ConsoleTab>,
    active: Option<(Seq<char>, Seq<char>)>,
) -> Option<ConsoleTab> {
    match active {
        Some(id) => if tab_open(tabs, id) {
            Some(tabs[tab_at(tabs, id)])
        } else {
            None
        },
        None => None,
    }
}

/// Only the shown tab builds frames: a hidden one would cost a full copy of its
/// screen many times a second for pixels that nobody sees.
pub open spec fn only_active_is_visible(
    tabs: Seq<ConsoleTab>,
    active: Option<(Seq<char>, Seq<char>)>,
) -> bool {
    forall|i: int|
        0 <= i < tabs.len() ==> (#[trigger] tabs[i]).visible == (active == Some(tabs[i].id@))
}

/// What is shown is open.
pub open spec fn active_is_open(
    tabs: Seq<ConsoleTab>,
    active: Option<(Seq<char>, Seq<char>)>,
) -> bool {
    active matches Some(id) ==> tab_open(tabs, id)
}

/// The tabs of a project stand together.
pub open spec fn groups_are_contiguous(tabs: Seq<ConsoleTab>) -> bool {
    forall|i: int, j: int, k: int|
        0 <= i < j < k < tabs.len() && (#[trigger] tabs[i]).id.project@ == (
        #[trigger] tabs[k]).id.project@ ==> (#[trigger] tabs[j]).id.project@
            == tabs[i].id.project@
}

/// A machine has one console at most: no two tabs, it is not being connected
/// twice, and it is not being connected while it has a tab.
pub open spec fn one_console_each(tabs: Seq<ConsoleTab>, connecting: Seq<VmId>) -> bool {
    &&& forall|i: int, j: int|
        0 <= i < j < tabs.len() ==> (#[trigger] tabs[i]).id@ != (#[trigger] tabs[j]).id@
    &&& forall|i: int, j: int|
        0 <= i < j < connecting.len() ==> (#[trigger] connecting[i])@ != (
        #[trigger] connecting[j])@
    &&& forall|i: int, j: int|
        0 <= i < tabs.len() && 0 <= j < connecting.len() ==> (#[trigger] tabs[i]).id@ != (
        #[trigger] connecting[j])@
}

proof fn same_machines_keep_consoles(
    tabs: Seq<ConsoleTab>,
    other: Seq<ConsoleTab>,
    connecting: Seq<VmId>,
)
    requires
        one_console_each(tabs, connecting),
        other.len() == tabs.len(),
        forall|i: int| 0 <= i < tabs.len() ==> (#[trigger] other[i]).id == tabs[i].id,
    ensures
        one_console_each(other, connecting),
{
    assert forall|i: int, j: int| 0 <= i < j < other.len() implies (#[trigger] other[i]).id@ != (
    #[trigger] other[j]).id@ by {
        assert(tabs[i].id@ != tabs[j].id@);
    }
    assert forall|i: int, j: int|
        0 <= i < other.len() && 0 <= j < connecting.len() implies (#[trigger] other[i]).id@ != (
    #[trigger] connecting[j])@ by {
        assert(tabs[i].id@ != connecting[j]@);
    }
}

/// The tabs with the shown one visible and no other.
pub open spec fn showing(tabs: Seq<ConsoleTab>, active: Option<(Seq<char>, Seq<char>)>) -> Seq<
    ConsoleTab,
> {
    Seq::new(
        tabs.len(),
        |i: int| ConsoleTab { visible: active == Some(tabs[i].id@), ..tabs[i] },
    )
}

proof fn showing_keeps_tabs(tabs: Seq<ConsoleTab>, active: Option<(Seq<char>, Seq<char>)>)
    ensures
        only_active_is_visible(showing(tabs, active), active),
        groups_are_contiguous(tabs) ==> groups_are_contiguous(showing(tabs, active)),
        forall|id: (Seq<char>, Seq<char>)|
            #[trigger] tab_at(showing(tabs, active), id) == tab_at(tabs, id),
        forall|connecting: Seq<VmId>|
            one_console_each(tabs, connecting) ==> #[trigger] one_console_each(
                showing(tabs, active),
                connecting,
            ),
{
    let out = showing(tabs, active);
    assert forall|id: (Seq<char>, Seq<char>)| #[trigger] tab_at(out, id) == tab_at(tabs, id) by {
        tab_at_spec(tabs, id);
        tab_at_unique(out, id, tab_at(tabs, id));
    }
    assert forall|connecting: Seq<VmId>|
        one_console_each(tabs, connecting) implies #[trigger] one_console_each(
        out,
        connecting,
    ) by {
        same_machines_keep_consoles(tabs, out, connecting);
    }
}

// ---------------------------------------------------------------------------
// Showing a tab
// ---------------------------------------------------------------------------

impl IncusManager {
    /// Shows a tab. That only the shown tab builds frames is seen to here and
    /// nowhere else.
    pub fn set_active(&mut self, id: Option<VmId>)
        ensures
            final(self).tabs@ == showing(old(self).tabs@, id_of(id)),
            *final(self) == (IncusManager { active: id, tabs: final(self).tabs, ..*old(self) }),
            old(self).wf() && active_is_open(old(self).tabs@, id_of(id)) ==> final(self).wf(),
    {
        self.active = id;
        let mut i: usize = 0;
        while i < self.tabs.len()
            invariant
                i <= self.tabs@.len(),
                self.active == id,
                self.tabs@.len() == old(self).tabs@.len(),
                *self == (IncusManager { active: id, tabs: self.tabs, ..*old(self) }),
                forall|j: int|
                    0 <= j < i ==> #[trigger] self.tabs@[j] == showing(
                        old(self).tabs@,
                        id_of(id),
                    )[j],
                forall|j: int|
                    i <= j < self.tabs@.len() ==> #[trigger] self.tabs@[j] == old(self).tabs@[j],
            decreases self.tabs@.len() - i,
        {
            let shown: bool = is_this(&self.active, &self.tabs[i].id);
            self.tabs[i].visible = shown;
            i += 1;
        }
        assert(self.tabs@ =~= showing(old(self).tabs@, id_of(id)));
        proof {
            showing_keeps_tabs(old(self).tabs@, id_of(id));
        }
    }

    fn find_tab(&self, id: &VmId) -> (r: usize)
        ensures
            r == tab_at(self.tabs@, id@),
            r <= self.tabs@.len(),
            r < self.tabs@.len() ==> self.tabs@[r as int].id@ == id@,
    {
        let mut i: usize = 0;
        while i < self.tabs.len()
            invariant
                i <= self.tabs@.len(),
                forall|j: int| 0 <= j < i ==> (#[trigger] self.tabs@[j]).id@ != id@,
            decreases self.tabs@.len() - i,
        {
            if self.tabs[i].id.is(id) {
                proof {
                    tab_at_unique(self.tabs@, id@, i as int);
                }
                return i;
            }
            i += 1;
        }
        proof {
            tab_at_unique(self.tabs@, id@, i as int);
        }
        i
    }

    /// The tab that is shown.
    pub fn active_tab(&self) -> (r: Option<&ConsoleTab>)
        ensures
            match r {
                Some(tab) => shown_tab(self.tabs@, id_of(self.active)) == Some(*tab),
                None => shown_tab(self.tabs@, id_of(self.active)) is None,
            },
    {
        match &self.active {
            Some(id) => {
                let at: usize = self.find_tab(id);
                if at < self.tabs.len() {
                    Some(&self.tabs[at])
                } else {
                    None
                }
            },
            None => None,
        }
    }

    /// Whether a machine has a tab.
    pub fn is_open(&self, id: &VmId) -> (r: bool)
        ensures
            r == tab_open(self.tabs@, id@),
    {
        self.find_tab(id) < self.tabs.len()
    }
}

// ---------------------------------------------------------------------------
// Closing a tab
// ---------------------------------------------------------------------------

/// What is shown after the tab at `at` has gone: the tab that took its place,
/// the last one where none did.
pub open spec fn neighbour(rest: Seq<ConsoleTab>, at: int) -> Option<VmId> {
    if at < rest.len() {
        Some(rest[at].id)
    } else if rest.len() > 0 {
        Some(rest.last().id)
    } else {
        None
    }
}

/// Closing a tab that is open: it goes, its frame is retired, and where it was
/// shown its neighbour is shown in its place.
pub open spec fn closes(
    before: IncusManager,
    after: IncusManager,
    id: (Seq<char>, Seq<char>),
) -> bool {
    let at = tab_at(before.tabs@, id);
    let rest = before.tabs@.remove(at);
    &&& after.retired_frames@ == retired(
        before.retired_frames@,
        before.render_seq,
        before.tabs@[at].frame,
    )
    &&& if id_of(before.active) == Some(id) {
        &&& after.active == neighbour(rest, at)
        &&& after.tabs@ == showing(rest, id_of(neighbour(rest, at)))
    } else {
        &&& after.active == before.active
        &&& after.tabs@ == rest
    }
    &&& after == (IncusManager {
        tabs: after.tabs,
        active: after.active,
        retired_frames: after.retired_frames,
        ..before
    })
}

proof fn removal_keeps_tabs(
    tabs: Seq<ConsoleTab>,
    at: int,
    active: Option<(Seq<char>, Seq<char>)>,
)
    requires
        0 <= at < tabs.len(),
        groups_are_contiguous(tabs),
    ensures
        groups_are_contiguous(tabs.remove(at)),
        only_active_is_visible(tabs, active) ==> only_active_is_visible(tabs.remove(at), active),
        active_is_open(tabs, active) && active != Some(tabs[at].id@) ==> active_is_open(
            tabs.remove(at),
            active,
        ),
{
    let rest = tabs.remove(at);
    assert forall|i: int, j: int, k: int|
        0 <= i < j < k < rest.len() && (#[trigger] rest[i]).id.project@ == (
        #[trigger] rest[k]).id.project@ implies (#[trigger] rest[j]).id.project@
        == rest[i].id.project@ by {
        let old_i = if i < at {
            i
        } else {
            i + 1
        };
        let old_j = if j < at {
            j
        } else {
            j + 1
        };
        let old_k = if k < at {
            k
        } else {
            k + 1
        };
        assert(rest[i] == tabs[old_i] && rest[j] == tabs[old_j] && rest[k] == tabs[old_k]);
    }
    if active is Some && active_is_open(tabs, active) && active != Some(tabs[at].id@) {
        let id = active.unwrap();
        tab_at_spec(tabs, id);
        tab_at_spec(rest, id);
        let p = tab_at(tabs, id);
        let q = if p < at {
            p
        } else {
            p - 1
        };
        assert(rest[q] == tabs[p]);
    }
    assert forall|i: int| 0 <= i < rest.len() && only_active_is_visible(tabs, active) implies (
    #[trigger] rest[i]).visible == (active == Some(rest[i].id@)) by {
        let old_i = if i < at {
            i
        } else {
            i + 1
        };
        assert(rest[i] == tabs[old_i]);
    }
}

proof fn removal_keeps_consoles(tabs: Seq<ConsoleTab>, at: int, connecting: Seq<VmId>)
    requires
        0 <= at < tabs.len(),
        one_console_each(tabs, connecting),
    ensures
        one_console_each(tabs.remove(at), connecting),
{
    let rest = tabs.remove(at);
    assert forall|i: int, j: int| 0 <= i < j < rest.len() implies (#[trigger] rest[i]).id@ != (
    #[trigger] rest[j]).id@ by {
        let old_i = if i < at {
            i
        } else {
            i + 1
        };
        let old_j = if j < at {
            j
        } else {
            j + 1
        };
        assert(rest[i] == tabs[old_i] && rest[j] == tabs[old_j]);
    }
    assert forall|i: int, j: int|
        0 <= i < rest.len() && 0 <= j < connecting.len() implies (#[trigger] rest[i]).id@ != (
    #[trigger] connecting[j])@ by {
        let old_i = if i < at {
            i
        } else {
            i + 1
        };
        assert(rest[i] == tabs[old_i]);
    }
}

proof fn neighbour_is_open(rest: Seq<ConsoleTab>, at: int)
    requires
        0 <= at,
    ensures
        active_is_open(rest, id_of(neighbour(rest, at))),
{
    if rest.len() > 0 {
        let i = if at < rest.len() {
            at
        } else {
            rest.len() - 1
        };
        tab_at_spec(rest, rest[i].id@);
    }
}

impl IncusManager {
    /// Closes a machine's tab, if it has one. The result tells whether it had,
    /// and so whether its session has to be ended.
    pub fn close_tab(&mut self, id: &VmId) -> (r: bool)
        ensures
            r == tab_open(old(self).tabs@, id@),
            r ==> closes(*old(self), *final(self), id@),
            !r ==> *final(self) == *old(self),
            old(self).wf() ==> final(self).wf(),
    {
        let at: usize = self.find_tab(id);
        if at >= self.tabs.len() {
            return false;
        }
        let was_shown: bool = is_this(&self.active, id);
        let tab: ConsoleTab = self.tabs.remove(at);
        let ghost rest = old(self).tabs@.remove(at as int);
        proof {
            if old(self).wf() {
                removal_keeps_tabs(old(self).tabs@, at as int, id_of(old(self).active));
                removal_keeps_consoles(old(self).tabs@, at as int, old(self).connecting@);
            }
            neighbour_is_open(rest, at as int);
        }
        self.retire_frame(tab.frame);
        if was_shown {
            let n: usize = self.tabs.len();
            let next: Option<VmId> = if at < n {
                Some(self.tabs[at].id.clone())
            } else if n > 0 {
                Some(self.tabs[n - 1].id.clone())
            } else {
                None
            };
            assert(next == neighbour(rest, at as int));
            proof {
                showing_keeps_tabs(rest, id_of(next));
            }
            self.set_active(next);
        }
        true
    }
}

// ---------------------------------------------------------------------------
// Opening a tab
// ---------------------------------------------------------------------------

/// Asking for a machine's console: an open tab is shown, one that is being
/// connected is waited for, and any other is connected.
pub open spec fn opens(
    before: IncusManager,
    after: IncusManager,
    id: VmId,
    reaction: Reaction,
) -> bool {
    &&& after.error is None
    &&& reaction.focus == Some(Focus::Console)
    &&& if tab_open(before.tabs@, id@) {
        &&& after.active == Some(id)
        &&& after.tabs@ == showing(before.tabs@, Some(id@))
        &&& after.connecting == before.connecting
        &&& reaction.repaint
        &&& reaction.command is None
    } else if id_listed(before.connecting@, id@) {
        &&& after.active == before.active
        &&& after.tabs == before.tabs
        &&& after.connecting == before.connecting
        &&& !reaction.repaint
        &&& reaction.command is None
    } else {
        &&& after.active == before.active
        &&& after.tabs == before.tabs
        &&& after.connecting@ == before.connecting@.push(id)
        &&& reaction.repaint
        &&& reaction.command == Some(Command::Connect(id))
    }
    &&& after == (IncusManager {
        error: after.error,
        active: after.active,
        tabs: after.tabs,
        connecting: after.connecting,
        ..before
    })
}

/// The machines of a list other than the given one.
pub open spec fn without(list: Seq<VmId>, id: (Seq<char>, Seq<char>)) -> Seq<VmId>
    decreases list.len(),
{
    if list.len() == 0 {
        Seq::empty()
    } else if list.last()@ == id {
        without(list.drop_last(), id)
    } else {
        without(list.drop_last(), id).push(list.last())
    }
}

proof fn without_member(list: Seq<VmId>, id: (Seq<char>, Seq<char>), k: int) -> (i: int)
    requires
        0 <= k < without(list, id).len(),
    ensures
        0 <= i < list.len(),
        list[i] == without(list, id)[k],
        list[i]@ != id,
    decreases list.len(),
{
    let front = list.drop_last();
    if list.last()@ == id || k < without(front, id).len() {
        without_member(front, id, k)
    } else {
        list.len() - 1
    }
}

proof fn without_keeps_consoles(
    tabs: Seq<ConsoleTab>,
    list: Seq<VmId>,
    id: (Seq<char>, Seq<char>),
)
    requires
        one_console_each(tabs, list),
    ensures
        one_console_each(tabs, without(list, id)),
    decreases list.len(),
{
    if list.len() > 0 {
        let front = list.drop_last();
        without_keeps_consoles(tabs, front, id);
        let out = without(list, id);
        let before = without(front, id);
        assert forall|i: int, j: int| 0 <= i < j < out.len() implies (#[trigger] out[i])@ != (
        #[trigger] out[j])@ by {
            assert(out[i] == before[i]);
            if j < before.len() {
                assert(out[j] == before[j]);
            } else {
                let k = without_member(front, id, i);
                assert(list[k]@ != list[list.len() - 1]@);
            }
        }
        assert forall|i: int, j: int|
            0 <= i < tabs.len() && 0 <= j < out.len() implies (#[trigger] tabs[i]).id@ != (
        #[trigger] out[j])@ by {
            let k = without_member(list, id, j);
            assert(tabs[i].id@ != list[k]@);
        }
    }
}

proof fn insertion_keeps_consoles(
    tabs: Seq<ConsoleTab>,
    list: Seq<VmId>,
    tab: ConsoleTab,
    s: int,
)
    requires
        one_console_each(tabs, list),
        id_listed(list, tab.id@),
        0 <= s <= tabs.len(),
    ensures
        one_console_each(tabs.insert(s, tab), without(list, tab.id@)),
{
    let id = tab.id@;
    let rest = without(list, id);
    let out = tabs.insert(s, tab);
    let p = choose|p: int| 0 <= p < list.len() && (#[trigger] list[p])@ == id;
    without_keeps_consoles(tabs, list, id);
    assert forall|i: int, j: int| 0 <= i < j < out.len() implies (#[trigger] out[i]).id@ != (
    #[trigger] out[j]).id@ by {
        let old_i = if i < s {
            i
        } else {
            i - 1
        };
        let old_j = if j < s {
            j
        } else {
            j - 1
        };
        if i != s {
            assert(out[i] == tabs[old_i]);
            assert(tabs[old_i].id@ != list[p]@);
        }
        if j != s {
            assert(out[j] == tabs[old_j]);
            assert(tabs[old_j].id@ != list[p]@);
        }
    }
    assert forall|i: int, j: int| 0 <= i < out.len() && 0 <= j < rest.len() implies (
    #[trigger] out[i]).id@ != (#[trigger] rest[j])@ by {
        if i != s {
            let old_i = if i < s {
                i
            } else {
                i - 1
            };
            assert(out[i] == tabs[old_i]);
        } else {
            let k = without_member(list, id, j);
        }
    }
}

fn list_without(list: &Vec<VmId>, id: &VmId) -> (r: Vec<VmId>)
    ensures
        r@ == without(list@, id@),
{
    let mut out: Vec<VmId> = Vec::new();
    let mut i: usize = 0;
    assert(list@.take(0) =~= Seq::empty());
    while i < list.len()
        invariant
            i <= list@.len(),
            out@ == without(list@.take(i as int), id@),
        decreases list@.len() - i,
    {
        assert(list@.take(i + 1).drop_last() =~= list@.take(i as int));
        if !list[i].is(id) {
            out.push(list[i].clone());
        }
        i += 1;
    }
    assert(list@.take(i as int) =~= list@);
    out
}

/// The index of the last tab of a project; -1 where it has none.
pub open spec fn last_of(tabs: Seq<ConsoleTab>, project: Seq<char>) -> int
    decreases tabs.len(),
{
    if tabs.len() == 0 {
        -1
    } else if tabs.last().id.project@ == project {
        tabs.len() - 1
    } else {
        last_of(tabs.drop_last(), project)
    }
}

/// Where a new tab of a project goes: behind its last one, or to the end where
/// it is the first.
pub open spec fn slot(tabs: Seq<ConsoleTab>, project: Seq<char>) -> int {
    let last = last_of(tabs, project);
    if last >= 0 {
        last + 1
    } else {
        tabs.len() as int
    }
}

proof fn last_of_spec(tabs: Seq<ConsoleTab>, project: Seq<char>)
    ensures
        -1 <= last_of(tabs, project) < tabs.len(),
        last_of(tabs, project) >= 0 ==> tabs[last_of(tabs, project)].id.project@ == project,
        forall|j: int|
            last_of(tabs, project) < j < tabs.len() ==> (#[trigger] tabs[j]).id.project@
                != project,
    decreases tabs.len(),
{
    if tabs.len() > 0 && tabs.last().id.project@ != project {
        let front = tabs.drop_last();
        last_of_spec(front, project);
        assert forall|j: int| last_of(tabs, project) < j < tabs.len() implies (
        #[trigger] tabs[j]).id.project@ != project by {
            if j < front.len() {
                assert(front[j] == tabs[j]);
            }
        }
    }
}

proof fn last_of_unique(tabs: Seq<ConsoleTab>, project: Seq<char>, i: int)
    requires
        -1 <= i < tabs.len(),
        i >= 0 ==> tabs[i].id.project@ == project,
        forall|j: int| i < j < tabs.len() ==> (#[trigger] tabs[j]).id.project@ != project,
    ensures
        last_of(tabs, project) == i,
{
    last_of_spec(tabs, project);
}

proof fn insertion_keeps_groups(tabs: Seq<ConsoleTab>, tab: ConsoleTab)
    requires
        groups_are_contiguous(tabs),
    ensures
        groups_are_contiguous(tabs.insert(slot(tabs, tab.id.project@), tab)),
        tab_open(tabs.insert(slot(tabs, tab.id.project@), tab), tab.id@),
{
    let project = tab.id.project@;
    let s = slot(tabs, project);
    last_of_spec(tabs, project);
    let out = tabs.insert(s, tab);
    assert(out[s] == tab);
    tab_at_spec(out, tab.id@);
    assert forall|i: int, j: int, k: int|
        0 <= i < j < k < out.len() && (#[trigger] out[i]).id.project@ == (
        #[trigger] out[k]).id.project@ implies (#[trigger] out[j]).id.project@
        == out[i].id.project@ by {
        let old_i = if i < s {
            i
        } else {
            i - 1
        };
        let old_j = if j < s {
            j
        } else {
            j - 1
        };
        let old_k = if k < s {
            k
        } else {
            k - 1
        };
        if i != s {
            assert(out[i] == tabs[old_i]);
        }
        if j != s {
            assert(out[j] == tabs[old_j]);
        }
        if k != s {
            assert(out[k] == tabs[old_k]);
        }
        if s > 0 && last_of(tabs, project) >= 0 {
            assert(tabs[s - 1].id.project@ == project);
        }
    }
}

/// A console has been connected: its machine is no longer pending, and it has a
/// tab next to those of its project, which is shown.
pub open spec fn starts(before: IncusManager, after: IncusManager, id: VmId) -> bool {
    let tab = ConsoleTab { id, visible: true, frame: None };
    &&& after.connecting@ == without(before.connecting@, id@)
    &&& after.active == Some(id)
    &&& after.tabs@ == showing(
        before.tabs@.insert(slot(before.tabs@, id.project@), tab),
        Some(id@),
    )
    &&& after == (IncusManager {
        connecting: after.connecting,
        active: after.active,
        tabs: after.tabs,
        ..before
    })
}

/// What to do after an attempt to connect to a console.
#[derive(Clone, Copy, PartialEq, Eq, Structural, Debug)]
pub enum ConnectStep {
    /// It is open: serve its frames.
    Serve,
    /// Somebody holds it: ask whether to take it over.
    AskTakeover,
    /// It failed, and the user has been told why.
    GiveUp,
    /// Another remote has come into use since: end it.
    Stale,
}

/// What became of a frame that a session delivered.
#[derive(Clone, Copy, PartialEq, Eq, Structural, Debug)]
pub struct Arrival {
    /// The console's tab is still open; otherwise its frames are not wanted any
    /// more.
    pub open: bool,
    /// The tab is shown, so a repaint is due.
    pub repaint: bool,
}

/// What the end of an attempt to connect comes to.
pub open spec fn connect_ends(
    before: IncusManager,
    after: IncusManager,
    epoch: u64,
    id: VmId,
    outcome: Result<(), StartError>,
    step: ConnectStep,
    reaction: Reaction,
) -> bool {
    if epoch != before.remote_epoch {
        step == ConnectStep::Stale && reaction.idle() && after == before
    } else {
        match outcome {
            Ok(()) => {
                &&& step == ConnectStep::Serve
                &&& reaction.repaints_with(Focus::Console)
                &&& starts(before, after, id)
            },
            Err(StartError::AlreadyConnected) => {
                &&& step == ConnectStep::AskTakeover
                &&& reaction.idle()
                &&& after == before
            },
            Err(StartError::Message(m)) => {
                &&& step == ConnectStep::GiveUp
                &&& reaction.repaints()
                &&& after.connecting@ == without(before.connecting@, id@)
                &&& text_of(after.error) == Some(m@)
                &&& after == (IncusManager {
                    connecting: after.connecting,
                    error: after.error,
                    ..before
                })
            },
        }
    }
}

/// What the answer to the question whether to take a console over comes to.
pub open spec fn takeover_ends(
    before: IncusManager,
    after: IncusManager,
    epoch: u64,
    id: (Seq<char>, Seq<char>),
    take_over: bool,
    go_on: bool,
    reaction: Reaction,
) -> bool {
    &&& go_on == (take_over && epoch == before.remote_epoch)
    &&& if epoch == before.remote_epoch {
        reaction.repaints()
    } else {
        reaction.idle()
    }
    &&& take_over || epoch != before.remote_epoch ==> after == before
    &&& !take_over && epoch == before.remote_epoch ==> after.connecting@ == without(
        before.connecting@,
        id,
    )
    &&& after == (IncusManager { connecting: after.connecting, ..before })
}

/// What a frame that a session delivered comes to.
pub open spec fn frame_arrives(
    before: IncusManager,
    after: IncusManager,
    epoch: u64,
    id: (Seq<char>, Seq<char>),
    frame: Frame,
    r: Arrival,
) -> bool {
    &&& r.open == (epoch == before.remote_epoch && tab_open(before.tabs@, id))
    &&& r.repaint == (r.open && id_of(before.active) == Some(id))
    &&& !r.open ==> after == before
    &&& r.open ==> ({
        let at = tab_at(before.tabs@, id);
        let tab = before.tabs@[at];
        &&& after.tabs@ == before.tabs@.update(at, ConsoleTab { frame: Some(frame), ..tab })
        &&& after.retired_frames@ == retired(before.retired_frames@, before.render_seq, tab.frame)
        &&& after == (IncusManager {
            tabs: after.tabs,
            retired_frames: after.retired_frames,
            ..before
        })
    })
}

/// What the end of a session comes to.
pub open spec fn console_ends(
    before: IncusManager,
    after: IncusManager,
    epoch: u64,
    id: VmId,
    reaction: Reaction,
) -> bool {
    if epoch == before.remote_epoch && tab_open(before.tabs@, id@) {
        &&& reaction.repaints_and(Command::EndConsole(id))
        &&& text_of(after.error) == Some(id.name@ + " 的控制台连接已断开"@)
        &&& closes(IncusManager { error: after.error, ..before }, after, id@)
    } else {
        reaction.idle() && after == before
    }
}

impl IncusManager {
    /// Opens a machine's console in a tab, or shows the tab it has.
    pub fn open_or_focus(&mut self, id: VmId) -> (r: Reaction)
        ensures
            opens(*old(self), *final(self), id, r),
            old(self).wf() ==> final(self).wf(),
    {
        self.error = None;
        if self.is_open(&id) {
            self.set_active(Some(id));
            return Reaction::repaint_with(Focus::Console);
        }
        if lists_id(&self.connecting, &id) {
            return Reaction { repaint: false, focus: Some(Focus::Console), command: None };
        }
        proof {
            tab_at_spec(self.tabs@, id@);
        }
        self.connecting.push(id.clone());
        Reaction { repaint: true, focus: Some(Focus::Console), command: Some(Command::Connect(id)) }
    }

    /// A console has been connected, which was being waited for.
    pub fn console_started(&mut self, id: VmId)
        ensures
            starts(*old(self), *final(self), id),
            final(self).connecting@ == old(self).connecting@.filter(
                |v: VmId| !(v.project@ == id.project@ && v.name@ == id.name@),
            ),
            old(self).wf() && id_listed(old(self).connecting@, id@) ==> final(self).wf(),
    {
        proof {
            filters_agree(self.connecting@, id);
        }
        self.connecting = list_without(&self.connecting, &id);
        let ghost tabs = self.tabs@;
        let mut at: usize = self.tabs.len();
        while at > 0 && !same(self.tabs[at - 1].id.project.as_str(), id.project.as_str())
            invariant
                at <= self.tabs@.len(),
                self.tabs@ == tabs,
                forall|j: int|
                    at <= j < tabs.len() ==> (#[trigger] tabs[j]).id.project@ != id.project@,
            decreases at,
        {
            at -= 1;
        }
        proof {
            last_of_unique(tabs, id.project@, at - 1);
        }
        let place: usize = if at > 0 {
            at
        } else {
            self.tabs.len()
        };
        let tab: ConsoleTab = ConsoleTab { id: id.clone(), visible: true, frame: None };
        proof {
            if old(self).wf() {
                insertion_keeps_groups(tabs, tab);
                if id_listed(old(self).connecting@, id@) {
                    insertion_keeps_consoles(tabs, old(self).connecting@, tab, place as int);
                }
            }
            showing_keeps_tabs(tabs.insert(place as int, tab), Some(id@));
        }
        self.tabs.insert(place, tab);
        self.set_active(Some(id));
    }

    /// An attempt to connect to a console of the remote that was in use at
    /// `epoch` has come to its end. A console that is open takes the keyboard.
    /// Where another remote has come into use since, nothing changes.
    pub fn connect_console(
        &mut self,
        epoch: u64,
        id: VmId,
        outcome: Result<(), StartError>,
    ) -> (r: (ConnectStep, Reaction))
        ensures
            connect_ends(*old(self), *final(self), epoch, id, outcome, r.0, r.1),
            epoch == old(self).remote_epoch && !(outcome matches Err(StartError::AlreadyConnected))
                ==> final(self).connecting@ == old(self).connecting@.filter(
                |v: VmId| !(v.project@ == id.project@ && v.name@ == id.name@),
            ),
            old(self).wf() && (r.0 == ConnectStep::Serve ==> id_listed(
                old(self).connecting@,
                id@,
            )) ==> final(self).wf(),
    {
        if epoch != self.remote_epoch {
            return (ConnectStep::Stale, Reaction::none());
        }
        proof {
            filters_agree(self.connecting@, id);
        }
        match outcome {
            Ok(()) => {
                self.console_started(id);
                (ConnectStep::Serve, Reaction::repaint_with(Focus::Console))
            },
            Err(StartError::AlreadyConnected) => (ConnectStep::AskTakeover, Reaction::none()),
            Err(StartError::Message(m)) => {
                proof {
                    if old(self).wf() {
                        without_keeps_consoles(self.tabs@, self.connecting@, id@);
                    }
                }
                self.connecting = list_without(&self.connecting, &id);
                self.error = Some(m);
                (ConnectStep::GiveUp, Reaction::repaint())
            },
        }
    }

    /// The user has answered whether to take a console over from whoever holds
    /// it. If not, its machine is no longer pending. The result says whether to
    /// connect by force: not where another remote has come into use since.
    pub fn takeover_answered(&mut self, epoch: u64, id: &VmId, take_over: bool) -> (r: (
        bool,
        Reaction,
    ))
        ensures
            takeover_ends(*old(self), *final(self), epoch, id@, take_over, r.0, r.1),
            !take_over && epoch == old(self).remote_epoch ==> final(self).connecting@ == old(
                self,
            ).connecting@.filter(|v: VmId| !(v.project@ == id.project@ && v.name@ == id.name@)),
            *final(self) == (IncusManager { connecting: final(self).connecting, ..*old(self) }),
            old(self).wf() ==> final(self).wf(),
    {
        if epoch != self.remote_epoch {
            return (false, Reaction::none());
        }
        proof {
            filters_agree(self.connecting@, *id);
        }
        if !take_over {
            proof {
                if old(self).wf() {
                    without_keeps_consoles(self.tabs@, self.connecting@, id@);
                }
            }
            self.connecting = list_without(&self.connecting, id);
        }
        (take_over, Reaction::repaint())
    }

    /// A session has delivered a frame: it replaces the tab's last one, which is
    /// retired. A tab in the background keeps its frame current and causes no
    /// repaint. A frame of an earlier remote is not wanted any more.
    pub fn frame_arrived(&mut self, epoch: u64, id: &VmId, frame: Frame) -> (r: Arrival)
        ensures
            frame_arrives(*old(self), *final(self), epoch, id@, frame, r),
            old(self).wf() ==> final(self).wf(),
    {
        let at: usize = self.find_tab(id);
        if epoch != self.remote_epoch || at >= self.tabs.len() {
            return Arrival { open: false, repaint: false };
        }
        let shown: bool = is_this(&self.active, id);
        let previous: Option<Frame> = self.tabs[at].frame;
        self.tabs[at].frame = Some(frame);
        assert(self.tabs@ =~= old(self).tabs@.update(
            at as int,
            ConsoleTab { frame: Some(frame), ..old(self).tabs@[at as int] },
        ));
        proof {
            assert forall|id: (Seq<char>, Seq<char>)|
                #[trigger] tab_at(self.tabs@, id) == tab_at(old(self).tabs@, id) by {
                tab_at_spec(old(self).tabs@, id);
                tab_at_unique(self.tabs@, id, tab_at(old(self).tabs@, id));
            }
            if old(self).wf() {
                same_machines_keep_consoles(old(self).tabs@, self.tabs@, self.connecting@);
            }
        }
        self.retire_frame(previous);
        Arrival { open: true, repaint: shown }
    }

    /// A session has ended. Where its tab is gone already, or its remote is no
    /// longer in use, that was to be expected; otherwise the connection was lost,
    /// and the tab is closed with a word about it.
    pub fn console_ended(&mut self, epoch: u64, id: &VmId) -> (r: Reaction)
        ensures
            console_ends(*old(self), *final(self), epoch, *id, r),
            old(self).wf() ==> final(self).wf(),
    {
        if epoch == self.remote_epoch && self.is_open(id) {
            self.close_tab(id);
            self.error = Some(concat(id.name.as_str(), " 的控制台连接已断开"));
            Reaction { repaint: true, focus: None, command: Some(Command::EndConsole(id.clone())) }
        } else {
            Reaction::none()
        }
    }

    /// A click on the cross of a tab.
    pub fn close_clicked(&mut self, id: &VmId) -> (r: Reaction)
        ensures
            if tab_open(old(self).tabs@, id@) {
                closes(*old(self), *final(self), id@) && r.repaints_and(Command::EndConsole(*id))
            } else {
                *final(self) == *old(self) && r.repaints()
            },
            old(self).wf() ==> final(self).wf(),
    {
        if self.close_tab(id) {
            Reaction { repaint: true, focus: None, command: Some(Command::EndConsole(id.clone())) }
        } else {
            Reaction::repaint()
        }
    }
}

/// A machine that has no tab gets exactly one: its tabs after its console has
/// started are the ones before and the new one.
pub proof fn starting_opens_one_tab(before: IncusManager, after: IncusManager, id: VmId)
    requires
        starts(before, after, id),
        !tab_open(before.tabs@, id@),
    ensures
        after.tabs@.len() == before.tabs@.len() + 1,
        tab_at(after.tabs@, id@) == slot(before.tabs@, id.project@),
        after.tabs@[tab_at(after.tabs@, id@)].visible,
        forall|i: int|
            0 <= i < after.tabs@.len() && i != tab_at(after.tabs@, id@) ==> (
            #[trigger] after.tabs@[i]).id@ != id@,
{
    let tab = ConsoleTab { id, visible: true, frame: None };
    let s = slot(before.tabs@, id.project@);
    last_of_spec(before.tabs@, id.project@);
    tab_at_spec(before.tabs@, id@);
    let inserted = before.tabs@.insert(s, tab);
    showing_keeps_tabs(inserted, Some(id@));
    assert forall|i: int| 0 <= i < inserted.len() && i != s implies (#[trigger] inserted[i]).id@
        != id@ by {
        let old_i = if i < s {
            i
        } else {
            i - 1
        };
        assert(inserted[i] == before.tabs@[old_i]);
    }
    tab_at_unique(inserted, id@, s);
    assert forall|i: int|
        0 <= i < after.tabs@.len() && i != tab_at(after.tabs@, id@) implies (
    #[trigger] after.tabs@[i]).id@ != id@ by {
        assert(after.tabs@[i].id == inserted[i].id);
    }
}

/// A machine never has two tabs, nor is it connected a second time: asking for
/// its console while it has one, or is getting one, asks for no other.
pub proof fn asking_again_connects_nothing(
    before: IncusManager,
    after: IncusManager,
    id: VmId,
    reaction: Reaction,
)
    requires
        opens(before, after, id, reaction),
        tab_open(before.tabs@, id@) || id_listed(before.connecting@, id@),
    ensures
        reaction.command is None,
        after.connecting == before.connecting,
        after.tabs@.len() == before.tabs@.len(),
{
}

/// Closing undoes opening: a tab that is opened while another is shown and then
/// closed again leaves the other tabs as they were.
pub proof fn closing_undoes_starting(
    before: IncusManager,
    open: IncusManager,
    after: IncusManager,
    id: VmId,
)
    requires
        starts(before, open, id),
        closes(open, after, id@),
        !tab_open(before.tabs@, id@),
    ensures
        after.tabs@.len() == before.tabs@.len(),
        forall|i: int|
            0 <= i < before.tabs@.len() ==> (#[trigger] after.tabs@[i]).id == before.tabs@[i].id
                && after.tabs@[i].frame == before.tabs@[i].frame,
        after.retired_frames@ == before.retired_frames@,
{
    starting_opens_one_tab(before, open, id);
    last_of_spec(before.tabs@, id.project@);
    let s = slot(before.tabs@, id.project@);
    let rest = open.tabs@.remove(s);
    assert forall|i: int| 0 <= i < before.tabs@.len() implies (#[trigger] after.tabs@[i]).id
        == before.tabs@[i].id && after.tabs@[i].frame == before.tabs@[i].frame by {
        let there = if i < s {
            i
        } else {
            i + 1
        };
        assert(rest[i] == open.tabs@[there]);
    }
}

// ---------------------------------------------------------------------------
// What the operations amount to
// ---------------------------------------------------------------------------

/// Where one machine is no longer pending, every other is as it was, in the same
/// order; and the one is gone, however often it was listed.
pub proof fn others_stay_pending(list: Seq<VmId>, id: (Seq<char>, Seq<char>))
    ensures
        without(list, id) == list.filter(|v: VmId| !(v.project@ == id.0 && v.name@ == id.1)),
    decreases list.len(),
{
    reveal(Seq::filter);
    if list.len() > 0 {
        others_stay_pending(list.drop_last(), id);
    }
}

/// A machine is pending after another one's attempt exactly if it was before, and
/// the other one is not.
pub proof fn pending_is_up_to_each_machine(
    list: Seq<VmId>,
    id: (Seq<char>, Seq<char>),
    other: VmId,
)
    ensures
        without(list, id).contains(other) <==> list.contains(other) && !(other.project@ == id.0
            && other.name@ == id.1),
    decreases list.len(),
{
    let out = without(list, id);
    if list.len() > 0 {
        let front = list.drop_last();
        let before = without(front, id);
        pending_is_up_to_each_machine(front, id, other);
        if list.contains(other) && other@ != id {
            let k = choose|k: int| 0 <= k < list.len() && list[k] == other;
            if k < front.len() {
                assert(front[k] == other);
                let j = choose|j: int| 0 <= j < before.len() && before[j] == other;
                assert(out[j] == other);
            } else {
                assert(out.last() == other);
            }
        }
        if out.contains(other) {
            let k = choose|k: int| 0 <= k < out.len() && out[k] == other;
            let j = without_member(list, id, k);
            assert(list[j] == other);
        }
    }
}

/// When an attempt to connect succeeds, only its own machine stops being pending:
/// every other one is still being connected and is asked for once.
pub proof fn starting_leaves_the_others_pending(
    before: IncusManager,
    after: IncusManager,
    id: VmId,
    other: VmId,
)
    requires
        starts(before, after, id),
    ensures
        after.connecting@ == before.connecting@.filter(
            |v: VmId| !(v.project@ == id.project@ && v.name@ == id.name@),
        ),
        after.connecting@.contains(other) <==> before.connecting@.contains(other) && !(
        other.project@ == id.project@ && other.name@ == id.name@),
{
    others_stay_pending(before.connecting@, id@);
    pending_is_up_to_each_machine(before.connecting@, id@, other);
    filters_agree(before.connecting@, id);
}

proof fn filters_agree(list: Seq<VmId>, id: VmId)
    ensures
        list.filter(|v: VmId| !(v.project@ == id.project@ && v.name@ == id.name@)) == without(
            list,
            id@,
        ),
    decreases list.len(),
{
    reveal(Seq::filter);
    if list.len() > 0 {
        filters_agree(list.drop_last(), id);
    }
}

/// A new tab is shown, alone, and stands right behind the last tab of its
/// project, or at the end where it is the project's first; the other tabs keep
/// their order and their frames.
pub proof fn a_new_tab_joins_its_project(before: IncusManager, after: IncusManager, id: VmId)
    requires
        starts(before, after, id),
    ensures
        after.active == Some(id),
        after.tabs@.len() == before.tabs@.len() + 1,
        exists|s: int|
            0 <= s <= before.tabs@.len() && (#[trigger] after.tabs@[s]).id == id && (
            after.tabs@[s].frame is None) && ({
                ||| s > 0 && before.tabs@[s - 1].id.project@ == id.project@
                ||| s == before.tabs@.len() && (forall|j: int|
                    0 <= j < before.tabs@.len() ==> (#[trigger] before.tabs@[j]).id.project@
                        != id.project@)
            }) && (forall|j: int|
                s <= j < before.tabs@.len() ==> (#[trigger] before.tabs@[j]).id.project@
                    != id.project@) && (forall|j: int|
                0 <= j < s ==> (#[trigger] after.tabs@[j]).id == before.tabs@[j].id
                    && after.tabs@[j].frame == before.tabs@[j].frame) && (forall|j: int|
                s < j < after.tabs@.len() ==> (#[trigger] after.tabs@[j]).id == before.tabs@[j
                    - 1].id && after.tabs@[j].frame == before.tabs@[j - 1].frame),
        forall|i: int|
            0 <= i < after.tabs@.len() ==> ((#[trigger] after.tabs@[i]).visible <==> (
            after.tabs@[i].id.project@ == id.project@ && after.tabs@[i].id.name@ == id.name@)),
{
    let tab = ConsoleTab { id, visible: true, frame: None };
    let s = slot(before.tabs@, id.project@);
    last_of_spec(before.tabs@, id.project@);
    let inserted = before.tabs@.insert(s, tab);
    assert(after.tabs@.len() == inserted.len());
    assert(inserted[s] == tab);
    assert(after.tabs@[s].id == id);
    assert forall|j: int| 0 <= j < s implies (#[trigger] after.tabs@[j]).id == before.tabs@[j].id
        && after.tabs@[j].frame == before.tabs@[j].frame by {
        assert(inserted[j] == before.tabs@[j]);
    }
    assert forall|j: int| s < j < after.tabs@.len() implies (#[trigger] after.tabs@[j]).id
        == before.tabs@[j - 1].id && after.tabs@[j].frame == before.tabs@[j - 1].frame by {
        assert(inserted[j] == before.tabs@[j - 1]);
    }
}

/// Closing a tab takes it alone: the others keep their order and their frames.
/// Where it was shown, the tab to its right is shown instead, the one to its left
/// where it was the last, and nothing where it was the only one; otherwise what is
/// shown stays.
pub proof fn closing_shows_the_neighbour(
    before: IncusManager,
    after: IncusManager,
    id: (Seq<char>, Seq<char>),
    at: int,
)
    requires
        closes(before, after, id),
        0 <= at < before.tabs@.len(),
        before.tabs@[at].id@ == id,
        forall|j: int| 0 <= j < at ==> (#[trigger] before.tabs@[j]).id@ != id,
    ensures
        after.tabs@.len() == before.tabs@.len() - 1,
        forall|j: int|
            0 <= j < at ==> (#[trigger] after.tabs@[j]).id == before.tabs@[j].id
                && after.tabs@[j].frame == before.tabs@[j].frame,
        forall|j: int|
            at <= j < after.tabs@.len() ==> (#[trigger] after.tabs@[j]).id == before.tabs@[j
                + 1].id && after.tabs@[j].frame == before.tabs@[j + 1].frame,
        id_of(before.active) == Some(id) ==> after.active == (if at + 1 < before.tabs@.len() {
            Some(before.tabs@[at + 1].id)
        } else if at > 0 {
            Some(before.tabs@[at - 1].id)
        } else {
            None
        }),
        id_of(before.active) != Some(id) ==> after.active == before.active,
        after.connecting == before.connecting,
        after.vms == before.vms,
{
    tab_at_unique(before.tabs@, id, at);
    let rest = before.tabs@.remove(at);
    assert forall|j: int| 0 <= j < at implies (#[trigger] after.tabs@[j]).id == before.tabs@[j].id
        && after.tabs@[j].frame == before.tabs@[j].frame by {
        assert(rest[j] == before.tabs@[j]);
    }
    assert forall|j: int| at <= j < after.tabs@.len() implies (#[trigger] after.tabs@[j]).id
        == before.tabs@[j + 1].id && after.tabs@[j].frame == before.tabs@[j + 1].frame by {
        assert(rest[j] == before.tabs@[j + 1]);
    }
}

/// A closed tab's frame waits for its destruction, behind those that wait already.
pub proof fn a_closed_tabs_frame_waits(
    before: IncusManager,
    after: IncusManager,
    id: (Seq<char>, Seq<char>),
    at: int,
)
    requires
        closes(before, after, id),
        0 <= at < before.tabs@.len(),
        before.tabs@[at].id@ == id,
        forall|j: int| 0 <= j < at ==> (#[trigger] before.tabs@[j]).id@ != id,
    ensures
        before.tabs@[at].frame matches Some(frame) ==> after.retired_frames@
            == before.retired_frames@.push((before.render_seq, frame.key)),
        before.tabs@[at].frame is None ==> after.retired_frames@ == before.retired_frames@,
{
    tab_at_unique(before.tabs@, id, at);
}

/// Asking for a console: where the machine has a tab, that tab is shown, alone.
pub proof fn asking_for_an_open_console_shows_it(
    before: IncusManager,
    after: IncusManager,
    id: VmId,
    reaction: Reaction,
    at: int,
)
    requires
        opens(before, after, id, reaction),
        0 <= at < before.tabs@.len(),
        before.tabs@[at].id@ == id@,
    ensures
        after.active == Some(id),
        reaction.command is None,
        reaction.repaint,
        reaction.focus == Some(Focus::Console),
        after.connecting == before.connecting,
        after.tabs@.len() == before.tabs@.len(),
        forall|i: int|
            0 <= i < after.tabs@.len() ==> (#[trigger] after.tabs@[i]).id == before.tabs@[i].id
                && after.tabs@[i].frame == before.tabs@[i].frame,
        forall|i: int|
            0 <= i < after.tabs@.len() ==> ((#[trigger] after.tabs@[i]).visible <==> (
            after.tabs@[i].id.project@ == id.project@ && after.tabs@[i].id.name@ == id.name@)),
{
    tab_at_spec(before.tabs@, id@);
}

/// Asking for a console that the machine neither has nor is getting connects it:
/// it is pending from then on, and what is shown stays.
pub proof fn asking_for_a_closed_console_connects_it(
    before: IncusManager,
    after: IncusManager,
    id: VmId,
    reaction: Reaction,
)
    requires
        opens(before, after, id, reaction),
        forall|i: int| 0 <= i < before.tabs@.len() ==> (#[trigger] before.tabs@[i]).id@ != id@,
        forall|i: int|
            0 <= i < before.connecting@.len() ==> (#[trigger] before.connecting@[i])@ != id@,
    ensures
        reaction.command == Some(Command::Connect(id)),
        reaction.repaint,
        reaction.focus == Some(Focus::Console),
        after.connecting@ == before.connecting@.push(id),
        after.tabs == before.tabs,
        after.active == before.active,
        after.error is None,
{
    tab_at_spec(before.tabs@, id@);
}

/// Asking for a console that is being connected changes nothing but the keyboard
/// and the last message.
pub proof fn asking_for_a_pending_console_waits(
    before: IncusManager,
    after: IncusManager,
    id: VmId,
    reaction: Reaction,
    k: int,
)
    requires
        opens(before, after, id, reaction),
        forall|i: int| 0 <= i < before.tabs@.len() ==> (#[trigger] before.tabs@[i]).id@ != id@,
        0 <= k < before.connecting@.len(),
        before.connecting@[k]@ == id@,
    ensures
        reaction.command is None,
        after == (IncusManager { error: None, ..before }),
{
    tab_at_spec(before.tabs@, id@);
}

/// What is shown is the tab of the machine that was chosen; no other machine's
/// ever is.
pub proof fn the_shown_tab_is_the_chosen_one(
    tabs: Seq<ConsoleTab>,
    active: Option<(Seq<char>, Seq<char>)>,
)
    ensures
        shown_tab(tabs, active) matches Some(tab) ==> tabs.contains(tab) && active == Some(tab.id@),
        shown_tab(tabs, active) is None ==> (forall|i: int|
            0 <= i < tabs.len() ==> active != Some((#[trigger] tabs[i]).id@)),
{
    if let Some(id) = active {
        tab_at_spec(tabs, id);
    }
}

/// However an attempt to connect ends: the machine stops being pending unless the
/// user is asked first, every other machine is as pending as before, and only a
/// success opens a tab.
pub proof fn attempts_end_for_their_own_machine(
    before: IncusManager,
    after: IncusManager,
    epoch: u64,
    id: VmId,
    outcome: Result<(), StartError>,
    step: ConnectStep,
    reaction: Reaction,
    other: VmId,
)
    requires
        connect_ends(before, after, epoch, id, outcome, step, reaction),
    ensures
        other@ != id@ ==> (after.connecting@.contains(other) <==> before.connecting@.contains(
            other,
        )),
        epoch == before.remote_epoch && !(outcome matches Err(StartError::AlreadyConnected))
            ==> !after.connecting@.contains(id),
        epoch == before.remote_epoch && outcome is Ok ==> after.active == Some(id)
            && after.tabs@.len() == before.tabs@.len() + 1 && reaction.focus == Some(Focus::Console)
            && reaction.repaint,
        epoch == before.remote_epoch && outcome is Err ==> after.tabs == before.tabs && after.active
            == before.active,
        outcome matches Err(StartError::Message(m)) ==> epoch == before.remote_epoch ==> text_of(
            after.error,
        ) == Some(m@) && reaction.repaint,
        epoch != before.remote_epoch ==> after == before && step == ConnectStep::Stale,
{
    pending_is_up_to_each_machine(before.connecting@, id@, other);
    pending_is_up_to_each_machine(before.connecting@, id@, id);
    if epoch == before.remote_epoch && outcome is Ok {
        a_new_tab_joins_its_project(before, after, id);
    }
}

/// Where the user does not want a console to be taken over, its machine stops
/// being pending, and every other one is as pending as before.
pub proof fn a_declined_takeover_ends_the_attempt(
    before: IncusManager,
    after: IncusManager,
    epoch: u64,
    id: VmId,
    take_over: bool,
    go_on: bool,
    reaction: Reaction,
    other: VmId,
)
    requires
        takeover_ends(before, after, epoch, id@, take_over, go_on, reaction),
    ensures
        go_on <==> take_over && epoch == before.remote_epoch,
        go_on ==> after == before,
        other@ != id@ ==> (after.connecting@.contains(other) <==> before.connecting@.contains(
            other,
        )),
        !take_over && epoch == before.remote_epoch ==> !after.connecting@.contains(id),
        after.tabs == before.tabs && after.active == before.active,
{
    pending_is_up_to_each_machine(before.connecting@, id@, other);
    pending_is_up_to_each_machine(before.connecting@, id@, id);
}

/// A frame goes to the tab of its own machine, and the frame it replaces waits for
/// its destruction. Every other tab keeps its frame, and the window is repainted
/// exactly if the tab is the one that is shown.
pub proof fn a_frame_goes_to_its_own_tab(
    before: IncusManager,
    after: IncusManager,
    epoch: u64,
    id: (Seq<char>, Seq<char>),
    frame: Frame,
    r: Arrival,
    at: int,
)
    requires
        frame_arrives(before, after, epoch, id, frame, r),
        0 <= at < before.tabs@.len(),
        before.tabs@[at].id@ == id,
        forall|j: int| 0 <= j < at ==> (#[trigger] before.tabs@[j]).id@ != id,
        epoch == before.remote_epoch,
    ensures
        r.open,
        r.repaint <==> id_of(before.active) == Some(id),
        after.tabs@.len() == before.tabs@.len(),
        after.tabs@[at].frame == Some(frame),
        forall|j: int|
            0 <= j < after.tabs@.len() && j != at ==> #[trigger] after.tabs@[j] == before.tabs@[j],
        after.tabs@[at].id == before.tabs@[at].id && after.tabs@[at].visible
            == before.tabs@[at].visible,
        before.tabs@[at].frame matches Some(last) ==> after.retired_frames@
            == before.retired_frames@.push((before.render_seq, last.key)),
        before.tabs@[at].frame is None ==> after.retired_frames@ == before.retired_frames@,
        after.active == before.active,
{
    tab_at_unique(before.tabs@, id, at);
}

/// A frame for which there is no tab any more, or that is of an earlier remote,
/// changes nothing.
pub proof fn an_unwanted_frame_changes_nothing(
    before: IncusManager,
    after: IncusManager,
    epoch: u64,
    id: (Seq<char>, Seq<char>),
    frame: Frame,
    r: Arrival,
)
    requires
        frame_arrives(before, after, epoch, id, frame, r),
        epoch != before.remote_epoch || (forall|i: int|
            0 <= i < before.tabs@.len() ==> (#[trigger] before.tabs@[i]).id@ != id),
    ensures
        !r.open && !r.repaint,
        after == before,
{
    tab_at_spec(before.tabs@, id);
}

/// A console that ends while its tab is open was lost: its tab is closed, and the
/// user is told. One whose tab was closed already ends in silence.
pub proof fn a_lost_console_is_told_of(
    before: IncusManager,
    after: IncusManager,
    epoch: u64,
    id: VmId,
    reaction: Reaction,
    at: int,
)
    requires
        console_ends(before, after, epoch, id, reaction),
        epoch == before.remote_epoch,
    ensures
        0 <= at < before.tabs@.len() && before.tabs@[at].id@ == id@ ==> after.error is Some
            && after.tabs@.len() == before.tabs@.len() - 1 && reaction.command == Some(
            Command::EndConsole(id),
        ) && reaction.repaint,
        (forall|i: int| 0 <= i < before.tabs@.len() ==> (#[trigger] before.tabs@[i]).id@ != id@)
            ==> after == before && !reaction.repaint && reaction.command is None,
{
    tab_at_spec(before.tabs@, id@);
}

/// The size of a screen is that of its frame: width first, then height.
pub proof fn a_screen_is_as_large_as_its_frame(tab: ConsoleTab)
    ensures
        tab.frame matches Some(frame) ==> (tab.size() matches Some((width, height)) && width
            == frame.width && height == frame.height),
        tab.frame is None ==> tab.size() is None,
{
}

/// Showing a tab makes it visible and every other one not, and changes nothing
/// else of any of them; with nothing to show, none is visible.
pub proof fn only_the_shown_tab_is_visible(
    tabs: Seq<ConsoleTab>,
    active: Option<(Seq<char>, Seq<char>)>,
    i: int,
)
    requires
        0 <= i < tabs.len(),
    ensures
        showing(tabs, active).len() == tabs.len(),
        showing(tabs, active)[i].id == tabs[i].id,
        showing(tabs, active)[i].frame == tabs[i].frame,
        showing(tabs, active)[i].visible <==> active == Some(
            (tabs[i].id.project@, tabs[i].id.name@),
        ),
{
}

} // verus!
