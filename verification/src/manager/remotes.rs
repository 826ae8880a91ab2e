//! The remote in use, the events that its daemon reports, and the messages about
//! them.

use vstd::prelude::*;
use vstd::string::*;

use crate::incus::VmId;
use crate::manager::frames::retired;
use crate::manager::sidebar::groups_view;
use crate::manager::tabs::ConsoleTab;
use crate::manager::{Command, IncusManager, Reaction};
use crate::text::{occurs, parts_occur, same, text_of};

verus! {

/// The machines whose tabs are open.
pub open spec fn open_ids(tabs: Seq<ConsoleTab>) -> Seq<VmId> {
    Seq::new(tabs.len(), |i: int| tabs[i].id)
}

/// The queue of retired frames with those of some tabs added.
pub open spec fn all_retired(
    queue: Seq<(u64, u64)>,
    now: u64,
    tabs: Seq<ConsoleTab>,
) -> Seq<(u64, u64)>
    decreases tabs.len(),
{
    if tabs.len() == 0 {
        queue
    } else {
        retired(all_retired(queue, now, tabs.drop_last()), now, tabs.last().frame)
    }
}

/// Another remote is used from now on: whatever was open, pending or listed of
/// the one before is gone.
pub open spec fn switches(before: IncusManager, after: IncusManager, name: String) -> bool {
    &&& after.tabs@.len() == 0
    &&& after.connecting@.len() == 0
    &&& after.vms@.len() == 0
    &&& after.grouped@.len() == 0
    &&& after.retired_frames@ == all_retired(
        before.retired_frames@,
        before.render_seq,
        before.tabs@,
    )
    &&& after.remote_epoch == before.remote_epoch + 1
    &&& after == (IncusManager {
        tabs: after.tabs,
        active: None,
        connecting: after.connecting,
        vms: after.vms,
        grouped: after.grouped,
        error: None,
        notice: None,
        retired_frames: after.retired_frames,
        current_remote: name,
        remote_switcher_open: false,
        remote_epoch: after.remote_epoch,
        ..before
    })
}

/// A new message is shown. The numbers start over once they are used up, which
/// takes longer than any run of the program.
pub open spec fn notes(before: IncusManager, after: IncusManager, text: Seq<char>) -> bool {
    &&& text_of(after.notice) == Some(text)
    &&& after.notice_number as int == (if before.notice_number == u64::MAX {
        0
    } else {
        before.notice_number + 1
    })
    &&& after == (IncusManager {
        notice: after.notice,
        notice_number: after.notice_number,
        ..before
    })
}

/// What a reported event comes to.
pub struct EventStep {
    pub reaction: Reaction,
    /// The number of a message that is to be taken off after a while.
    pub notice: Option<u64>,
}

/// What a reported event comes to.
pub open spec fn event_arrives(
    before: IncusManager,
    after: IncusManager,
    epoch: u64,
    action: Seq<char>,
    id: VmId,
    r: Option<EventStep>,
) -> bool {
    if epoch != before.remote_epoch {
        r is None && after == before
    } else {
        r matches Some(step) && step.reaction.repaints_and(Command::Refresh) && if action
            == "instance-created"@ {
            &&& notes(before, after, created_text(id))
            &&& step.notice == Some(after.notice_number)
        } else {
            &&& after == before
            &&& step.notice is None
        }
    }
}

/// What the end of a message's time comes to.
pub open spec fn notice_expires(
    before: IncusManager,
    after: IncusManager,
    number: u64,
    reaction: Reaction,
) -> bool {
    if before.notice is Some && before.notice_number == number {
        after == (IncusManager { notice: None, ..before }) && reaction.repaints()
    } else {
        after == before && reaction.idle()
    }
}

/// The message about a machine that has been created.
pub open spec fn created_text(id: VmId) -> Seq<char> {
    "已创建虚拟机 "@ + id.project@ + "/"@ + id.name@
}

fn created_message(id: &VmId) -> (r: String)
    ensures
        r@ == created_text(*id),
{
    let mut out: String = "已创建虚拟机 ".to_owned();
    out.append(id.project.as_str());
    out.append("/");
    out.append(id.name.as_str());
    out
}

/// A remote in the list to choose from.
pub struct RemoteRow {
    pub name: String,
    pub is_current: bool,
}

impl IncusManager {
    /// Uses another remote from now on, if that could be arranged; `result` says
    /// so. The consoles that are returned have to be ended.
    pub fn switch_remote(&mut self, name: String, result: Result<(), String>) -> (r: (
        Reaction,
        Vec<VmId>,
    ))
        requires
            old(self).remote_epoch < u64::MAX,
        ensures
            match result {
                Ok(_) => {
                    &&& switches(*old(self), *final(self), name)
                    &&& r.0.repaints_and(Command::Reload)
                    &&& r.1@ == open_ids(old(self).tabs@)
                },
                Err(e) => {
                    &&& *final(self) == (IncusManager { error: Some(e), ..*old(self) })
                    &&& r.0.repaints()
                    &&& r.1@.len() == 0
                },
            },
            old(self).wf() ==> final(self).wf(),
    {
        if let Err(e) = result {
            self.error = Some(e);
            return (Reaction::repaint(), Vec::new());
        }
        let ghost tabs = self.tabs@;
        let mut ended: Vec<VmId> = Vec::new();
        let mut i: usize = 0;
        assert(tabs.take(0) =~= Seq::empty());
        while i < self.tabs.len()
            invariant
                i <= tabs.len(),
                self.tabs@ == tabs,
                tabs == old(self).tabs@,
                ended@.len() == i,
                forall|j: int| 0 <= j < i ==> #[trigger] ended@[j] == tabs[j].id,
                self.retired_frames@ == all_retired(
                    old(self).retired_frames@,
                    old(self).render_seq,
                    tabs.take(i as int),
                ),
                *self == (IncusManager { retired_frames: self.retired_frames, ..*old(self) }),
            decreases tabs.len() - i,
        {
            assert(tabs.take(i + 1).drop_last() =~= tabs.take(i as int));
            ended.push(self.tabs[i].id.clone());
            let frame = self.tabs[i].frame;
            self.retire_frame(frame);
            i += 1;
        }
        assert(tabs.take(i as int) =~= tabs);
        assert(ended@ =~= open_ids(tabs));
        self.tabs = Vec::new();
        self.active = None;
        self.connecting = Vec::new();
        self.vms = Vec::new();
        self.grouped = Vec::new();
        self.error = None;
        self.notice = None;
        self.current_remote = name;
        self.remote_switcher_open = false;
        self.remote_epoch += 1;
        assert(groups_view(self.grouped@) =~= Seq::empty());
        (Reaction { repaint: true, focus: None, command: Some(Command::Reload) }, ended)
    }

    /// Shows or hides the list of remotes.
    pub fn toggle_remote_switcher(&mut self) -> (r: Reaction)
        ensures
            *final(self) == (IncusManager {
                remote_switcher_open: !old(self).remote_switcher_open,
                ..*old(self)
            }),
            r.repaints(),
            old(self).wf() ==> final(self).wf(),
    {
        self.remote_switcher_open = !self.remote_switcher_open;
        Reaction::repaint()
    }

    /// Hides the list of remotes.
    pub fn close_remote_switcher(&mut self) -> (r: Reaction)
        ensures
            *final(self) == (IncusManager { remote_switcher_open: false, ..*old(self) }),
            r.repaints(),
            old(self).wf() ==> final(self).wf(),
    {
        self.remote_switcher_open = false;
        Reaction::repaint()
    }

    /// The remotes to choose from.
    pub fn remote_rows(&self) -> (r: Vec<RemoteRow>)
        ensures
            r@.len() == self.remotes@.len(),
            forall|i: int|
                0 <= i < r@.len() ==> #[trigger] r@[i] == (RemoteRow {
                    name: self.remotes@[i],
                    is_current: self.remotes@[i]@ == self.current_remote@,
                }),
    {
        let mut out: Vec<RemoteRow> = Vec::new();
        let mut i: usize = 0;
        while i < self.remotes.len()
            invariant
                i <= self.remotes@.len(),
                out@.len() == i,
                forall|j: int|
                    0 <= j < i ==> #[trigger] out@[j] == (RemoteRow {
                        name: self.remotes@[j],
                        is_current: self.remotes@[j]@ == self.current_remote@,
                    }),
            decreases self.remotes@.len() - i,
        {
            out.push(
                RemoteRow {
                    name: self.remotes[i].clone(),
                    is_current: same(self.remotes[i].as_str(), self.current_remote.as_str()),
                },
            );
            i += 1;
        }
        out
    }

    /// The daemon of the remote that was in use at `epoch` reports that something
    /// happened to a machine. `None` where another remote has come into use
    /// since: its listener can end. Otherwise the list is fetched again, and a
    /// machine that was created is pointed out, because it is easily missed in a
    /// long list.
    pub fn instance_event(&mut self, epoch: u64, action: &str, id: &VmId) -> (r: Option<EventStep>)
        ensures
            event_arrives(*old(self), *final(self), epoch, action@, *id, r),
            old(self).wf() ==> final(self).wf(),
    {
        if epoch != self.remote_epoch {
            return None;
        }
        let reaction: Reaction = Reaction {
            repaint: true,
            focus: None,
            command: Some(Command::Refresh),
        };
        if same(action, "instance-created") {
            self.notice = Some(created_message(id));
            self.notice_number = self.notice_number.wrapping_add(1);
            Some(EventStep { reaction, notice: Some(self.notice_number) })
        } else {
            Some(EventStep { reaction, notice: None })
        }
    }

    /// The time of the message with a number is over. It is taken off unless it
    /// is gone already or a newer one has replaced it.
    pub fn clear_notice(&mut self, number: u64) -> (r: Reaction)
        ensures
            notice_expires(*old(self), *final(self), number, r),
            old(self).wf() ==> final(self).wf(),
    {
        if self.notice.is_none() || self.notice_number != number {
            return Reaction::none();
        }
        self.notice = None;
        Reaction::repaint()
    }
}

/// A newer message is not taken off when the time of an older one is over, even
/// where both say the same: its number is another.
pub proof fn newer_notices_stay(
    before: IncusManager,
    after: IncusManager,
    text: Seq<char>,
    older: u64,
)
    requires
        notes(before, after, text),
        older == before.notice_number || (older < before.notice_number && before.notice_number
            < u64::MAX),
    ensures
        older != after.notice_number,
{
}

/// After a change of the remote, whatever still comes of earlier ones is stale:
/// events, lists of machines, new consoles, and their frames and ends.
pub proof fn earlier_remotes_fall_silent(
    before: IncusManager,
    after: IncusManager,
    name: String,
    epoch: u64,
)
    requires
        switches(before, after, name),
        epoch <= before.remote_epoch,
    ensures
        epoch != after.remote_epoch,
{
}

/// A change of the remote destroys no frame at once: each that a tab had is
/// waiting afterwards, since it may still be being drawn.
pub proof fn switching_keeps_frames_waiting(
    before: IncusManager,
    after: IncusManager,
    name: String,
    key: u64,
)
    requires
        switches(before, after, name),
        exists|i: int|
            0 <= i < before.tabs@.len() && ((#[trigger] before.tabs@[i]).frame matches Some(frame)
                && frame.key == key),
    ensures
        after.retired_frames@.contains((before.render_seq, key)),
{
    let i = choose|i: int|
        0 <= i < before.tabs@.len() && ((#[trigger] before.tabs@[i]).frame matches Some(frame)
            && frame.key == key);
    retiring_covers(before.retired_frames@, before.render_seq, before.tabs@, i);
}

proof fn retiring_covers(queue: Seq<(u64, u64)>, now: u64, tabs: Seq<ConsoleTab>, i: int)
    requires
        0 <= i < tabs.len(),
        tabs[i].frame is Some,
    ensures
        all_retired(queue, now, tabs).contains((now, tabs[i].frame.unwrap().key)),
    decreases tabs.len(),
{
    let front = all_retired(queue, now, tabs.drop_last());
    let all = all_retired(queue, now, tabs);
    let entry = (now, tabs[i].frame.unwrap().key);
    if i == tabs.len() - 1 {
        assert(all.last() == entry);
    } else {
        retiring_covers(queue, now, tabs.drop_last(), i);
        let k = choose|k: int| 0 <= k < front.len() && front[k] == entry;
        assert(all[k] == entry);
    }
}

// ---------------------------------------------------------------------------
// What the operations amount to
// ---------------------------------------------------------------------------

/// After a change of the remote nothing of the one before is left: no tab, no
/// console that is being connected, no machine, no message.
pub proof fn switching_starts_afresh(before: IncusManager, after: IncusManager, name: String)
    requires
        switches(before, after, name),
    ensures
        after.current_remote == name,
        after.tabs@.len() == 0 && after.active is None && after.connecting@.len() == 0,
        after.vms@.len() == 0 && after.grouped@.len() == 0,
        after.error is None && after.notice is None,
        !after.remote_switcher_open,
        after.remote_epoch > before.remote_epoch,
        after.remotes == before.remotes && after.filter == before.filter,
{
}

/// Every console that was open has to be ended, each once.
pub proof fn every_open_console_is_ended(tabs: Seq<ConsoleTab>, i: int)
    ensures
        open_ids(tabs).len() == tabs.len(),
        0 <= i < tabs.len() ==> open_ids(tabs)[i] == tabs[i].id,
{
}

/// What was waiting for its destruction still is, ahead of what has come since.
pub proof fn switching_keeps_the_queue(queue: Seq<(u64, u64)>, now: u64, tabs: Seq<ConsoleTab>)
    ensures
        queue.len() <= all_retired(queue, now, tabs).len() <= queue.len() + tabs.len(),
        forall|i: int|
            0 <= i < queue.len() ==> #[trigger] all_retired(queue, now, tabs)[i] == queue[i],
        forall|i: int|
            queue.len() <= i < all_retired(queue, now, tabs).len() ==> (#[trigger] all_retired(
                queue,
                now,
                tabs,
            )[i]).0 == now,
    decreases tabs.len(),
{
    if tabs.len() > 0 {
        let front = all_retired(queue, now, tabs.drop_last());
        let all = all_retired(queue, now, tabs);
        switching_keeps_the_queue(queue, now, tabs.drop_last());
        assert forall|i: int| 0 <= i < queue.len() implies #[trigger] all[i] == queue[i] by {
            assert(front[i] == queue[i]);
        }
        assert forall|i: int| queue.len() <= i < all.len() implies (#[trigger] all[i]).0 == now by {
            if i < front.len() {
                assert(front[i].0 == now);
            }
        }
    }
}

/// Every event of the remote in use has the list fetched again, and only that of a
/// created machine is told, with its project and its name; one of an earlier
/// remote is not taken.
pub proof fn events_are_followed_by_a_refresh(
    before: IncusManager,
    after: IncusManager,
    epoch: u64,
    action: Seq<char>,
    id: VmId,
    r: Option<EventStep>,
)
    requires
        event_arrives(before, after, epoch, action, id, r),
    ensures
        epoch == before.remote_epoch ==> (r matches Some(step) && step.reaction.command == Some(
            Command::Refresh,
        ) && step.reaction.repaint),
        epoch == before.remote_epoch && action == "instance-created"@ ==> (
        after.notice matches Some(text) && occurs(text@, id.project@ + seq!['/'] + id.name@)) && (
        r matches Some(step) && step.notice == Some(after.notice_number)) && after.notice_number
            != before.notice_number,
        epoch == before.remote_epoch && action != "instance-created"@ ==> after == before && (
        r matches Some(step) && step.notice is None),
        epoch != before.remote_epoch ==> r is None && after == before,
        after.tabs == before.tabs && after.vms == before.vms && after.error == before.error,
{
    the_message_names_the_machine(id);
}

/// The message about a machine that was created names its project and itself.
pub proof fn the_message_names_the_machine(id: VmId)
    ensures
        occurs(created_text(id), id.project@ + seq!['/'] + id.name@),
{
    reveal_strlit("/");
    assert("/"@ =~= seq!['/']);
    the_rest_is_a_part("已创建虚拟机 "@, id.project@, seq!['/'], id.name@);
}

proof fn the_rest_is_a_part(a: Seq<char>, b: Seq<char>, c: Seq<char>, d: Seq<char>)
    ensures
        occurs(a + b + c + d, b + c + d),
{
    let part = b + c + d;
    let all = a + b + c + d;
    four_in_a_row(a, b, c, d);
    let none = Seq::<char>::empty();
    assert(a + part + none =~= a + part);
    parts_occur(a, part, none);
}

proof fn four_in_a_row(a: Seq<char>, b: Seq<char>, c: Seq<char>, d: Seq<char>)
    ensures
        a + b + c + d == a + (b + c + d),
{
    assert(a + b + c =~= a + (b + c));
    assert(a + (b + c) + d =~= a + ((b + c) + d));
}

/// A message goes when its own time is over, and at no other.
pub proof fn a_message_goes_with_its_own_time(
    before: IncusManager,
    after: IncusManager,
    number: u64,
    reaction: Reaction,
)
    requires
        notice_expires(before, after, number, reaction),
    ensures
        before.notice is Some && number == before.notice_number ==> after.notice is None
            && reaction.repaint,
        number != before.notice_number ==> after.notice == before.notice && !reaction.repaint,
        after.error == before.error && after.tabs == before.tabs,
{
}

} // verus!
