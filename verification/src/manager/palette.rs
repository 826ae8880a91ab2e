//! Quick open: a search over every machine, with one of its hits highlighted.

use vstd::prelude::*;
use vstd::string::*;

use crate::incus::{id_of, Vm, VmId};
use crate::manager::keys::consumed;
use crate::manager::sidebar::{lower_names, lowered_names};
use crate::manager::tabs::{opens, tab_at_spec};
use crate::manager::{Command, Focus, IncusManager, Keystroke, Reaction};
use crate::text::{all_printable, contains, lowercase, occurs, printable, same, text_of, texts};

verus! {

/// The palette: what has been typed, and the highlighted machine. The machine
/// itself is kept, because an index would come to mean another one when a
/// refresh reorders the hits.
pub struct Palette {
    pub query: String,
    pub selected: Option<VmId>,
}

/// The projects of some machines in lowercase.
pub open spec fn lowered_projects(vms: Seq<Vm>) -> Seq<Seq<char>> {
    Seq::new(vms.len(), |i: int| lowercase(vms[i].id.project@))
}

/// Whether a search hits a machine, by its name and project in lowercase.
pub open spec fn hit(name: Seq<char>, project: Seq<char>, needle: Seq<char>) -> bool {
    needle.len() == 0 || occurs(name, needle) || occurs(project, needle)
}

/// The machines that a search hits, of those that are running or of those that
/// are not, in the order of the list.
pub open spec fn hits(
    vms: Seq<Vm>,
    names: Seq<Seq<char>>,
    projects: Seq<Seq<char>>,
    needle: Seq<char>,
    running: bool,
) -> Seq<Vm>
    decreases vms.len(),
{
    if vms.len() == 0 {
        Seq::empty()
    } else {
        let front = hits(
            vms.drop_last(),
            names.drop_last(),
            projects.drop_last(),
            needle,
            running,
        );
        if hit(names.last(), projects.last(), needle) && vms.last().is_running() == running {
            front.push(vms.last())
        } else {
            front
        }
    }
}

/// What the palette shows for a search: every hit, running machines first, so
/// that the common case is one key away.
pub open spec fn ranked(
    vms: Seq<Vm>,
    names: Seq<Seq<char>>,
    projects: Seq<Seq<char>>,
    needle: Seq<char>,
) -> Seq<Vm> {
    hits(vms, names, projects, needle, true) + hits(vms, names, projects, needle, false)
}

fn find_hits(
    vms: &Vec<Vm>,
    names: &Vec<String>,
    projects: &Vec<String>,
    needle: &str,
    running: bool,
) -> (r: Vec<Vm>)
    requires
        names@.len() == vms@.len(),
        projects@.len() == vms@.len(),
    ensures
        r@ == hits(vms@, texts(names@), texts(projects@), needle@, running),
{
    let ghost all_names = texts(names@);
    let ghost all_projects = texts(projects@);
    let mut out: Vec<Vm> = Vec::new();
    let mut i: usize = 0;
    while i < vms.len()
        invariant
            i <= vms@.len(),
            names@.len() == vms@.len(),
            projects@.len() == vms@.len(),
            all_names == texts(names@),
            all_projects == texts(projects@),
            out@ == hits(
                vms@.take(i as int),
                all_names.take(i as int),
                all_projects.take(i as int),
                needle@,
                running,
            ),
        decreases vms@.len() - i,
    {
        proof {
            assert(vms@.take(i + 1).drop_last() =~= vms@.take(i as int));
            assert(all_names.take(i + 1).drop_last() =~= all_names.take(i as int));
            assert(all_projects.take(i + 1).drop_last() =~= all_projects.take(i as int));
            assert(all_names.take(i + 1).last() == names@[i as int]@);
            assert(all_projects.take(i + 1).last() == projects@[i as int]@);
        }
        if (needle.is_empty() || contains(names[i].as_str(), needle) || contains(
            projects[i].as_str(),
            needle,
        )) && vms[i].running() == running {
            out.push(vms[i].clone());
        }
        i += 1;
    }
    assert(vms@.take(i as int) =~= vms@);
    assert(all_names.take(i as int) =~= all_names);
    assert(all_projects.take(i as int) =~= all_projects);
    out
}

/// What the palette shows for a search. `names` and `projects` are those of the
/// machines in lowercase, and so is what is searched for.
pub fn rank_matches(
    vms: &Vec<Vm>,
    names: &Vec<String>,
    projects: &Vec<String>,
    needle: &str,
) -> (r: Vec<Vm>)
    requires
        names@.len() == vms@.len(),
        projects@.len() == vms@.len(),
    ensures
        r@ == ranked(vms@, texts(names@), texts(projects@), needle@),
{
    let mut out: Vec<Vm> = find_hits(vms, names, projects, needle, true);
    let mut rest: Vec<Vm> = find_hits(vms, names, projects, needle, false);
    out.append(&mut rest);
    out
}

fn lower_projects(vms: &Vec<Vm>) -> (r: Vec<String>)
    ensures
        texts(r@) == lowered_projects(vms@),
{
    let mut out: Vec<String> = Vec::new();
    let mut i: usize = 0;
    while i < vms.len()
        invariant
            i <= vms@.len(),
            out@.len() == i,
            forall|j: int| 0 <= j < i ==> (#[trigger] out@[j])@ == lowercase(vms@[j].id.project@),
        decreases vms@.len() - i,
    {
        out.push(vms[i].id.project.as_str().to_lowercase());
        i += 1;
    }
    assert(texts(out@) =~= lowered_projects(vms@));
    out
}

proof fn hits_are_sound(
    vms: Seq<Vm>,
    names: Seq<Seq<char>>,
    projects: Seq<Seq<char>>,
    needle: Seq<char>,
    running: bool,
)
    ensures
        forall|i: int|
            0 <= i < hits(vms, names, projects, needle, running).len() ==> (#[trigger] hits(
                vms,
                names,
                projects,
                needle,
                running,
            )[i]).is_running() == running,
    decreases vms.len(),
{
    if vms.len() > 0 {
        hits_are_sound(
            vms.drop_last(),
            names.drop_last(),
            projects.drop_last(),
            needle,
            running,
        );
        let front = hits(
            vms.drop_last(),
            names.drop_last(),
            projects.drop_last(),
            needle,
            running,
        );
        let out = hits(vms, names, projects, needle, running);
        assert forall|i: int| 0 <= i < out.len() implies (#[trigger] out[i]).is_running()
            == running by {
            if i < front.len() {
                assert(out[i] == front[i]);
            }
        }
    }
}

/// In the palette no machine that is stopped stands before one that is running.
pub proof fn running_machines_come_first(
    vms: Seq<Vm>,
    names: Seq<Seq<char>>,
    projects: Seq<Seq<char>>,
    needle: Seq<char>,
)
    ensures
        forall|i: int, j: int|
            0 <= i < j < ranked(vms, names, projects, needle).len() && (#[trigger] ranked(
                vms,
                names,
                projects,
                needle,
            )[j]).is_running() ==> (#[trigger] ranked(
                vms,
                names,
                projects,
                needle,
            )[i]).is_running(),
{
    let a = hits(vms, names, projects, needle, true);
    let b = hits(vms, names, projects, needle, false);
    hits_are_sound(vms, names, projects, needle, true);
    hits_are_sound(vms, names, projects, needle, false);
    let all = a + b;
    let out = ranked(vms, names, projects, needle);
    assert forall|i: int, j: int|
        0 <= i < j < out.len() && (#[trigger] out[j]).is_running() implies (
    #[trigger] out[i]).is_running() by {
        assert(out[i] == all[i] && out[j] == all[j]);
        if j >= a.len() {
            assert(all[j] == b[j - a.len()]);
        } else {
            assert(all[i] == a[i]);
        }
    }
}

proof fn hits_hold_hits(
    vms: Seq<Vm>,
    names: Seq<Seq<char>>,
    projects: Seq<Seq<char>>,
    needle: Seq<char>,
    running: bool,
    i: int,
)
    requires
        names.len() == vms.len(),
        projects.len() == vms.len(),
        0 <= i < vms.len(),
        hit(names[i], projects[i], needle),
        vms[i].is_running() == running,
    ensures
        hits(vms, names, projects, needle, running).contains(vms[i]),
    decreases vms.len(),
{
    let front = hits(vms.drop_last(), names.drop_last(), projects.drop_last(), needle, running);
    let out = hits(vms, names, projects, needle, running);
    if i == vms.len() - 1 {
        assert(out.last() == vms[i]);
    } else {
        hits_hold_hits(
            vms.drop_last(),
            names.drop_last(),
            projects.drop_last(),
            needle,
            running,
            i,
        );
        let k = choose|k: int| 0 <= k < front.len() && front[k] == vms[i];
        assert(out[k] == vms[i]);
    }
}

/// Every machine whose name or project holds what is searched for is among the
/// rows.
pub proof fn every_hit_is_shown(
    vms: Seq<Vm>,
    names: Seq<Seq<char>>,
    projects: Seq<Seq<char>>,
    needle: Seq<char>,
    i: int,
)
    requires
        names.len() == vms.len(),
        projects.len() == vms.len(),
        0 <= i < vms.len(),
        hit(names[i], projects[i], needle),
    ensures
        ranked(vms, names, projects, needle).contains(vms[i]),
{
    let running = vms[i].is_running();
    hits_hold_hits(vms, names, projects, needle, running, i);
    let a = hits(vms, names, projects, needle, true);
    let part = hits(vms, names, projects, needle, running);
    let k = choose|k: int| 0 <= k < part.len() && part[k] == vms[i];
    let out = ranked(vms, names, projects, needle);
    if running {
        assert(out[k] == vms[i]);
    } else {
        assert(out[a.len() + k] == vms[i]);
    }
}

proof fn hits_are_machines(
    vms: Seq<Vm>,
    names: Seq<Seq<char>>,
    projects: Seq<Seq<char>>,
    needle: Seq<char>,
    running: bool,
    k: int,
) -> (i: int)
    requires
        names.len() == vms.len(),
        projects.len() == vms.len(),
        0 <= k < hits(vms, names, projects, needle, running).len(),
    ensures
        0 <= i < vms.len(),
        vms[i] == hits(vms, names, projects, needle, running)[k],
        hit(names[i], projects[i], needle),
    decreases vms.len(),
{
    let front = hits(vms.drop_last(), names.drop_last(), projects.drop_last(), needle, running);
    if k < front.len() {
        hits_are_machines(
            vms.drop_last(),
            names.drop_last(),
            projects.drop_last(),
            needle,
            running,
            k,
        )
    } else {
        vms.len() - 1
    }
}

/// Every row is a machine of the list whose name or project holds what is
/// searched for.
pub proof fn every_row_is_a_hit(
    vms: Seq<Vm>,
    names: Seq<Seq<char>>,
    projects: Seq<Seq<char>>,
    needle: Seq<char>,
    k: int,
)
    requires
        names.len() == vms.len(),
        projects.len() == vms.len(),
        0 <= k < ranked(vms, names, projects, needle).len(),
    ensures
        exists|i: int|
            0 <= i < vms.len() && #[trigger] vms[i] == ranked(vms, names, projects, needle)[k]
                && hit(names[i], projects[i], needle),
{
    let a = hits(vms, names, projects, needle, true);
    let out = ranked(vms, names, projects, needle);
    let i = if k < a.len() {
        assert(out[k] == a[k]);
        hits_are_machines(vms, names, projects, needle, true, k)
    } else {
        assert(out[k] == hits(vms, names, projects, needle, false)[k - a.len()]);
        hits_are_machines(vms, names, projects, needle, false, k - a.len())
    };
    assert(vms[i] == out[k]);
}

/// Whether no machine is in a list twice.
pub open spec fn all_different(vms: Seq<Vm>) -> bool {
    forall|i: int, j: int|
        0 <= i < j < vms.len() ==> (#[trigger] vms[i]).id@ != (#[trigger] vms[j]).id@
}

proof fn hits_are_different(
    vms: Seq<Vm>,
    names: Seq<Seq<char>>,
    projects: Seq<Seq<char>>,
    needle: Seq<char>,
    running: bool,
)
    requires
        names.len() == vms.len(),
        projects.len() == vms.len(),
        all_different(vms),
    ensures
        all_different(hits(vms, names, projects, needle, running)),
    decreases vms.len(),
{
    if vms.len() > 0 {
        let (v, n, p) = (vms.drop_last(), names.drop_last(), projects.drop_last());
        hits_are_different(v, n, p, needle, running);
        let front = hits(v, n, p, needle, running);
        let out = hits(vms, names, projects, needle, running);
        assert forall|i: int, j: int| 0 <= i < j < out.len() implies (#[trigger] out[i]).id@ != (
        #[trigger] out[j]).id@ by {
            assert(out[i] == front[i]);
            if j < front.len() {
                assert(out[j] == front[j]);
            } else {
                let k = hits_are_machines(v, n, p, needle, running, i);
                assert(vms[k].id@ != vms[vms.len() - 1].id@);
            }
        }
    }
}

/// No machine has two rows, as long as none is in the list twice.
pub proof fn no_machine_is_repeated(
    vms: Seq<Vm>,
    names: Seq<Seq<char>>,
    projects: Seq<Seq<char>>,
    needle: Seq<char>,
)
    requires
        names.len() == vms.len(),
        projects.len() == vms.len(),
        all_different(vms),
    ensures
        all_different(ranked(vms, names, projects, needle)),
{
    let a = hits(vms, names, projects, needle, true);
    let b = hits(vms, names, projects, needle, false);
    let out = ranked(vms, names, projects, needle);
    hits_are_different(vms, names, projects, needle, true);
    hits_are_different(vms, names, projects, needle, false);
    hits_are_sound(vms, names, projects, needle, true);
    hits_are_sound(vms, names, projects, needle, false);
    assert forall|i: int, j: int| 0 <= i < j < out.len() implies (#[trigger] out[i]).id@ != (
    #[trigger] out[j]).id@ by {
        if j < a.len() {
            assert(out[i] == a[i] && out[j] == a[j]);
        } else if i >= a.len() {
            assert(out[i] == b[i - a.len()] && out[j] == b[j - a.len()]);
        } else {
            assert(out[i] == a[i] && out[j] == b[j - a.len()]);
            let k = hits_are_machines(vms, names, projects, needle, true, i);
            let l = hits_are_machines(vms, names, projects, needle, false, j - a.len());
            assert(vms[k].is_running() && !vms[l].is_running());
            if k < l {
                assert(vms[k].id@ != vms[l].id@);
            } else {
                assert(vms[l].id@ != vms[k].id@);
            }
        }
    }
}

// ---------------------------------------------------------------------------
// The highlight
// ---------------------------------------------------------------------------

/// The index of the first row of a machine; the number of rows where it has
/// none.
pub open spec fn row_at(rows: Seq<Vm>, id: (Seq<char>, Seq<char>)) -> int
    decreases rows.len(),
{
    if rows.len() == 0 {
        0
    } else if rows[0].id@ == id {
        0
    } else {
        1 + row_at(rows.drop_first(), id)
    }
}

/// The highlighted row: that of the selected machine, the first where it is not
/// among the rows.
pub open spec fn highlighted(rows: Seq<Vm>, selected: Option<(Seq<char>, Seq<char>)>) -> int {
    match selected {
        Some(id) => if row_at(rows, id) < rows.len() {
            row_at(rows, id)
        } else {
            0
        },
        None => 0,
    }
}

proof fn row_at_bounds(rows: Seq<Vm>, id: (Seq<char>, Seq<char>))
    ensures
        0 <= row_at(rows, id) <= rows.len(),
        row_at(rows, id) < rows.len() ==> rows[row_at(rows, id)].id@ == id,
    decreases rows.len(),
{
    if rows.len() > 0 {
        row_at_bounds(rows.drop_first(), id);
    }
}

/// The highlight, as an index of the rows as they stand now.
pub fn highlight(rows: &Vec<Vm>, selected: &Option<VmId>) -> (r: usize)
    ensures
        r == highlighted(rows@, id_of(*selected)),
        r == 0 || r < rows@.len(),
{
    match selected {
        None => 0,
        Some(id) => {
            let mut i: usize = 0;
            proof {
                row_at_bounds(rows@, id@);
                assert(rows@.skip(0) =~= rows@);
            }
            while i < rows.len()
                invariant
                    i <= rows@.len(),
                    id_of(*selected) == Some(id@),
                    row_at(rows@, id@) == i + row_at(rows@.skip(i as int), id@),
                decreases rows@.len() - i,
            {
                assert(rows@.skip(i as int)[0] == rows@[i as int]);
                if rows[i].id.is(id) {
                    return i;
                }
                assert(rows@.skip(i as int).drop_first() =~= rows@.skip(i + 1));
                i += 1;
            }
            0
        },
    }
}

/// A refresh that reorders the hits leaves the highlight on the machine that the
/// user chose, as long as that is among them.
pub proof fn the_highlight_follows_its_machine(rows: Seq<Vm>, id: (Seq<char>, Seq<char>))
    requires
        exists|i: int| 0 <= i < rows.len() && (#[trigger] rows[i]).id@ == id,
    ensures
        0 <= highlighted(rows, Some(id)) < rows.len(),
        rows[highlighted(rows, Some(id))].id@ == id,
    decreases rows.len(),
{
    row_at_bounds(rows, id);
    if rows[0].id@ != id {
        let i = choose|i: int| 0 <= i < rows.len() && (#[trigger] rows[i]).id@ == id;
        let rest = rows.drop_first();
        assert(rest[i - 1].id@ == id);
        the_highlight_follows_its_machine(rest, id);
        row_at_bounds(rest, id);
    }
}

// ---------------------------------------------------------------------------
// Keys
// ---------------------------------------------------------------------------

/// What a key does in the palette.
#[derive(Clone, Copy, PartialEq, Eq, Structural, Debug)]
pub enum PaletteAction {
    /// Nothing at all.
    Ignore,
    /// Highlights a row.
    Select(usize),
    /// Empties the search.
    Clear,
    /// Closes the palette.
    Close,
    /// Erases the last character of the search.
    Erase,
    /// Opens the highlighted machine.
    Choose,
    /// Appends what was typed to the search.
    Type,
    /// Leaves everything as it is.
    Keep,
}

pub open spec fn row_above(current: usize) -> usize {
    if current > 0 {
        (current - 1) as usize
    } else {
        0
    }
}

pub open spec fn row_below(current: usize, last: usize) -> usize {
    if current < last {
        (current + 1) as usize
    } else {
        last
    }
}

/// What a key does in the palette, with the highlight on row `current` and the
/// last row being `last`. Control-P and Control-N go up and down as the arrows
/// do, Control-U empties the search, and Cmd-P goes down and around, so that
/// tapping P while holding Cmd walks the list.
pub open spec fn palette_action_of(key: Keystroke, current: usize, last: usize) -> PaletteAction {
    let control = key.modifiers.control;
    if control || key.modifiers.platform {
        if key.key@ == "p"@ {
            if control {
                PaletteAction::Select(row_above(current))
            } else if current >= last {
                PaletteAction::Select(0)
            } else {
                PaletteAction::Select((current + 1) as usize)
            }
        } else if key.key@ == "n"@ && control {
            PaletteAction::Select(row_below(current, last))
        } else if key.key@ == "u"@ && control {
            PaletteAction::Clear
        } else {
            PaletteAction::Ignore
        }
    } else if key.key@ == "escape"@ {
        PaletteAction::Close
    } else if key.key@ == "backspace"@ {
        PaletteAction::Erase
    } else if key.key@ == "down"@ {
        PaletteAction::Select(row_below(current, last))
    } else if key.key@ == "up"@ {
        PaletteAction::Select(row_above(current))
    } else if key.key@ == "enter"@ {
        PaletteAction::Choose
    } else {
        match key.key_char {
            Some(typed) => if printable(typed@) {
                PaletteAction::Type
            } else {
                PaletteAction::Keep
            },
            None => PaletteAction::Keep,
        }
    }
}

fn above(current: usize) -> (r: usize)
    ensures
        r == row_above(current),
{
    if current > 0 {
        current - 1
    } else {
        0
    }
}

fn below(current: usize, last: usize) -> (r: usize)
    ensures
        r == row_below(current, last),
{
    if current < last {
        current + 1
    } else {
        last
    }
}

pub fn palette_action(key: &Keystroke, current: usize, last: usize) -> (r: PaletteAction)
    ensures
        r == palette_action_of(*key, current, last),
{
    let name: &str = key.key.as_str();
    let control: bool = key.modifiers.control;
    if control || key.modifiers.platform {
        if same(name, "p") {
            if control {
                PaletteAction::Select(above(current))
            } else if current >= last {
                PaletteAction::Select(0)
            } else {
                PaletteAction::Select(current + 1)
            }
        } else if same(name, "n") && control {
            PaletteAction::Select(below(current, last))
        } else if same(name, "u") && control {
            PaletteAction::Clear
        } else {
            PaletteAction::Ignore
        }
    } else if same(name, "escape") {
        PaletteAction::Close
    } else if same(name, "backspace") {
        PaletteAction::Erase
    } else if same(name, "down") {
        PaletteAction::Select(below(current, last))
    } else if same(name, "up") {
        PaletteAction::Select(above(current))
    } else if same(name, "enter") {
        PaletteAction::Choose
    } else {
        match &key.key_char {
            Some(typed) => if all_printable(typed.as_str()) {
                PaletteAction::Type
            } else {
                PaletteAction::Keep
            },
            None => PaletteAction::Keep,
        }
    }
}

/// The highlight never leaves the rows, whatever key is pressed.
pub proof fn the_highlight_stays_on_the_rows(key: Keystroke, current: usize, rows: usize)
    requires
        current == 0 || current < rows,
    ensures
        palette_action_of(
            key,
            current,
            if rows == 0 {
                0
            } else {
                (rows - 1) as usize
            },
        ) matches PaletteAction::Select(i) ==> i == 0 || i < rows,
{
}

/// The machine of a row.
pub open spec fn row_id(rows: Seq<Vm>, i: int) -> Option<VmId> {
    if 0 <= i < rows.len() {
        Some(rows[i].id)
    } else {
        None
    }
}

/// The index of the last row, 0 where there is none.
pub open spec fn last_row(rows: Seq<Vm>) -> int {
    if rows.len() > 0 {
        rows.len() - 1
    } else {
        0
    }
}

/// What an action does to the palette, other than to choose from it.
pub open spec fn palette_after(
    p: Palette,
    rows: Seq<Vm>,
    key: Keystroke,
    action: PaletteAction,
    after: Option<Palette>,
) -> bool {
    match action {
        PaletteAction::Select(i) => after matches Some(q) && q.query == p.query && q.selected
            == row_id(rows, i as int),
        PaletteAction::Clear => after matches Some(q) && q.query@.len() == 0 && q.selected is None,
        PaletteAction::Erase => after matches Some(q) && q.query@ == (if p.query@.len() > 0 {
            p.query@.drop_last()
        } else {
            p.query@
        }) && q.selected is None,
        PaletteAction::Type => after matches Some(q) && q.query@ == p.query@
            + key.key_char.unwrap()@ && q.selected is None,
        PaletteAction::Close => after is None,
        _ => after == Some(p),
    }
}

/// What choosing the highlighted machine does: the palette closes, and a machine
/// that is running is opened; of one that is not the user is told so.
pub open spec fn chooses(
    before: IncusManager,
    after: IncusManager,
    rows: Seq<Vm>,
    current: int,
    reaction: Reaction,
) -> bool {
    if rows.len() == 0 {
        after == before && reaction.idle()
    } else {
        let closed = IncusManager { palette: None, ..before };
        if rows[current].is_running() {
            exists|inner: Reaction|
                #[trigger] opens(closed, after, rows[current].id, inner) && reaction == (Reaction {
                    repaint: true,
                    ..inner
                })
        } else {
            &&& text_of(after.error) == Some("该虚拟机未运行"@)
            &&& after == (IncusManager { error: after.error, ..closed })
            &&& reaction.repaints_with(Focus::Console)
        }
    }
}

/// What a key does in the palette while it shows `rows`: nothing where it is
/// closed. Where it is open, the key is kept from the guest.
pub open spec fn palette_key_does(
    before: IncusManager,
    after: IncusManager,
    key: Keystroke,
    rows: Seq<Vm>,
    reaction: Reaction,
) -> bool {
    match before.palette {
        None => after == before && reaction.idle(),
        Some(p) => {
            let noted = IncusManager { consumed_keys: after.consumed_keys, ..before };
            let current = highlighted(rows, id_of(p.selected));
            let action = palette_action_of(key, current as usize, last_row(rows) as usize);
            &&& consumed(after) == consumed(before).insert(key.key@)
            &&& if action == PaletteAction::Choose {
                chooses(noted, after, rows, current, reaction)
            } else {
                &&& palette_after(p, rows, key, action, after.palette)
                &&& after == (IncusManager { palette: after.palette, ..noted })
                &&& if action == PaletteAction::Ignore {
                    reaction.idle()
                } else if action == PaletteAction::Close {
                    reaction.repaints_with(Focus::Console)
                } else {
                    reaction.repaints()
                }
            }
        },
    }
}

/// What the palette shows.
pub open spec fn palette_rows_of(m: IncusManager) -> Seq<Vm> {
    match m.palette {
        Some(p) => ranked(
            m.vms@,
            lowered_names(m.vms@),
            lowered_projects(m.vms@),
            lowercase(p.query@),
        ),
        None => Seq::empty(),
    }
}

/// One row of the palette.
pub struct PaletteRow {
    pub vm: Vm,
    pub is_selected: bool,
    pub running: bool,
}

impl IncusManager {
    /// Opens an empty palette.
    pub fn open_palette(&mut self) -> (r: Reaction)
        ensures
            final(self).palette matches Some(p) && p.query@.len() == 0 && p.selected is None,
            *final(self) == (IncusManager { palette: final(self).palette, ..*old(self) }),
            r.repaints_with(Focus::Palette),
            old(self).wf() ==> final(self).wf(),
    {
        self.palette = Some(Palette { query: String::new(), selected: None });
        Reaction::repaint_with(Focus::Palette)
    }

    /// Closes the palette.
    pub fn close_palette(&mut self) -> (r: Reaction)
        ensures
            *final(self) == (IncusManager { palette: None, ..*old(self) }),
            r.repaints_with(Focus::Console),
            old(self).wf() ==> final(self).wf(),
    {
        self.palette = None;
        Reaction::repaint_with(Focus::Console)
    }

    /// The machines that the palette shows.
    pub fn palette_matches(&self) -> (r: Vec<Vm>)
        ensures
            r@ == palette_rows_of(*self),
    {
        match &self.palette {
            None => Vec::new(),
            Some(palette) => {
                let needle: String = palette.query.as_str().to_lowercase();
                let names: Vec<String> = lower_names(&self.vms);
                let projects: Vec<String> = lower_projects(&self.vms);
                assert(names@.len() == texts(names@).len());
                assert(projects@.len() == texts(projects@).len());
                rank_matches(&self.vms, &names, &projects, needle.as_str())
            },
        }
    }

    /// What the palette shows, with the highlight.
    pub fn palette_rows(&self) -> (r: Vec<PaletteRow>)
        ensures
            ({
                let rows = palette_rows_of(*self);
                let selected = match self.palette {
                    Some(p) => id_of(p.selected),
                    None => None,
                };
                &&& r@.len() == rows.len()
                &&& forall|i: int|
                    0 <= i < rows.len() ==> #[trigger] r@[i] == (PaletteRow {
                        vm: rows[i],
                        is_selected: i == highlighted(rows, selected),
                        running: rows[i].is_running(),
                    })
            }),
    {
        let rows: Vec<Vm> = self.palette_matches();
        let current: usize = match &self.palette {
            Some(palette) => highlight(&rows, &palette.selected),
            None => 0,
        };
        let mut out: Vec<PaletteRow> = Vec::new();
        let mut i: usize = 0;
        while i < rows.len()
            invariant
                i <= rows@.len(),
                out@.len() == i,
                forall|j: int|
                    0 <= j < i ==> #[trigger] out@[j] == (PaletteRow {
                        vm: rows@[j],
                        is_selected: j == current,
                        running: rows@[j].is_running(),
                    }),
            decreases rows@.len() - i,
        {
            out.push(
                PaletteRow {
                    vm: rows[i].clone(),
                    is_selected: i == current,
                    running: rows[i].running(),
                },
            );
            i += 1;
        }
        out
    }

    /// What stands in the palette's line of text: what has been typed, or what
    /// the palette is for. The flag tells which.
    pub fn palette_prompt(&self) -> (r: (String, bool))
        ensures
            r.1 == (self.palette matches Some(p) && p.query@.len() > 0),
            r.0@ == if r.1 {
                self.palette.unwrap().query@
            } else {
                "跳转到虚拟机…"@
            },
    {
        if let Some(palette) = &self.palette {
            if !palette.query.as_str().is_empty() {
                return (palette.query.clone(), true);
            }
        }
        ("跳转到虚拟机…".to_owned(), false)
    }

    /// A key in the palette while it shows `rows`.
    pub fn palette_key(&mut self, key: &Keystroke, rows: &Vec<Vm>) -> (r: Reaction)
        ensures
            palette_key_does(*old(self), *final(self), *key, rows@, r),
            old(self).wf() ==> final(self).wf(),
    {
        let mut palette: Palette = match self.palette.take() {
            Some(palette) => palette,
            None => return Reaction::none(),
        };
        self.note_consumed(key.key.as_str());
        let ghost noted = IncusManager { palette: old(self).palette, ..*self };
        let current: usize = highlight(rows, &palette.selected);
        let last: usize = if rows.len() > 0 {
            rows.len() - 1
        } else {
            0
        };
        match palette_action(key, current, last) {
            PaletteAction::Ignore => {
                self.palette = Some(palette);
                Reaction::none()
            },
            PaletteAction::Select(i) => {
                palette.selected = if i < rows.len() {
                    Some(rows[i].id.clone())
                } else {
                    None
                };
                self.palette = Some(palette);
                Reaction::repaint()
            },
            PaletteAction::Clear => {
                self.palette = Some(Palette { query: String::new(), selected: None });
                Reaction::repaint()
            },
            PaletteAction::Close => Reaction::repaint_with(Focus::Console),
            PaletteAction::Erase => {
                palette.query.pop();
                palette.selected = None;
                self.palette = Some(palette);
                Reaction::repaint()
            },
            PaletteAction::Choose => {
                if rows.len() == 0 {
                    self.palette = Some(palette);
                    return Reaction::none();
                }
                let ghost closed = *self;
                assert(closed == (IncusManager { palette: None, ..noted }));
                if rows[current].running() {
                    let inner: Reaction = self.open_or_focus(rows[current].id.clone());
                    assert(opens(closed, *self, rows@[current as int].id, inner));
                    Reaction { repaint: true, ..inner }
                } else {
                    self.error = Some("该虚拟机未运行".to_owned());
                    Reaction::repaint_with(Focus::Console)
                }
            },
            PaletteAction::Type => {
                if let Some(typed) = &key.key_char {
                    palette.query.append(typed.as_str());
                }
                palette.selected = None;
                self.palette = Some(palette);
                Reaction::repaint()
            },
            PaletteAction::Keep => {
                self.palette = Some(palette);
                Reaction::repaint()
            },
        }
    }

    /// A key in the palette.
    pub fn handle_palette_key(&mut self, key: &Keystroke) -> (r: Reaction)
        ensures
            palette_key_does(*old(self), *final(self), *key, palette_rows_of(*old(self)), r),
            old(self).wf() ==> final(self).wf(),
    {
        let rows: Vec<Vm> = self.palette_matches();
        self.palette_key(key, &rows)
    }

    /// A click on a row of the palette: it closes, and the row's machine is
    /// opened where it is running.
    pub fn palette_clicked(&mut self, vm: &Vm) -> (r: Reaction)
        ensures
            ({
                let closed = IncusManager { palette: None, ..*old(self) };
                if vm.is_running() {
                    exists|inner: Reaction|
                        #[trigger] opens(closed, *final(self), vm.id, inner) && r == (Reaction {
                            repaint: true,
                            ..inner
                        })
                } else {
                    *final(self) == closed && r.repaints_with(Focus::Console)
                }
            }),
            old(self).wf() ==> final(self).wf(),
    {
        let closing: Reaction = self.close_palette();
        if vm.running() {
            let inner: Reaction = self.open_or_focus(vm.id.clone());
            Reaction { repaint: true, ..inner }
        } else {
            closing
        }
    }
}

// ---------------------------------------------------------------------------
// What the operations amount to
// ---------------------------------------------------------------------------

/// Up, and Control-P, go to the row above, and stay on the first one.
pub proof fn up_goes_to_the_row_above(key: Keystroke, current: usize, last: usize)
    requires
        current <= last,
        ({
            ||| key.key@ == "up"@ && !key.modifiers.control && !key.modifiers.platform
            ||| key.key@ == "p"@ && key.modifiers.control
        }),
    ensures
        current > 0 ==> palette_action_of(key, current, last) == PaletteAction::Select(
            (current - 1) as usize,
        ),
        current == 0 ==> palette_action_of(key, current, last) == PaletteAction::Select(0),
{
    reveal_strlit("up");
    reveal_strlit("escape");
    reveal_strlit("backspace");
    reveal_strlit("down");
    assert("up"@.len() == 2 && "down"@.len() == 4);
}

/// Down, and Control-N, go to the row below, and stay on the last one.
pub proof fn down_goes_to_the_row_below(key: Keystroke, current: usize, last: usize)
    requires
        current <= last,
        ({
            ||| key.key@ == "down"@ && !key.modifiers.control && !key.modifiers.platform
            ||| key.key@ == "n"@ && key.modifiers.control
        }),
    ensures
        current < last ==> palette_action_of(key, current, last) == PaletteAction::Select(
            (current + 1) as usize,
        ),
        current == last ==> palette_action_of(key, current, last) == PaletteAction::Select(last),
{
    reveal_strlit("n");
    reveal_strlit("p");
    reveal_strlit("down");
    reveal_strlit("escape");
    reveal_strlit("backspace");
    assert("n"@[0] == 'n' && "p"@[0] == 'p');
    assert("down"@.len() == 4 && "escape"@.len() == 6 && "backspace"@.len() == 9);
}

/// Up undoes Down, and Down undoes Up, but for the ends of the list.
pub proof fn up_undoes_down(up: Keystroke, down: Keystroke, current: usize, last: usize)
    requires
        up.key@ == "up"@ && !up.modifiers.control && !up.modifiers.platform,
        down.key@ == "down"@ && !down.modifiers.control && !down.modifiers.platform,
        current < last,
    ensures
        palette_action_of(down, current, last) matches PaletteAction::Select(i)
            && palette_action_of(up, i, last) == PaletteAction::Select(current),
        palette_action_of(up, (current + 1) as usize, last) matches PaletteAction::Select(i)
            && palette_action_of(down, i, last) == PaletteAction::Select((current + 1) as usize),
{
    down_goes_to_the_row_below(down, current, last);
    up_goes_to_the_row_above(up, (current + 1) as usize, last);
}

/// Cmd-P goes to the row below, and from the last one to the first.
pub proof fn cmd_p_goes_around(key: Keystroke, current: usize, last: usize)
    requires
        key.key@ == "p"@ && key.modifiers.platform && !key.modifiers.control,
        current <= last,
    ensures
        palette_action_of(key, current, last) == PaletteAction::Select(
            ((current + 1) % (last + 1)) as usize,
        ),
{
    if current < last {
        assert((current + 1) % (last + 1) == current + 1) by (nonlinear_arith)
            requires
                0 <= current < last,
        ;
    } else {
        assert((current + 1) % (last + 1) == 0) by (nonlinear_arith)
            requires
                current == last,
                last >= 0,
        ;
    }
}

/// The other keys: Escape closes, Enter chooses, Backspace erases, Control-U
/// clears, and what is typed is added; any other key with Control or Cmd does
/// nothing.
pub proof fn the_other_keys_of_the_palette(key: Keystroke, current: usize, last: usize)
    ensures
        ({
            let action = palette_action_of(key, current, last);
            let plain = !key.modifiers.control && !key.modifiers.platform;
            &&& plain && key.key@ == "escape"@ ==> action == PaletteAction::Close
            &&& plain && key.key@ == "enter"@ ==> action == PaletteAction::Choose
            &&& plain && key.key@ == "backspace"@ ==> action == PaletteAction::Erase
            &&& key.modifiers.control && key.key@ == "u"@ ==> action == PaletteAction::Clear
            &&& action == PaletteAction::Choose ==> plain && key.key@ == "enter"@
            &&& action == PaletteAction::Close ==> plain && key.key@ == "escape"@
            &&& !plain && key.key@ != "p"@ && key.key@ != "n"@ && key.key@ != "u"@ ==> action
                == PaletteAction::Ignore
            &&& action == PaletteAction::Type ==> plain && (key.key_char matches Some(typed)
                && printable(typed@))
        }),
{
    reveal_strlit("escape");
    reveal_strlit("backspace");
    reveal_strlit("enter");
    reveal_strlit("down");
    reveal_strlit("up");
    reveal_strlit("u");
    reveal_strlit("p");
    reveal_strlit("n");
    assert("u"@[0] == 'u' && "p"@[0] == 'p' && "n"@[0] == 'n');
    assert("escape"@.len() == 6 && "enter"@.len() == 5);
}

/// What an action does to the palette: a row is highlighted as the machine it
/// shows, and every change of the search starts from the first row again.
pub proof fn the_palette_after_a_key(
    p: Palette,
    rows: Seq<Vm>,
    key: Keystroke,
    after: Palette,
    i: usize,
)
    ensures
        palette_after(p, rows, key, PaletteAction::Select(i), Some(after)) && i < rows.len()
            ==> after.selected == Some(rows[i as int].id) && after.query == p.query,
        palette_after(p, rows, key, PaletteAction::Type, Some(after)) && key.key_char is Some
            ==> after.query@ == p.query@ + key.key_char.unwrap()@ && after.selected is None,
        palette_after(p, rows, key, PaletteAction::Erase, Some(after)) ==> after.query@ == (
        if p.query@.len() == 0 {
            p.query@
        } else {
            p.query@.take(p.query@.len() - 1)
        }) && after.selected is None,
        palette_after(p, rows, key, PaletteAction::Clear, Some(after)) ==> after.query@.len() == 0
            && after.selected is None,
        palette_after(p, rows, key, PaletteAction::Keep, Some(after)) ==> after == p,
        !palette_after(p, rows, key, PaletteAction::Close, Some(after)),
{
    if p.query@.len() > 0 {
        assert(p.query@.drop_last() =~= p.query@.take(p.query@.len() - 1));
    }
}

/// Enter opens the highlighted machine, the first where none was chosen, if it is
/// running: it is connected,
/// unless it has a console or is getting one, and the palette closes.
pub proof fn enter_opens_the_highlighted_machine(
    before: IncusManager,
    after: IncusManager,
    key: Keystroke,
    rows: Seq<Vm>,
    reaction: Reaction,
    k: int,
)
    requires
        palette_key_does(before, after, key, rows, reaction),
        key.key@ == "enter"@ && !key.modifiers.control && !key.modifiers.platform,
        0 <= k < rows.len(),
        before.palette is Some,
        ({
            let selected = before.palette.unwrap().selected;
            ||| (selected matches Some(id) && id@ == rows[k].id@) && (forall|j: int|
                0 <= j < k ==> (#[trigger] rows[j]).id@ != rows[k].id@)
            ||| k == 0 && (forall|j: int|
                0 <= j < rows.len() ==> id_of(selected) != Some((#[trigger] rows[j]).id@))
        }),
    ensures
        after.palette is None,
        rows[k].is_running() ==> reaction.focus == Some(Focus::Console) && after.error is None,
        rows[k].is_running() && (forall|i: int|
            0 <= i < before.tabs@.len() ==> (#[trigger] before.tabs@[i]).id@ != rows[k].id@) && (
        forall|i: int|
            0 <= i < before.connecting@.len() ==> (#[trigger] before.connecting@[i])@
                != rows[k].id@) ==> reaction.command == Some(Command::Connect(rows[k].id))
            && after.connecting@ == before.connecting@.push(rows[k].id),
        rows[k].is_running() && (exists|i: int|
            0 <= i < before.tabs@.len() && (#[trigger] before.tabs@[i]).id@ == rows[k].id@)
            ==> after.active == Some(rows[k].id) && reaction.command is None,
        !rows[k].is_running() ==> reaction.command is None && text_of(after.error) is Some
            && after.tabs == before.tabs && after.connecting == before.connecting,
{
    let p = before.palette.unwrap();
    if forall|j: int| 0 <= j < rows.len() ==> id_of(p.selected) != Some((#[trigger] rows[j]).id@) {
        the_first_row_is_highlighted_otherwise(rows, id_of(p.selected));
    } else {
        row_at_first(rows, rows[k].id@, k);
    }
    assert(highlighted(rows, id_of(p.selected)) == k);
    the_other_keys_of_the_palette(
        key,
        highlighted(rows, id_of(p.selected)) as usize,
        last_row(rows) as usize,
    );
    tab_at_spec(before.tabs@, rows[k].id@);
}

proof fn row_at_first(rows: Seq<Vm>, id: (Seq<char>, Seq<char>), k: int)
    requires
        0 <= k < rows.len(),
        rows[k].id@ == id,
        forall|j: int| 0 <= j < k ==> (#[trigger] rows[j]).id@ != id,
    ensures
        row_at(rows, id) == k,
    decreases rows.len(),
{
    if k > 0 {
        assert(rows[0].id@ != id);
        let rest = rows.drop_first();
        assert(rest[k - 1] == rows[k]);
        assert forall|j: int| 0 <= j < k - 1 implies (#[trigger] rest[j]).id@ != id by {
            assert(rest[j] == rows[j + 1]);
        }
        row_at_first(rest, id, k - 1);
    }
}

/// Without a chosen machine, or where it is not among the rows, the first row is
/// highlighted.
pub proof fn the_first_row_is_highlighted_otherwise(
    rows: Seq<Vm>,
    selected: Option<(Seq<char>, Seq<char>)>,
)
    requires
        forall|i: int| 0 <= i < rows.len() ==> selected != Some((#[trigger] rows[i]).id@),
    ensures
        highlighted(rows, selected) == 0,
{
    if let Some(id) = selected {
        row_at_bounds(rows, id);
        if row_at(rows, id) < rows.len() {
            assert(rows[row_at(rows, id)].id@ == id);
        }
    }
}

/// The palette's rows are the machines whose name or project holds the search,
/// ignoring case: all of them where nothing is searched for, and no others.
pub proof fn the_palette_searches_names_and_projects(m: IncusManager, p: Palette, vm: Vm)
    requires
        m.palette == Some(p),
    ensures
        palette_rows_of(m).contains(vm) <==> m.vms@.contains(vm) && (lowercase(p.query@).len() == 0
            || occurs(lowercase(vm.id.name@), lowercase(p.query@)) || occurs(
            lowercase(vm.id.project@),
            lowercase(p.query@),
        )),
{
    let names = lowered_names(m.vms@);
    let projects = lowered_projects(m.vms@);
    let needle = lowercase(p.query@);
    let rows = palette_rows_of(m);
    if m.vms@.contains(vm) {
        let i = choose|i: int| 0 <= i < m.vms@.len() && m.vms@[i] == vm;
        assert(names[i] == lowercase(vm.id.name@));
        assert(projects[i] == lowercase(vm.id.project@));
        if hit(names[i], projects[i], needle) {
            every_hit_is_shown(m.vms@, names, projects, needle, i);
        }
    }
    if rows.contains(vm) {
        let k = choose|k: int| 0 <= k < rows.len() && rows[k] == vm;
        every_row_is_a_hit(m.vms@, names, projects, needle, k);
        let i = choose|i: int|
            0 <= i < m.vms@.len() && #[trigger] m.vms@[i] == rows[k] && hit(
                names[i],
                projects[i],
                needle,
            );
        assert(m.vms@[i] == vm);
        assert(names[i] == lowercase(vm.id.name@));
        assert(projects[i] == lowercase(vm.id.project@));
    }
}

/// The rows come in two parts, the running machines and then the others, each in
/// the order of the list. `names` and `projects` are in lowercase.
pub proof fn rows_keep_the_order_of_the_list(
    vms: Seq<Vm>,
    names: Seq<Seq<char>>,
    projects: Seq<Seq<char>>,
    needle: Seq<char>,
)
    requires
        names.len() == vms.len(),
        projects.len() == vms.len(),
    ensures
        ranked(vms, names, projects, needle) == vms.zip_with(
            names.zip_with(projects),
        ).filter_map(
            |row: (Vm, (Seq<char>, Seq<char>))|
                if (needle.len() == 0 || occurs(row.1.0, needle) || occurs(row.1.1, needle))
                    && row.0.status@ == "Running"@ {
                    Some(row.0)
                } else {
                    None
                },
        ) + vms.zip_with(names.zip_with(projects)).filter_map(
            |row: (Vm, (Seq<char>, Seq<char>))|
                if (needle.len() == 0 || occurs(row.1.0, needle) || occurs(row.1.1, needle))
                    && row.0.status@ != "Running"@ {
                    Some(row.0)
                } else {
                    None
                },
        ),
{
    running_hits_in_order(vms, names, projects, needle);
    other_hits_in_order(vms, names, projects, needle);
}

proof fn running_hits_in_order(
    vms: Seq<Vm>,
    names: Seq<Seq<char>>,
    projects: Seq<Seq<char>>,
    needle: Seq<char>,
)
    requires
        names.len() == vms.len(),
        projects.len() == vms.len(),
    ensures
        hits(vms, names, projects, needle, true) == vms.zip_with(
            names.zip_with(projects),
        ).filter_map(
            |row: (Vm, (Seq<char>, Seq<char>))|
                if (needle.len() == 0 || occurs(row.1.0, needle) || occurs(row.1.1, needle))
                    && row.0.status@ == "Running"@ {
                    Some(row.0)
                } else {
                    None
                },
        ),
    decreases vms.len(),
{
    if vms.len() > 0 {
        let (v, n, q) = (vms.drop_last(), names.drop_last(), projects.drop_last());
        running_hits_in_order(v, n, q, needle);
        let rows = vms.zip_with(names.zip_with(projects));
        assert(rows.drop_last() =~= v.zip_with(n.zip_with(q)));
        assert(rows.last() == (vms.last(), (names.last(), projects.last())));
        assert(hits(vms, names, projects, needle, true) =~= rows.filter_map(
            |row: (Vm, (Seq<char>, Seq<char>))|
                if (needle.len() == 0 || occurs(row.1.0, needle) || occurs(row.1.1, needle))
                    && row.0.status@ == "Running"@ {
                    Some(row.0)
                } else {
                    None
                },
        ));
    }
}

proof fn other_hits_in_order(
    vms: Seq<Vm>,
    names: Seq<Seq<char>>,
    projects: Seq<Seq<char>>,
    needle: Seq<char>,
)
    requires
        names.len() == vms.len(),
        projects.len() == vms.len(),
    ensures
        hits(vms, names, projects, needle, false) == vms.zip_with(
            names.zip_with(projects),
        ).filter_map(
            |row: (Vm, (Seq<char>, Seq<char>))|
                if (needle.len() == 0 || occurs(row.1.0, needle) || occurs(row.1.1, needle))
                    && row.0.status@ != "Running"@ {
                    Some(row.0)
                } else {
                    None
                },
        ),
    decreases vms.len(),
{
    if vms.len() > 0 {
        let (v, n, q) = (vms.drop_last(), names.drop_last(), projects.drop_last());
        other_hits_in_order(v, n, q, needle);
        let rows = vms.zip_with(names.zip_with(projects));
        assert(rows.drop_last() =~= v.zip_with(n.zip_with(q)));
        assert(rows.last() == (vms.last(), (names.last(), projects.last())));
        assert(hits(vms, names, projects, needle, false) =~= rows.filter_map(
            |row: (Vm, (Seq<char>, Seq<char>))|
                if (needle.len() == 0 || occurs(row.1.0, needle) || occurs(row.1.1, needle))
                    && row.0.status@ != "Running"@ {
                    Some(row.0)
                } else {
                    None
                },
        ));
    }
}

} // verus!
