//! Which of the host's input sources to switch to when the window is activated.
//!
//! Everything typed into the program is meant as literal characters: the
//! filter, the palette, the rename dialog and every key sent to a console. An
//! input method left active would take them for a composition with nothing to
//! compose, so activating the window should be like activating a terminal.

use vstd::prelude::*;

verus! {

/// A keyboard layout or input method that the user has enabled.
#[derive(Clone, Copy, PartialEq, Eq, Structural, Debug)]
pub struct InputSource {
    pub ascii_capable: bool,
    pub selectable: bool,
}

/// A source that can be switched to and types ASCII.
pub open spec fn usable(source: InputSource) -> bool {
    source.selectable && source.ascii_capable
}

/// Which of the enabled sources to select, if any: none while the current one
/// types ASCII already, or is unknown; otherwise the first that can be selected
/// and does. In the user's own order that is the plain layout they reach for
/// themselves, so no particular layout is built in.
pub fn switch_to_ascii_capable(current: Option<InputSource>, sources: &Vec<InputSource>) -> (r:
    Option<usize>)
    ensures
        match r {
            Some(i) => {
                &&& current matches Some(c) && !c.ascii_capable
                &&& i < sources@.len()
                &&& usable(sources@[i as int])
                &&& forall|j: int| 0 <= j < i ==> !usable(#[trigger] sources@[j])
            },
            None => {
                ||| current is None
                ||| current matches Some(c) && c.ascii_capable
                ||| forall|j: int| 0 <= j < sources@.len() ==> !usable(#[trigger] sources@[j])
            },
        },
{
    match current {
        None => return None,
        Some(c) => {
            if c.ascii_capable {
                return None;
            }
        },
    }
    let mut i: usize = 0;
    while i < sources.len()
        invariant
            i <= sources@.len(),
            current matches Some(c) && !c.ascii_capable,
            forall|j: int| 0 <= j < i ==> !usable(#[trigger] sources@[j]),
        decreases sources@.len() - i,
    {
        if sources[i].selectable && sources[i].ascii_capable {
            return Some(i);
        }
        i += 1;
    }
    None
}

} // verus!
