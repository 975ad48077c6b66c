use vstd::prelude::*;

verus! {

/// Identifier of a workspace (a virtual desktop addressable by index).
#[derive(Clone, Copy, PartialEq, Eq, Structural, Debug)]
pub struct WorkspaceId(pub u32);

/// Depth-2 navigation history of one seat: the workspace shown before the
/// current one, and the current one. Toggling alternates between the two.
#[derive(Clone, Copy, PartialEq, Eq, Structural, Debug)]
pub struct WorkspaceHistory {
    pub previous: WorkspaceId,
    pub current: WorkspaceId,
}

impl WorkspaceHistory {
    /// The pair after a toggle: previous and current swapped.
    pub open spec fn spec_toggled(self) -> WorkspaceHistory {
        WorkspaceHistory { previous: self.current, current: self.previous }
    }

    /// Fresh history: both slots hold the seat's default workspace.
    pub fn new(initial: WorkspaceId) -> (r: WorkspaceHistory)
        ensures
            r.previous == initial,
            r.current == initial,
    {
        WorkspaceHistory { previous: initial, current: initial }
    }

    /// Switch the displayed workspace to `target`.
    ///
    /// Showing the workspace already current is a no-op: the history is
    /// untouched and no display instruction is issued. Otherwise the current
    /// workspace becomes the previous one, `target` becomes current, and the
    /// returned instruction tells the seat to display `target`.
    pub fn show(&mut self, target: WorkspaceId) -> (display: Option<WorkspaceId>)
        ensures
            target == old(self).current ==> *final(self) == *old(self) && display is None,
            target != old(self).current ==> final(self).previous == old(self).current
                && final(self).current == target && display == Some(target),
    {
        if target == self.current {
            return None;
        }
        self.previous = self.current;
        self.current = target;
        Some(target)
    }

    /// Reassign the focused entity to workspace `target` without switching
    /// the display and without touching the history: the returned instruction
    /// names the workspace the seat must move its focused entity to.
    pub fn set(&self, target: WorkspaceId) -> (moved_to: WorkspaceId)
        ensures
            moved_to == target,
    {
        target
    }

    /// Swap previous and current, and instruct the seat to display the new
    /// current workspace: "switch to the last-shown workspace".
    pub fn toggle(&mut self) -> (display: WorkspaceId)
        ensures
            *final(self) == old(self).spec_toggled(),
            final(self).previous == old(self).current,
            final(self).current == old(self).previous,
            display == old(self).previous,
    {
        let tmp = self.previous;
        self.previous = self.current;
        self.current = tmp;
        self.current
    }
}

/// Toggling is its own inverse: from any pair, two toggles restore the
/// original pair exactly.
pub proof fn lemma_toggle_twice_restores(h: WorkspaceHistory)
    ensures
        h.spec_toggled().spec_toggled() == h,
{
}

} // verus!
