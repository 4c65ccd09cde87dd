//! The workspace snapshot: the data the navigator works on, together with
//! the checks that make a raw workspace list a well-formed snapshot.

use vstd::prelude::*;

verus! {

/// One workspace record from a window-manager snapshot.
#[derive(Clone, Debug)]
pub struct Workspace {
    /// Numeric identifier, unique within a well-formed snapshot.
    pub number: i64,
    /// Name of the output (monitor) the workspace is assigned to.
    pub output: String,
    /// Whether this workspace currently receives input.
    pub focused: bool,
    /// Whether this workspace is the one displayed on its output.
    pub visible: bool,
}

/// Why a workspace list was rejected as a snapshot.
#[derive(Clone, Copy, Debug, PartialEq, Eq, Structural)]
pub enum SnapshotError {
    /// The list holds no workspace at all.
    Empty,
    /// No workspace is marked focused.
    NoFocusedWorkspace,
    /// Two workspaces carry the same number.
    DuplicateNumber,
}

/// No two workspaces in the sequence carry the same number.
pub open spec fn unique_numbers(s: Seq<Workspace>) -> bool {
    forall|i: int, j: int|
        0 <= i < j < s.len() ==> s[i].number != s[j].number
}

/// Some workspace in the sequence is marked focused.
pub open spec fn has_focused(s: Seq<Workspace>) -> bool {
    exists|i: int| 0 <= i < s.len() && s[i].focused
}

/// A well-formed snapshot: non-empty, with a focused workspace and with
/// pairwise distinct workspace numbers.
pub open spec fn snapshot_wf(s: Seq<Workspace>) -> bool {
    &&& s.len() > 0
    &&& has_focused(s)
    &&& unique_numbers(s)
}

/// Index `i` holds the first focused workspace of the sequence.
pub open spec fn is_first_focused(s: Seq<Workspace>, i: int) -> bool {
    &&& 0 <= i < s.len()
    &&& s[i].focused
    &&& forall|j: int| 0 <= j < i ==> !s[j].focused
}

/// The index of the first focused workspace (meaningful when one exists).
pub open spec fn focused_index(s: Seq<Workspace>) -> int {
    choose|i: int| is_first_focused(s, i)
}

/// The first focused index is unique, so `focused_index` returns it.
pub proof fn lemma_first_focused_unique(s: Seq<Workspace>, i: int)
    requires
        is_first_focused(s, i),
    ensures
        focused_index(s) == i,
{
    let j = focused_index(s);
    assert(is_first_focused(s, j));
    if j < i {
        assert(!s[j].focused);
    }
    if i < j {
        assert(!s[i].focused);
    }
}

/// A validated, immutable workspace snapshot.
pub struct Snapshot {
    workspaces: Vec<Workspace>,
}

impl View for Snapshot {
    type V = Seq<Workspace>;

    closed spec fn view(&self) -> Seq<Workspace> {
        self.workspaces@
    }
}

impl Snapshot {
    /// The snapshot invariant, established by `new`.
    pub open spec fn wf(&self) -> bool {
        snapshot_wf(self@)
    }

    /// Validates a raw workspace list as a snapshot. A list is rejected
    /// exactly when it is empty, has no focused workspace, or carries a
    /// duplicate workspace number (checked in that order).
    pub fn new(workspaces: Vec<Workspace>) -> (r: Result<Snapshot, SnapshotError>)
        ensures
            match r {
                Ok(s) => s@ == workspaces@ && snapshot_wf(workspaces@),
                Err(SnapshotError::Empty) => workspaces@.len() == 0,
                Err(SnapshotError::NoFocusedWorkspace) => workspaces@.len() > 0
                    && !has_focused(workspaces@),
                Err(SnapshotError::DuplicateNumber) => workspaces@.len() > 0
                    && has_focused(workspaces@) && !unique_numbers(workspaces@),
            },
    {
        let n = workspaces.len();
        if n == 0 {
            return Err(SnapshotError::Empty);
        }
        let mut found_focus = false;
        let mut i: usize = 0;
        while i < n
            invariant
                n == workspaces@.len(),
                i <= n,
                found_focus ==> has_focused(workspaces@),
                !found_focus ==> forall|k: int| 0 <= k < i ==> !workspaces@[k].focused,
            decreases n - i,
        {
            if workspaces[i].focused {
                found_focus = true;
            }
            i += 1;
        }
        if !found_focus {
            return Err(SnapshotError::NoFocusedWorkspace);
        }
        let mut p: usize = 0;
        while p < n
            invariant
                n == workspaces@.len(),
                n > 0,
                has_focused(workspaces@),
                p <= n,
                forall|a: int, b: int|
                    0 <= a < b < n && a < p ==> workspaces@[a].number != workspaces@[b].number,
            decreases n - p,
        {
            let mut q: usize = p + 1;
            while q < n
                invariant
                    n == workspaces@.len(),
                    n > 0,
                    has_focused(workspaces@),
                    p < q <= n,
                    forall|a: int, b: int|
                        0 <= a < b < n && a < p ==> workspaces@[a].number != workspaces@[b].number,
                    forall|b: int| p < b < q ==> workspaces@[p as int].number != workspaces@[b].number,
                decreases n - q,
            {
                if workspaces[p].number == workspaces[q].number {
                    assert(!unique_numbers(workspaces@));
                    return Err(SnapshotError::DuplicateNumber);
                }
                q += 1;
            }
            p += 1;
        }
        Ok(Snapshot { workspaces })
    }

    /// The validated workspace records.
    pub fn workspaces(&self) -> (r: &Vec<Workspace>)
        ensures
            r@ == self@,
    {
        &self.workspaces
    }

    /// The first workspace marked focused.
    pub fn focused(&self) -> (r: &Workspace)
        requires
            self.wf(),
        ensures
            is_first_focused(self@, focused_index(self@)),
            *r == self@[focused_index(self@)],
    {
        let n = self.workspaces.len();
        let mut i: usize = 0;
        while i < n
            invariant
                self.wf(),
                n == self@.len(),
                i <= n,
                forall|k: int| 0 <= k < i ==> !self@[k].focused,
            decreases n - i,
        {
            if self.workspaces[i].focused {
                proof {
                    lemma_first_focused_unique(self@, i as int);
                }
                return &self.workspaces[i];
            }
            i += 1;
        }
        proof {
            let k = choose|k: int| 0 <= k < self@.len() && self@[k].focused;
            assert(!self@[k].focused);
        }
        vstd::pervasive::unreached()
    }
}

} // verus!
