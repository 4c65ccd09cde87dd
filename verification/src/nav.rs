//! The navigator: three selection strategies over a workspace snapshot.

use vstd::prelude::*;

use crate::snapshot::{focused_index, snapshot_wf, Snapshot, Workspace};

verus! {

/// The six navigation actions a caller can request.
#[derive(Clone, Copy, Debug, PartialEq, Eq, Structural)]
pub enum Action {
    /// Unscoped step to the next workspace number.
    Next,
    /// Unscoped step to the previous workspace number.
    Prev,
    /// Hop to the visible workspace of the next output.
    NextOutput,
    /// Hop to the visible workspace of the previous output.
    PrevOutput,
    /// Step to the next workspace number on the current output.
    NextOnOutput,
    /// Step to the previous workspace number on the current output.
    PrevOnOutput,
}

/// The candidate pools the strategies draw workspace numbers from.
#[derive(Clone, Copy, Debug)]
pub enum Pool {
    /// Every workspace of the snapshot.
    All,
    /// Workspaces assigned to the given output.
    SameOutput,
    /// Workspaces assigned to any other output.
    OtherOutput,
    /// Visible workspaces assigned to any other output.
    VisibleOtherOutput,
}

/// Whether a workspace belongs to the pool, relative to output `out`.
pub open spec fn in_pool(w: Workspace, pool: Pool, out: Seq<char>) -> bool {
    match pool {
        Pool::All => true,
        Pool::SameOutput => w.output@ == out,
        Pool::OtherOutput => w.output@ != out,
        Pool::VisibleOtherOutput => w.visible && w.output@ != out,
    }
}

fn in_pool_exec(w: &Workspace, pool: Pool, out: &String) -> (r: bool)
    ensures
        r == in_pool(*w, pool, out@),
{
    match pool {
        Pool::All => true,
        Pool::SameOutput => w.output == *out,
        Pool::OtherOutput => !(w.output == *out),
        Pool::VisibleOtherOutput => w.visible && !(w.output == *out),
    }
}

/// The pool holds a workspace number at least `bound`.
pub open spec fn has_num_ge(s: Seq<Workspace>, pool: Pool, out: Seq<char>, bound: int) -> bool {
    exists|i: int| 0 <= i < s.len() && in_pool(s[i], pool, out) && s[i].number >= bound
}

/// The pool holds a workspace number at most `bound`.
pub open spec fn has_num_le(s: Seq<Workspace>, pool: Pool, out: Seq<char>, bound: int) -> bool {
    exists|i: int| 0 <= i < s.len() && in_pool(s[i], pool, out) && s[i].number <= bound
}

/// `v` is the smallest workspace number in the pool that is at least `bound`.
pub open spec fn is_least_ge(
    s: Seq<Workspace>,
    pool: Pool,
    out: Seq<char>,
    bound: int,
    v: int,
) -> bool {
    &&& v >= bound
    &&& exists|i: int| 0 <= i < s.len() && in_pool(s[i], pool, out) && s[i].number == v
    &&& forall|i: int|
        0 <= i < s.len() && in_pool(s[i], pool, out) && s[i].number >= bound
            ==> v <= s[i].number
}

/// `v` is the largest workspace number in the pool that is at most `bound`.
pub open spec fn is_greatest_le(
    s: Seq<Workspace>,
    pool: Pool,
    out: Seq<char>,
    bound: int,
    v: int,
) -> bool {
    &&& v <= bound
    &&& exists|i: int| 0 <= i < s.len() && in_pool(s[i], pool, out) && s[i].number == v
    &&& forall|i: int|
        0 <= i < s.len() && in_pool(s[i], pool, out) && s[i].number <= bound
            ==> v >= s[i].number
}

/// The smallest pool number at least `bound` (meaningful when one exists).
pub open spec fn least_ge(s: Seq<Workspace>, pool: Pool, out: Seq<char>, bound: int) -> int {
    choose|v: int| is_least_ge(s, pool, out, bound, v)
}

/// The largest pool number at most `bound` (meaningful when one exists).
pub open spec fn greatest_le(s: Seq<Workspace>, pool: Pool, out: Seq<char>, bound: int) -> int {
    choose|v: int| is_greatest_le(s, pool, out, bound, v)
}

/// `v` is the largest workspace number of the whole snapshot.
pub open spec fn is_max_num(s: Seq<Workspace>, v: int) -> bool {
    &&& exists|i: int| 0 <= i < s.len() && s[i].number == v
    &&& forall|i: int| 0 <= i < s.len() ==> s[i].number <= v
}

/// The largest workspace number of the snapshot (meaningful when non-empty).
pub open spec fn max_num(s: Seq<Workspace>) -> int {
    choose|v: int| is_max_num(s, v)
}

/// The smallest qualifying number is unique, so `least_ge` returns it.
proof fn lemma_least_ge_unique(s: Seq<Workspace>, pool: Pool, out: Seq<char>, bound: int, v: int)
    requires
        is_least_ge(s, pool, out, bound, v),
    ensures
        least_ge(s, pool, out, bound) == v,
{
    let w = least_ge(s, pool, out, bound);
    assert(is_least_ge(s, pool, out, bound, w));
    let i = choose|i: int| 0 <= i < s.len() && in_pool(s[i], pool, out) && s[i].number == v;
    let j = choose|j: int| 0 <= j < s.len() && in_pool(s[j], pool, out) && s[j].number == w;
    assert(v <= s[j].number);
    assert(w <= s[i].number);
}

/// The largest qualifying number is unique, so `greatest_le` returns it.
proof fn lemma_greatest_le_unique(
    s: Seq<Workspace>,
    pool: Pool,
    out: Seq<char>,
    bound: int,
    v: int,
)
    requires
        is_greatest_le(s, pool, out, bound, v),
    ensures
        greatest_le(s, pool, out, bound) == v,
{
    let w = greatest_le(s, pool, out, bound);
    assert(is_greatest_le(s, pool, out, bound, w));
    let i = choose|i: int| 0 <= i < s.len() && in_pool(s[i], pool, out) && s[i].number == v;
    let j = choose|j: int| 0 <= j < s.len() && in_pool(s[j], pool, out) && s[j].number == w;
    assert(v >= s[j].number);
    assert(w >= s[i].number);
}

/// The largest snapshot number is unique, so `max_num` returns it.
proof fn lemma_max_num_unique(s: Seq<Workspace>, v: int)
    requires
        is_max_num(s, v),
    ensures
        max_num(s) == v,
{
    let w = max_num(s);
    assert(is_max_num(s, w));
    let i = choose|i: int| 0 <= i < s.len() && s[i].number == v;
    let j = choose|j: int| 0 <= j < s.len() && s[j].number == w;
    assert(v <= s[j].number || w <= s[i].number || v == w);
}

/// The smallest pool number at least `bound`, scanned from the whole list.
fn min_num_at_least(ws: &Vec<Workspace>, pool: Pool, out: &String, bound: i64) -> (r: Option<
    i64,
>)
    ensures
        match r {
            Some(v) => is_least_ge(ws@, pool, out@, bound as int, v as int),
            None => !has_num_ge(ws@, pool, out@, bound as int),
        },
{
    let mut best: Option<i64> = None;
    let ghost mut best_idx: int = 0;
    let mut i: usize = 0;
    while i < ws.len()
        invariant
            i <= ws@.len(),
            match best {
                Some(v) => {
                    &&& 0 <= best_idx < i
                    &&& in_pool(ws@[best_idx], pool, out@)
                    &&& ws@[best_idx].number == v
                    &&& v >= bound
                    &&& forall|k: int|
                        0 <= k < i && in_pool(ws@[k], pool, out@) && ws@[k].number >= bound
                            ==> v <= ws@[k].number
                },
                None => forall|k: int|
                    0 <= k < i ==> !(in_pool(ws@[k], pool, out@) && ws@[k].number >= bound),
            },
        decreases ws@.len() - i,
    {
        let w = &ws[i];
        if in_pool_exec(w, pool, out) && w.number >= bound {
            match best {
                Some(v) => {
                    if w.number < v {
                        best = Some(w.number);
                        proof {
                            best_idx = i as int;
                        }
                    }
                },
                None => {
                    best = Some(w.number);
                    proof {
                        best_idx = i as int;
                    }
                },
            }
        }
        i += 1;
    }
    best
}

/// The largest pool number at most `bound`, scanned from the whole list.
fn max_num_at_most(ws: &Vec<Workspace>, pool: Pool, out: &String, bound: i64) -> (r: Option<
    i64,
>)
    ensures
        match r {
            Some(v) => is_greatest_le(ws@, pool, out@, bound as int, v as int),
            None => !has_num_le(ws@, pool, out@, bound as int),
        },
{
    let mut best: Option<i64> = None;
    let ghost mut best_idx: int = 0;
    let mut i: usize = 0;
    while i < ws.len()
        invariant
            i <= ws@.len(),
            match best {
                Some(v) => {
                    &&& 0 <= best_idx < i
                    &&& in_pool(ws@[best_idx], pool, out@)
                    &&& ws@[best_idx].number == v
                    &&& v <= bound
                    &&& forall|k: int|
                        0 <= k < i && in_pool(ws@[k], pool, out@) && ws@[k].number <= bound
                            ==> v >= ws@[k].number
                },
                None => forall|k: int|
                    0 <= k < i ==> !(in_pool(ws@[k], pool, out@) && ws@[k].number <= bound),
            },
        decreases ws@.len() - i,
    {
        let w = &ws[i];
        if in_pool_exec(w, pool, out) && w.number <= bound {
            match best {
                Some(v) => {
                    if w.number > v {
                        best = Some(w.number);
                        proof {
                            best_idx = i as int;
                        }
                    }
                },
                None => {
                    best = Some(w.number);
                    proof {
                        best_idx = i as int;
                    }
                },
            }
        }
        i += 1;
    }
    best
}

/// The unscoped clamping rule: step by one, clamp at `1` below and at the
/// highest existing number above — except that stepping up from the highest
/// number itself escapes to `highest + step`, the one way to reach a
/// workspace number that does not exist yet.
pub open spec fn clamped_target(s: Seq<Workspace>, current: int, step: int) -> int {
    let next = current + step;
    let highest = max_num(s);
    if current == highest && step > 0 {
        next
    } else if next < 1 {
        1
    } else if next > highest {
        highest
    } else {
        next
    }
}

/// The skip-empty rule: only numbers that exist in the pool are candidates.
/// Stepping up picks the smallest pool number at least `current + step`;
/// stepping down picks the largest pool number at most `current + step`;
/// with no candidate the target stays `current`.
pub open spec fn skip_target(
    s: Seq<Workspace>,
    pool: Pool,
    out: Seq<char>,
    current: int,
    step: int,
) -> int {
    let next = current + step;
    if step >= 0 {
        if has_num_ge(s, pool, out, next) {
            least_ge(s, pool, out, next)
        } else {
            current
        }
    } else {
        if has_num_le(s, pool, out, next) {
            greatest_le(s, pool, out, next)
        } else {
            current
        }
    }
}

/// The target of the unscoped strategy.
pub open spec fn unscoped_target(
    s: Seq<Workspace>,
    current: int,
    step: int,
    skip_empty: bool,
) -> int {
    if skip_empty {
        skip_target(s, Pool::All, Seq::<char>::empty(), current, step)
    } else {
        clamped_target(s, current, step)
    }
}

/// The same-output walling rule: the numeric range the current output may
/// move in is bounded by the nearest numbers claimed by other outputs. The
/// lower wall is one above the largest other-output number below `current`,
/// or `1` when none exists; the upper wall is one below the smallest
/// other-output number above `current`, or the naive `current + step` when
/// none exists (which permits moving past the end). The naive step is then
/// clamped to the walls.
pub open spec fn walled_target(s: Seq<Workspace>, out: Seq<char>, current: int, step: int) -> int {
    let next = current + step;
    let lower = if has_num_le(s, Pool::OtherOutput, out, current - 1) {
        greatest_le(s, Pool::OtherOutput, out, current - 1) + 1
    } else {
        1
    };
    let upper = if has_num_ge(s, Pool::OtherOutput, out, current + 1) {
        least_ge(s, Pool::OtherOutput, out, current + 1) - 1
    } else {
        next
    };
    if next < lower {
        lower
    } else if next > upper {
        upper
    } else {
        next
    }
}

/// The target of the same-output strategy.
pub open spec fn on_output_target(
    s: Seq<Workspace>,
    out: Seq<char>,
    current: int,
    step: int,
    skip_empty: bool,
) -> int {
    if skip_empty {
        skip_target(s, Pool::SameOutput, out, current, step)
    } else {
        walled_target(s, out, current, step)
    }
}

/// The target of the cross-output strategy: hop to the nearest visible
/// workspace of another output — the smallest such number above `current`
/// when stepping up, the largest below when stepping down — and stay at
/// `current` when there is no candidate or the step is zero.
pub open spec fn cross_output_target(
    s: Seq<Workspace>,
    out: Seq<char>,
    current: int,
    step: int,
) -> int {
    if step > 0 {
        if has_num_ge(s, Pool::VisibleOtherOutput, out, current + 1) {
            least_ge(s, Pool::VisibleOtherOutput, out, current + 1)
        } else {
            current
        }
    } else if step < 0 {
        if has_num_le(s, Pool::VisibleOtherOutput, out, current - 1) {
            greatest_le(s, Pool::VisibleOtherOutput, out, current - 1)
        } else {
            current
        }
    } else {
        current
    }
}

/// The largest workspace number of the non-empty list.
fn max_number(ws: &Vec<Workspace>) -> (r: i64)
    requires
        ws@.len() > 0,
    ensures
        is_max_num(ws@, r as int),
{
    let mut best: i64 = ws[0].number;
    let ghost mut best_idx: int = 0;
    let mut i: usize = 1;
    while i < ws.len()
        invariant
            1 <= i <= ws@.len(),
            0 <= best_idx < i,
            ws@[best_idx].number == best,
            forall|k: int| 0 <= k < i ==> ws@[k].number <= best,
        decreases ws@.len() - i,
    {
        if ws[i].number > best {
            best = ws[i].number;
            proof {
                best_idx = i as int;
            }
        }
        i += 1;
    }
    best
}

/// The unscoped strategy: step by one through all workspace numbers,
/// clamping at the boundaries, or — with `skip_empty` — through the
/// existing numbers only.
pub fn find_by(snapshot: &Snapshot, current: i64, step: i64, skip_empty: bool) -> (r: i64)
    requires
        snapshot.wf(),
        step == 1 || step == -1,
        i64::MIN < current < i64::MAX,
    ensures
        r as int == unscoped_target(snapshot@, current as int, step as int, skip_empty),
{
    let ws = snapshot.workspaces();
    if skip_empty {
        let no_output = String::new();
        let next = current + step;
        if step >= 0 {
            match min_num_at_least(ws, Pool::All, &no_output, next) {
                Some(v) => {
                    proof {
                        lemma_least_ge_unique(
                            snapshot@,
                            Pool::All,
                            no_output@,
                            next as int,
                            v as int,
                        );
                    }
                    v
                },
                None => current,
            }
        } else {
            match max_num_at_most(ws, Pool::All, &no_output, next) {
                Some(v) => {
                    proof {
                        lemma_greatest_le_unique(
                            snapshot@,
                            Pool::All,
                            no_output@,
                            next as int,
                            v as int,
                        );
                    }
                    v
                },
                None => current,
            }
        }
    } else {
        let next = current + step;
        let highest = max_number(ws);
        proof {
            lemma_max_num_unique(snapshot@, highest as int);
        }
        if current == highest && step > 0 {
            next
        } else if next < 1 {
            1
        } else if next > highest {
            highest
        } else {
            next
        }
    }
}

/// The same-output strategy: step by one inside the numeric territory of
/// the given output, walled by the nearest numbers of other outputs, or —
/// with `skip_empty` — through the output's existing numbers only.
pub fn find_on_output(
    snapshot: &Snapshot,
    current: i64,
    step: i64,
    output: &String,
    skip_empty: bool,
) -> (r: i64)
    requires
        snapshot.wf(),
        step == 1 || step == -1,
        i64::MIN < current < i64::MAX,
    ensures
        r as int == on_output_target(
            snapshot@,
            output@,
            current as int,
            step as int,
            skip_empty,
        ),
{
    let ws = snapshot.workspaces();
    if skip_empty {
        let next = current + step;
        if step >= 0 {
            match min_num_at_least(ws, Pool::SameOutput, output, next) {
                Some(v) => {
                    proof {
                        lemma_least_ge_unique(
                            snapshot@,
                            Pool::SameOutput,
                            output@,
                            next as int,
                            v as int,
                        );
                    }
                    v
                },
                None => current,
            }
        } else {
            match max_num_at_most(ws, Pool::SameOutput, output, next) {
                Some(v) => {
                    proof {
                        lemma_greatest_le_unique(
                            snapshot@,
                            Pool::SameOutput,
                            output@,
                            next as int,
                            v as int,
                        );
                    }
                    v
                },
                None => current,
            }
        }
    } else {
        let next = current + step;
        let lower = match max_num_at_most(ws, Pool::OtherOutput, output, current - 1) {
            Some(m) => {
                proof {
                    lemma_greatest_le_unique(
                        snapshot@,
                        Pool::OtherOutput,
                        output@,
                        current - 1,
                        m as int,
                    );
                }
                m + 1
            },
            None => 1,
        };
        let upper = match min_num_at_least(ws, Pool::OtherOutput, output, current + 1) {
            Some(m) => {
                proof {
                    lemma_least_ge_unique(
                        snapshot@,
                        Pool::OtherOutput,
                        output@,
                        current + 1,
                        m as int,
                    );
                }
                m - 1
            },
            None => next,
        };
        if next < lower {
            lower
        } else if next > upper {
            upper
        } else {
            next
        }
    }
}

/// The cross-output strategy: hop to the nearest visible workspace of
/// another output, or stay at `current` when there is none.
pub fn find_output(snapshot: &Snapshot, current: i64, step: i64, output: &String) -> (r: i64)
    requires
        snapshot.wf(),
        i64::MIN < current < i64::MAX,
    ensures
        r as int == cross_output_target(snapshot@, output@, current as int, step as int),
{
    let ws = snapshot.workspaces();
    if step > 0 {
        match min_num_at_least(ws, Pool::VisibleOtherOutput, output, current + 1) {
            Some(v) => {
                proof {
                    lemma_least_ge_unique(
                        snapshot@,
                        Pool::VisibleOtherOutput,
                        output@,
                        current + 1,
                        v as int,
                    );
                }
                v
            },
            None => current,
        }
    } else if step < 0 {
        match max_num_at_most(ws, Pool::VisibleOtherOutput, output, current - 1) {
            Some(v) => {
                proof {
                    lemma_greatest_le_unique(
                        snapshot@,
                        Pool::VisibleOtherOutput,
                        output@,
                        current - 1,
                        v as int,
                    );
                }
                v
            },
            None => current,
        }
    } else {
        current
    }
}

/// The target of the requested action, taken from the focused workspace of
/// the snapshot.
pub open spec fn navigate_target(s: Seq<Workspace>, action: Action, skip_empty: bool) -> int {
    let f = s[focused_index(s)];
    match action {
        Action::Next => unscoped_target(s, f.number as int, 1, skip_empty),
        Action::Prev => unscoped_target(s, f.number as int, -1, skip_empty),
        Action::NextOutput => cross_output_target(s, f.output@, f.number as int, 1),
        Action::PrevOutput => cross_output_target(s, f.output@, f.number as int, -1),
        Action::NextOnOutput => on_output_target(s, f.output@, f.number as int, 1, skip_empty),
        Action::PrevOnOutput => on_output_target(s, f.output@, f.number as int, -1, skip_empty),
    }
}

/// Dispatches the requested action to its strategy, starting from the
/// focused workspace of the snapshot.
pub fn navigate(snapshot: &Snapshot, action: Action, skip_empty: bool) -> (r: i64)
    requires
        snapshot.wf(),
        i64::MIN < snapshot@[focused_index(snapshot@)].number < i64::MAX,
    ensures
        r as int == navigate_target(snapshot@, action, skip_empty),
{
    let f = snapshot.focused();
    let current = f.number;
    match action {
        Action::Next => find_by(snapshot, current, 1, skip_empty),
        Action::Prev => find_by(snapshot, current, -1, skip_empty),
        Action::NextOutput => find_output(snapshot, current, 1, &f.output),
        Action::PrevOutput => find_output(snapshot, current, -1, &f.output),
        Action::NextOnOutput => find_on_output(snapshot, current, 1, &f.output, skip_empty),
        Action::PrevOnOutput => find_on_output(snapshot, current, -1, &f.output, skip_empty),
    }
}

/// Law: an unscoped step up followed by an unscoped step down returns to
/// the starting workspace whenever the first step neither clamps at a
/// boundary nor escapes past the highest existing number — that is, when
/// the start lies strictly between the lower bound `1` (inclusive) and the
/// highest existing workspace number (exclusive).
pub proof fn lemma_next_prev_round_trip(s: Seq<Workspace>, current: int)
    requires
        snapshot_wf(s),
        1 <= current < max_num(s),
    ensures
        clamped_target(s, clamped_target(s, current, 1), -1) == current,
{
}

} // verus!
