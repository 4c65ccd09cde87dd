use ws_nav::nav::{find_by, find_on_output, find_output, navigate, Action};
use ws_nav::snapshot::{Snapshot, Workspace};

fn ws(number: i64, output: &str, focused: bool, visible: bool) -> Workspace {
    Workspace { number, output: output.to_string(), focused, visible }
}

fn snap(workspaces: Vec<Workspace>) -> Snapshot {
    match Snapshot::new(workspaces) {
        Ok(s) => s,
        Err(_) => panic!("snapshot rejected"),
    }
}

fn one_output(numbers: &[i64], focused_at: i64) -> Snapshot {
    let list: Vec<Workspace> =
        numbers.iter().map(|&n| ws(n, "A", n == focused_at, n == focused_at)).collect();
    snap(list)
}

#[test]
fn unscoped_escape_past_highest() {
    let s = one_output(&[1, 2, 3, 4, 5], 5);
    assert_eq!(find_by(&s, 5, 1, false), 6);
}

#[test]
fn unscoped_clamp_at_bottom() {
    let s = one_output(&[1, 2, 3, 4, 5], 1);
    assert_eq!(find_by(&s, 1, -1, false), 1);
}

#[test]
fn unscoped_interior_moves_are_exact() {
    let s = one_output(&[1, 2, 3], 2);
    assert_eq!(find_by(&s, 2, 1, false), 3);
    assert_eq!(find_by(&s, 2, -1, false), 1);
}

#[test]
fn unscoped_interior_step_into_missing_number() {
    // The unscoped strategy steps by number, not by existing workspace:
    // from 3 it reaches the not-yet-existing 4 without clamping.
    let s = one_output(&[1, 3, 7], 3);
    assert_eq!(find_by(&s, 3, 1, false), 4);
}

#[test]
fn unscoped_clamp_at_top_from_above() {
    // A current number above the highest existing one clamps back to it.
    let s = one_output(&[1, 3, 9], 3);
    assert_eq!(find_by(&s, 10, 1, false), 9);
}

#[test]
fn skip_empty_forward_picks_smallest_existing() {
    let s = one_output(&[1, 3, 7], 1);
    assert_eq!(find_by(&s, 1, 1, true), 3);
}

#[test]
fn skip_empty_without_candidate_stays_put() {
    let s = one_output(&[1, 3, 7], 7);
    assert_eq!(find_by(&s, 7, 1, true), 7);
}

#[test]
fn skip_empty_backward_picks_largest_existing() {
    let s = one_output(&[1, 3, 7], 7);
    assert_eq!(find_by(&s, 7, -1, true), 3);
    assert_eq!(find_by(&s, 1, -1, true), 1);
}

#[test]
fn same_output_walled_by_other_output_above() {
    let s = snap(vec![
        ws(1, "A", false, false),
        ws(2, "A", true, true),
        ws(3, "B", false, true),
        ws(4, "B", false, false),
    ]);
    assert_eq!(find_on_output(&s, 2, 1, &"A".to_string(), false), 2);
}

#[test]
fn same_output_open_top_creates_new_number() {
    let s = snap(vec![ws(1, "A", false, false), ws(2, "A", true, true)]);
    assert_eq!(find_on_output(&s, 2, 1, &"A".to_string(), false), 3);
}

#[test]
fn same_output_walled_by_other_output_below() {
    let s = snap(vec![
        ws(2, "A", false, true),
        ws(3, "B", true, true),
    ]);
    assert_eq!(find_on_output(&s, 3, -1, &"B".to_string(), false), 3);
}

#[test]
fn same_output_lower_wall_defaults_to_one() {
    let s = snap(vec![ws(2, "A", true, true), ws(3, "A", false, false)]);
    assert_eq!(find_on_output(&s, 2, -1, &"A".to_string(), false), 1);
}

#[test]
fn same_output_skip_empty_picks_own_numbers_only() {
    let s = snap(vec![
        ws(1, "A", true, true),
        ws(2, "B", false, true),
        ws(3, "B", false, false),
        ws(5, "A", false, false),
    ]);
    assert_eq!(find_on_output(&s, 1, 1, &"A".to_string(), true), 5);
    assert_eq!(find_on_output(&s, 5, 1, &"A".to_string(), true), 5);
    assert_eq!(find_on_output(&s, 5, -1, &"A".to_string(), true), 1);
}

#[test]
fn cross_output_hops_to_visible_workspace() {
    let s = snap(vec![
        ws(1, "A", true, true),
        ws(3, "B", false, false),
        ws(4, "B", false, true),
    ]);
    assert_eq!(find_output(&s, 1, 1, &"A".to_string()), 4);
}

#[test]
fn cross_output_without_candidate_stays_put() {
    let s = snap(vec![
        ws(1, "A", false, true),
        ws(4, "B", true, true),
    ]);
    assert_eq!(find_output(&s, 4, 1, &"B".to_string()), 4);
    assert_eq!(find_output(&s, 4, -1, &"B".to_string()), 1);
}

#[test]
fn cross_output_zero_step_is_a_no_op() {
    let s = snap(vec![
        ws(1, "A", true, true),
        ws(4, "B", false, true),
    ]);
    assert_eq!(find_output(&s, 1, 0, &"A".to_string()), 1);
}

#[test]
fn next_then_prev_returns_to_start() {
    let s = one_output(&[1, 2, 3], 2);
    let up = find_by(&s, 2, 1, false);
    assert_eq!(find_by(&s, up, -1, false), 2);
}

#[test]
fn navigate_dispatches_each_action() {
    let s = snap(vec![
        ws(1, "A", false, false),
        ws(2, "A", true, true),
        ws(3, "B", false, true),
        ws(4, "B", false, false),
    ]);
    assert_eq!(navigate(&s, Action::Next, false), 3);
    assert_eq!(navigate(&s, Action::Prev, false), 1);
    assert_eq!(navigate(&s, Action::NextOnOutput, false), 2);
    assert_eq!(navigate(&s, Action::PrevOnOutput, false), 1);
    assert_eq!(navigate(&s, Action::NextOutput, false), 3);
    assert_eq!(navigate(&s, Action::PrevOutput, false), 2);
}

#[test]
fn navigate_respects_skip_empty() {
    let s = snap(vec![
        ws(1, "A", true, true),
        ws(5, "A", false, false),
    ]);
    assert_eq!(navigate(&s, Action::Next, true), 5);
    assert_eq!(navigate(&s, Action::Next, false), 2);
}
