use ws_nav::snapshot::{Snapshot, SnapshotError, Workspace};

fn ws(number: i64, output: &str, focused: bool, visible: bool) -> Workspace {
    Workspace { number, output: output.to_string(), focused, visible }
}

#[test]
fn empty_list_is_rejected() {
    match Snapshot::new(Vec::new()) {
        Err(e) => assert_eq!(e, SnapshotError::Empty),
        Ok(_) => panic!("empty list accepted"),
    }
}

#[test]
fn list_without_focus_is_rejected() {
    let list = vec![ws(1, "A", false, true), ws(2, "A", false, false)];
    match Snapshot::new(list) {
        Err(e) => assert_eq!(e, SnapshotError::NoFocusedWorkspace),
        Ok(_) => panic!("unfocused list accepted"),
    }
}

#[test]
fn duplicate_numbers_are_rejected() {
    let list = vec![ws(1, "A", true, true), ws(1, "B", false, true)];
    match Snapshot::new(list) {
        Err(e) => assert_eq!(e, SnapshotError::DuplicateNumber),
        Ok(_) => panic!("duplicate numbers accepted"),
    }
}

#[test]
fn valid_list_is_accepted_unchanged() {
    let list = vec![ws(2, "A", false, false), ws(5, "B", true, true)];
    let s = Snapshot::new(list).ok().expect("valid list rejected");
    let kept = s.workspaces();
    assert_eq!(kept.len(), 2);
    assert_eq!(kept[0].number, 2);
    assert_eq!(kept[1].number, 5);
}

#[test]
fn focused_returns_first_focused_entry() {
    let list = vec![
        ws(3, "A", false, false),
        ws(4, "B", true, true),
        ws(5, "C", true, true),
    ];
    let s = Snapshot::new(list).ok().expect("valid list rejected");
    let f = s.focused();
    assert_eq!(f.number, 4);
    assert_eq!(f.output, "B");
}
