use pixterm::history::{History, HistoryEntry};

fn make_entry(x: u16, y: u16, old: Option<(u8, u8, u8)>, new: Option<(u8, u8, u8)>) -> HistoryEntry {
    HistoryEntry {
        x,
        y,
        old_color: old,
        new_color: new,
    }
}

#[test]
fn test_push_and_undo() {
    let mut history = History::new();
    assert!(!history.can_undo());
    let entry = make_entry(0, 0, None, Some((255, 0, 0)));
    history.push_undo(vec![entry.clone()]);
    assert!(history.can_undo());
    let undone = history.undo().unwrap();
    assert_eq!(undone.len(), 1);
    assert_eq!(undone[0], entry);
    assert!(!history.can_undo());
    assert!(history.can_redo());
}

#[test]
fn test_redo() {
    let mut history = History::new();
    let entry = make_entry(1, 1, None, Some((0, 255, 0)));
    history.push_undo(vec![entry.clone()]);
    history.undo();
    assert!(history.can_redo());
    let redone = history.redo().unwrap();
    assert_eq!(redone.len(), 1);
    assert_eq!(redone[0], entry);
    assert!(history.can_undo());
    assert!(!history.can_redo());
}

#[test]
fn test_new_action_clears_redo() {
    let mut history = History::new();
    history.push_undo(vec![make_entry(0, 0, None, Some((255, 0, 0)))]);
    history.undo();
    assert!(history.can_redo());
    history.push_undo(vec![make_entry(1, 1, None, Some((0, 0, 255)))]);
    assert!(!history.can_redo());
}

#[test]
fn test_push_empty_ignored() {
    let mut history = History::new();
    history.push_undo(vec![]);
    assert!(!history.can_undo());
}

#[test]
fn test_batch_entries() {
    let mut history = History::new();
    let entries = vec![
        make_entry(0, 0, None, Some((255, 0, 0))),
        make_entry(1, 0, None, Some((255, 0, 0))),
        make_entry(2, 0, None, Some((255, 0, 0))),
    ];
    history.push_undo(entries.clone());
    let undone = history.undo().unwrap();
    assert_eq!(undone.len(), 3);
}

#[test]
fn history_test_clear() {
    let mut history = History::new();
    history.push_undo(vec![make_entry(0, 0, None, Some((255, 0, 0)))]);
    history.push_undo(vec![make_entry(1, 1, None, Some((0, 255, 0)))]);
    history.undo();
    history.clear();
    assert!(!history.can_undo());
    assert!(!history.can_redo());
}

#[test]
fn undo_and_redo_on_empty_history() {
    let mut history = History::new();
    assert!(history.undo().is_none());
    assert!(history.redo().is_none());
}

#[test]
fn undo_then_redo_restores_stacks() {
    let mut history = History::new();
    let a = make_entry(0, 0, None, Some((1, 1, 1)));
    let b = make_entry(1, 0, None, Some((2, 2, 2)));
    history.push_undo(vec![a.clone()]);
    history.push_undo(vec![b.clone()]);
    assert_eq!(history.undo().unwrap(), vec![b.clone()]);
    assert_eq!(history.redo().unwrap(), vec![b.clone()]);
    assert_eq!(history.undo().unwrap(), vec![b]);
    assert_eq!(history.undo().unwrap(), vec![a]);
    assert!(!history.can_undo());
}
