use sticker_process::queue::{reinsert_removed, remove_at, split_done, undo_remove, UndoSlot};
use sticker_process::transcoder::Status;

fn names(list: &[String]) -> Vec<String> {
    list.to_vec()
}

fn entries(list: &[&str]) -> Vec<String> {
    list.iter().map(|s| s.to_string()).collect()
}

#[test]
fn undo_reinsert_restores_original_order() {
    let list = entries(&["a.mp4", "b.mp4", "c.mp4", "d.mp4", "e.mp4"]);
    let statuses = vec![Status::Pending, Status::Done, Status::Pending, Status::Done, Status::Pending];
    let (mut kept, removed) = split_done(list, &statuses);
    assert_eq!(names(&kept), ["a.mp4", "c.mp4", "e.mp4"]);
    assert_eq!(removed.iter().map(|(i, _)| *i).collect::<Vec<_>>(), [1, 3]);
    reinsert_removed(&mut kept, removed);
    assert_eq!(names(&kept), ["a.mp4", "b.mp4", "c.mp4", "d.mp4", "e.mp4"]);
}

#[test]
fn undo_reinsert_clamps_stale_index() {
    let mut list = entries(&["a.mp4"]);
    reinsert_removed(&mut list, vec![(7, "x.mp4".to_string())]);
    assert_eq!(names(&list), ["a.mp4", "x.mp4"]);
}

#[test]
fn remove_then_reinsert_restores_the_list() {
    let mut list = entries(&["a", "b", "c"]);
    let removed = remove_at(&mut list, 1).unwrap();
    assert_eq!(removed, (1, "b".to_string()));
    assert_eq!(list, ["a", "c"]);
    reinsert_removed(&mut list, vec![removed]);
    assert_eq!(list, ["a", "b", "c"]);
    assert_eq!(remove_at(&mut list, 3), None);
    assert_eq!(list, ["a", "b", "c"]);
}

#[test]
fn undo_only_from_its_own_toast_and_never_while_running() {
    let mut list = entries(&["a", "c"]);
    let mut slot = Some(UndoSlot { toast_id: 5, removed: vec![(1, "b".to_string())] });
    assert!(!undo_remove(&mut list, &mut slot, false, 4));
    assert!(slot.is_some());
    assert!(!undo_remove(&mut list, &mut slot, true, 5));
    assert_eq!(list, ["a", "c"]);
    assert!(undo_remove(&mut list, &mut slot, false, 5));
    assert_eq!(list, ["a", "b", "c"]);
    assert!(slot.is_none());
    assert!(!undo_remove(&mut list, &mut slot, false, 5));
}

#[test]
fn split_without_done_keeps_everything() {
    let list = entries(&["a", "b"]);
    let (kept, removed) = split_done(list, &vec![Status::Alert, Status::SizeExcess]);
    assert_eq!(kept, ["a", "b"]);
    assert!(removed.is_empty());
}
