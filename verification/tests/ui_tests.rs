use sticker_process::config::OutputDirState;
use sticker_process::transcoder::Status;
use sticker_process::runner::RunGate;
use sticker_process::ui::{dir_hint, run_gate_notice, toolbar_flags, DirHint};
use sticker_process::ui::{
    cleared_message, download_failed_message, format_elapsed, has_toast_text, key_command,
    mark_undo_owner, parse_number_field, remove_toast, removed_message, row_tooltip,
    save_failed_message, set_leaving, skipped_message, status_class, tally, theme_attribute,
    toast_hold_ms, KeyCommand, Tally, Toast, ToastKind, TOAST_FADE_MS,
};

fn toast(id: u64, text: &str) -> Toast {
    Toast { id, kind: ToastKind::Info, text: text.to_string(), leaving: false, undo: false }
}

#[test]
fn elapsed_times() {
    assert_eq!(format_elapsed(0), "0.0s");
    assert_eq!(format_elapsed(1_250), "1.2s");
    assert_eq!(format_elapsed(59_999), "59.9s");
    assert_eq!(format_elapsed(60_000), "1m00s");
    assert_eq!(format_elapsed(125_000), "2m05s");
}

#[test]
fn skipped_messages() {
    assert_eq!(skipped_message(&vec![]), None);
    assert_eq!(
        skipped_message(&vec!["a.txt".to_string()]).as_deref(),
        Some("Skipped unsupported file: a.txt")
    );
    assert_eq!(
        skipped_message(&vec!["a.txt".to_string(), "b.bmp".to_string()]).as_deref(),
        Some("Skipped 2 unsupported files (e.g. a.txt)")
    );
}

#[test]
fn toast_kinds() {
    assert_eq!(ToastKind::Error.label(), ToastKind::Error.label());
    assert_ne!(ToastKind::Success.class(), ToastKind::Error.class());
}

#[test]
fn one_undo_owner() {
    let mut list = vec![toast(1, "a"), toast(2, "b"), toast(3, "c")];
    list[0].undo = true;
    mark_undo_owner(&mut list, 3);
    let owners: Vec<bool> = list.iter().map(|t| t.undo).collect();
    assert_eq!(owners, [false, false, true]);
}

#[test]
fn toast_lifecycle() {
    let mut list = vec![toast(1, "a"), toast(2, "b")];
    set_leaving(&mut list, 2);
    assert!(!list[0].leaving && list[1].leaving);
    remove_toast(&mut list, 2);
    assert_eq!(list, vec![toast(1, "a")]);
    remove_toast(&mut list, 9);
    assert_eq!(list.len(), 1);
    assert_eq!(toast_hold_ms(false), 3600);
    assert_eq!(toast_hold_ms(true), 6000);
    assert_eq!(TOAST_FADE_MS, 350);
}

#[test]
fn repeated_failures_are_shown_once() {
    let list = vec![toast(1, "Failed to save settings: disk full")];
    assert!(has_toast_text(&list, &save_failed_message("disk full")));
    assert!(!has_toast_text(&list, &save_failed_message("denied")));
    assert!(!has_toast_text(&vec![], "x"));
}

#[test]
fn row_texts() {
    assert_eq!(status_class(Status::Probing), "badge probing");
    assert_eq!(status_class(Status::Pending), "badge");
    assert_eq!(status_class(Status::SizeExcess), "badge size-excess");
    assert_eq!(row_tooltip(r"D:\a.mp4", None), r"D:\a.mp4");
    assert_eq!(row_tooltip(r"D:\a.mp4", Some("boom")), "D:\\a.mp4\nboom");
    assert_eq!(removed_message("a.mp4"), "Removed a.mp4");
    assert_eq!(cleared_message(3), "Removed 3 finished task(s)");
    assert_eq!(download_failed_message(2), "Download failed for 2 file(s)");
}

#[test]
fn summary_tally() {
    let t = tally(&vec![
        (Status::Done, Some(1000)),
        (Status::SizeExcess, Some(500)),
        (Status::Alert, None),
        (Status::Pending, Some(7)),
        (Status::Done, None),
    ]);
    assert_eq!(t, Tally { total: 5, done: 2, over: 1, failed: 1, bytes: 1500 });
    assert_eq!(tally(&vec![]), Tally { total: 0, done: 0, over: 0, failed: 0, bytes: 0 });
}

#[test]
fn number_fields() {
    assert_eq!(parse_number_field(" 42 ", 255), Some(42));
    assert_eq!(parse_number_field("+7", 255), Some(7));
    assert_eq!(parse_number_field("256", 255), None);
    assert_eq!(parse_number_field("-1", 255), None);
    assert_eq!(parse_number_field("", 255), None);
    assert_eq!(parse_number_field("4294967295", u32::MAX as u64), Some(4294967295));
}

#[test]
fn shortcuts() {
    assert_eq!(key_command("run", false, true), KeyCommand::RunOrCancel);
    assert_eq!(key_command("run", true, true), KeyCommand::Ignore);
    assert_eq!(key_command("ready", false, false), KeyCommand::Ready);
    assert_eq!(key_command("open", false, true), KeyCommand::OpenFiles);
    assert_eq!(key_command("open", false, false), KeyCommand::Ignore);
    assert_eq!(key_command("nope", false, true), KeyCommand::Ignore);
}

#[test]
fn themes() {
    assert_eq!(theme_attribute("system"), None);
    assert_eq!(theme_attribute("dark"), Some("dark"));
    assert_eq!(theme_attribute("light"), Some("light"));
    assert_eq!(theme_attribute("purple"), Some("light"));
}

#[test]
fn output_folder_hints() {
    assert_eq!(
        dir_hint(OutputDirState::Missing, None),
        DirHint { bad: true, hint: Some(("Folder not found", " danger")) }
    );
    assert_eq!(
        dir_hint(OutputDirState::Exists, Some(false)),
        DirHint { bad: true, hint: Some(("Folder is not writable", " danger")) }
    );
    assert_eq!(dir_hint(OutputDirState::Exists, Some(true)), DirHint { bad: false, hint: None });
    assert_eq!(dir_hint(OutputDirState::Exists, None), DirHint { bad: false, hint: None });
    assert_eq!(
        dir_hint(OutputDirState::WillCreate, Some(false)),
        DirHint { bad: false, hint: Some(("Will be created when you run", "")) }
    );
}

#[test]
fn toolbar_flags_follow_statuses() {
    assert_eq!(toolbar_flags(&vec![]), (false, false));
    assert_eq!(toolbar_flags(&vec![Status::Done]), (true, false));
    assert_eq!(toolbar_flags(&vec![Status::Done, Status::Alert]), (true, true));
    assert_eq!(toolbar_flags(&vec![Status::Pending]), (false, true));
}

#[test]
fn refused_runs_say_why() {
    assert_eq!(
        run_gate_notice(RunGate::NothingToRun),
        Some("Nothing to run — every task is done (use Re-run to redo one)")
    );
    assert_eq!(run_gate_notice(RunGate::WaitForProbing), Some("Waiting for probing to finish"));
    assert_eq!(run_gate_notice(RunGate::Ignore), None);
    assert_eq!(run_gate_notice(RunGate::Start), None);
}
