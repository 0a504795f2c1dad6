use sticker_process::sidecar::{lists_vp9, sidecar_option, SidecarProbe};
use std::cell::RefCell;

#[test]
fn probe_stands_alone() {
    let none = SidecarProbe { exe: String::new(), has_vp9: false };
    let _ = SidecarProbe::probe(&none);
}

#[test]
fn detect_returns_result_without_panic() {
    let probe = SidecarProbe::select_candidate(
        vec!["".to_string(), "ffmpeg.exe".to_string()],
        |_| false,
        |_| true,
    );
    if probe.exe.is_empty() {
        assert!(!probe.has_vp9);
    } else {
        assert!(probe.has_vp9);
    }
}

#[test]
fn skips_candidate_without_vp9() {
    let files = ["first.cmd", "second.cmd"];
    let selected = SidecarProbe::select_candidate(
        vec!["first.cmd".to_string(), "second.cmd".to_string()],
        |p| files.contains(&p.as_str()),
        |p| p == "second.cmd",
    );
    assert_eq!(selected.exe, "second.cmd");
    assert!(selected.has_vp9);
}

#[test]
fn probe_hides_an_empty_detection() {
    let none = SidecarProbe { exe: String::new(), has_vp9: false };
    assert!(SidecarProbe::probe(&none).is_none());
    let found = SidecarProbe { exe: "ffmpeg.exe".to_string(), has_vp9: true };
    assert_eq!(SidecarProbe::probe(&found).map(|p| p.exe.as_str()), Some("ffmpeg.exe"));
}

#[test]
fn selection_stops_at_the_first_qualifying_candidate() {
    let asked = RefCell::new(Vec::new());
    let selected = SidecarProbe::select_candidate(
        vec!["a".to_string(), "b".to_string(), "c".to_string(), "d".to_string()],
        |p| p != "a",
        |p| {
            asked.borrow_mut().push(p.clone());
            p == "c"
        },
    );
    assert_eq!(selected.exe, "c");
    assert_eq!(*asked.borrow(), ["b", "c"]);
}

#[test]
fn selection_without_candidates_finds_nothing() {
    let selected = SidecarProbe::select_candidate(Vec::new(), |_| true, |_| true);
    assert_eq!(selected.exe, "");
    assert!(!selected.has_vp9);
}

#[test]
fn encoder_listing_is_read_from_either_stream() {
    assert!(lists_vp9(true, b" V....D libvpx-vp9  libvpx VP9", b""));
    assert!(lists_vp9(true, b"", b"\xff\xfe libvpx-vp9"));
    assert!(!lists_vp9(false, b"libvpx-vp9", b""));
    assert!(!lists_vp9(true, b"libvpx-vp8", b"libvpx"));
}

#[test]
fn engine_list_entry_for_the_sidecar() {
    let ok = SidecarProbe { exe: "ffmpeg.exe".to_string(), has_vp9: true };
    assert_eq!(sidecar_option(&ok), (true, ""));
    let no_vp9 = SidecarProbe { exe: "ffmpeg.exe".to_string(), has_vp9: false };
    assert_eq!(sidecar_option(&no_vp9), (false, " — 缺少 libvpx-vp9 编码器"));
    let none = SidecarProbe { exe: String::new(), has_vp9: false };
    assert_eq!(sidecar_option(&none), (false, " — 未检测到 ffmpeg"));
}

#[test]
fn offered_detection_has_the_encoder() {
    let without = SidecarProbe::select_candidate(
        vec!["a".to_string(), "b".to_string()],
        |_| true,
        |_| false,
    );
    assert!(SidecarProbe::probe(&without).is_none());
    let with = SidecarProbe::select_candidate(
        vec!["a".to_string(), "b".to_string()],
        |_| true,
        |p| p == "b",
    );
    let offered = SidecarProbe::probe(&with).expect("b qualifies");
    assert!(offered.has_vp9);
    assert_eq!(offered.exe, "b");
}
