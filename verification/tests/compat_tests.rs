use sticker_process::compat::{
    asset_rows, desktop_report, failed, flag, missing_row, routing_rows, truncate, version_line,
    version_string, web_report, CompatReport, CompatRow, CompatSection, CompatState, DesktopFacts,
    ProbeDetails, WebFacts,
};
use sticker_process::sidecar::SidecarProbe;
use sticker_process::transcoder::Engine;

fn facts(exe: &str, has_vp9: bool) -> DesktopFacts {
    DesktopFacts {
        version: "0.1.0".to_string(),
        os: "windows".to_string(),
        arch: "x86_64".to_string(),
        detection: SidecarProbe { exe: exe.to_string(), has_vp9 },
        sidecar_version: Some("ffmpeg version 9.0.1".to_string()),
        avutil_version: (61 << 16) | (1 << 8) | 101,
        inprocess_vp9: true,
        output_dir: r"D:\out".to_string(),
        output_is_dir: true,
        output_parent_is_dir: true,
        output_exists: true,
        output_writable: true,
    }
}

fn find<'a>(report: &'a CompatReport, label: &str) -> &'a CompatRow {
    report
        .sections
        .iter()
        .flat_map(|s| &s.rows)
        .find(|r| r.label == label)
        .expect("row present")
}

#[test]
fn version_string_unpacks_avutil_bits() {
    assert_eq!(version_string((59 << 16) | (8 << 8) | 100), "59.8.100");
    assert_eq!(version_string(0), "0.0.0");
}

#[test]
fn sidecar_row_follows_probe() {
    for (exe, vp9) in [("", false), (r"C:\app\ffmpeg.exe", true)] {
        let report = desktop_report(Engine::Sidecar, &facts(exe, vp9));
        let row = find(&report, "ffmpeg.exe (sidecar)");
        let expected_fail = SidecarProbe::probe(&SidecarProbe { exe: exe.to_string(), has_vp9: vp9 }).is_none();
        assert_eq!(row.state == CompatState::Fail, expected_fail, "{}", row.detail);
        assert!(!row.detail.is_empty());
        for section in &report.sections {
            assert!(!section.rows.is_empty(), "empty section {}", section.title);
        }
    }
}

#[test]
fn state_labels_and_classes() {
    let all = [CompatState::Pass, CompatState::Warn, CompatState::Fail, CompatState::Info];
    let labels: Vec<&str> = all.iter().map(|s| s.label()).collect();
    let css: Vec<&str> = all.iter().map(|s| s.css()).collect();
    assert_eq!(labels, ["OK", "WARN", "FAIL", "INFO"]);
    assert_eq!(css, ["ok", "warn", "fail", "info"]);
}

#[test]
fn failed_report_is_one_failing_row() {
    let r = failed("probe thread failed: boom".to_string());
    assert_eq!(
        r,
        CompatReport {
            sections: vec![CompatSection::new(
                "Probe",
                vec![CompatRow::new(
                    "Compatibility probe".to_string(),
                    CompatState::Fail,
                    "probe thread failed: boom".to_string()
                )]
            )]
        }
    );
}

#[test]
fn desktop_report_with_working_sidecar() {
    let report = desktop_report(Engine::Sidecar, &facts(r"C:\app\ffmpeg.exe", true));
    let titles: Vec<&str> = report.sections.iter().map(|s| s.title).collect();
    assert_eq!(titles, ["Platform", "Engines", "Output", "Routing (policy)"]);
    assert_eq!(find(&report, "Build").detail, "0.1.0 · windows/x86_64");
    let setting = find(&report, "Engine setting");
    assert_eq!((setting.state, setting.detail.as_str()), (CompatState::Info, "'sidecar'"));
    assert_eq!(find(&report, "ffmpeg.exe (sidecar)").detail, r"C:\app\ffmpeg.exe");
    assert_eq!(find(&report, "libvpx-vp9 (sidecar)").state, CompatState::Pass);
    assert_eq!(find(&report, "ffmpeg version (sidecar)").detail, "ffmpeg version 9.0.1");
    assert_eq!(find(&report, "libav (inprocess)").detail, "avutil 61.1.101");
    assert_eq!(find(&report, "libvpx-vp9 (inprocess)").detail, "encoder compiled in");
    let out = find(&report, "Output folder");
    assert_eq!((out.state, out.detail.as_str()), (CompatState::Pass, r"D:\out · writable"));
    assert_eq!(find(&report, "All media types").detail, "sidecar (from the engine setting)");
}

#[test]
fn desktop_report_without_sidecar_falls_back() {
    let mut f = facts("", false);
    f.sidecar_version = None;
    f.inprocess_vp9 = false;
    let report = desktop_report(Engine::Sidecar, &f);
    let setting = find(&report, "Engine setting");
    assert_eq!(setting.state, CompatState::Warn);
    assert_eq!(setting.detail, "'sidecar' unavailable → falls back to 'inprocess'");
    assert_eq!(find(&report, "ffmpeg.exe (sidecar)").detail, "not found (app folder or PATH)");
    let vp9 = find(&report, "libvpx-vp9 (sidecar)");
    assert_eq!((vp9.state, vp9.detail.as_str()), (CompatState::Info, "n/a — no ffmpeg.exe"));
    assert!(report.sections[1].rows.iter().all(|r| r.label != "ffmpeg version (sidecar)"));
    assert_eq!(find(&report, "libvpx-vp9 (inprocess)").state, CompatState::Fail);
    assert_eq!(find(&report, "All media types").detail, "inprocess (from the engine setting)");
}

#[test]
fn desktop_report_sidecar_without_vp9_and_silent_version() {
    let mut f = facts(r"C:\ffmpeg.exe", false);
    f.sidecar_version = None;
    let report = desktop_report(Engine::Webcodecs, &f);
    let vp9 = find(&report, "libvpx-vp9 (sidecar)");
    assert_eq!(vp9.state, CompatState::Fail);
    assert_eq!(vp9.detail, "encoder missing — sidecar cannot transcode VP9");
    let version = find(&report, "ffmpeg version (sidecar)");
    assert_eq!((version.state, version.detail.as_str()), (CompatState::Warn, "`ffmpeg -version` gave no output"));
    assert_eq!(
        find(&report, "Engine setting").detail,
        "'webcodecs' unavailable → falls back to 'inprocess'"
    );
}

#[test]
fn output_row_covers_each_folder_state() {
    let mut f = facts("", false);
    f.output_dir = "   ".to_string();
    let row = find(&desktop_report(Engine::Inprocess, &f), "Output folder").clone();
    assert_eq!(row.state, CompatState::Fail);
    assert_eq!(row.detail, "not set — pick a folder in the toolbar or settings");

    let mut f = facts("", false);
    f.output_writable = false;
    let row = find(&desktop_report(Engine::Inprocess, &f), "Output folder").clone();
    assert_eq!((row.state, row.detail.as_str()), (CompatState::Fail, r"D:\out · not writable"));

    let mut f = facts("", false);
    f.output_is_dir = false;
    f.output_exists = false;
    let row = find(&desktop_report(Engine::Inprocess, &f), "Output folder").clone();
    assert_eq!((row.state, row.detail.as_str()), (CompatState::Warn, r"D:\out · will be created on Run"));

    let mut f = facts("", false);
    f.output_is_dir = false;
    f.output_parent_is_dir = false;
    f.output_exists = false;
    let row = find(&desktop_report(Engine::Inprocess, &f), "Output folder").clone();
    assert_eq!((row.state, row.detail.as_str()), (CompatState::Fail, r"D:\out · parent folder missing"));
}

#[test]
fn version_line_takes_the_trimmed_first_line() {
    assert_eq!(
        version_line("ffmpeg version 7.1 Copyright\r\nbuilt with gcc\n").as_deref(),
        Some("ffmpeg version 7.1 Copyright")
    );
    assert_eq!(version_line("  only line  ").as_deref(), Some("only line"));
    assert_eq!(version_line(""), None);
    assert_eq!(version_line("   \nsecond"), None);
}

#[test]
fn web_report_rows() {
    let details = ProbeDetails {
        video_encoder: true,
        rvfc: false,
        muxer: true,
        vp9_8bit: true,
        image_decoder: false,
        offscreen_canvas: true,
    };
    assert!(!details.supported());
    let facts = WebFacts {
        version: "0.1.0".to_string(),
        secure: false,
        user_agent: "x".repeat(130),
        details: Some(details),
        assets: Some((vec![], vec!["ffmpeg-core-st.wasm".to_string(), "ffmpeg.js".to_string()])),
    };
    let report = web_report(Engine::Sidecar, &facts);
    let titles: Vec<&str> = report.sections.iter().map(|s| s.title).collect();
    assert_eq!(titles, ["Platform", "Engines", "Assets", "Routing (policy)"]);
    assert_eq!(find(&report, "Build").detail, "0.1.0 · wasm32");
    assert_eq!(
        find(&report, "Engine setting").detail,
        "'sidecar' (ignored on web — the media type picks the engine)"
    );
    assert_eq!(find(&report, "Secure context").state, CompatState::Fail);
    assert_eq!(find(&report, "Browser").detail, format!("{}…", "x".repeat(120)));
    let rvfc = find(&report, "requestVideoFrameCallback");
    assert_eq!(rvfc.state, CompatState::Warn);
    assert_eq!(rvfc.detail, "missing — MP4 falls back to ffmpeg.wasm (Firefox < 132)");
    assert_eq!(find(&report, "ImageDecoder").state, CompatState::Fail);
    assert_eq!(find(&report, "OffscreenCanvas.convertToBlob").state, CompatState::Pass);
    assert_eq!(
        find(&report, "WebCodecs assets (webm-muxer.js, webcodecs-engine.js)").detail,
        "reachable"
    );
    assert_eq!(
        find(&report, "ffmpeg.wasm assets (glue + 29.5 MB core)").detail,
        "missing: ffmpeg-core-st.wasm, ffmpeg.js — copy assets/ to the web root (scripts/fetch-ffmpeg-core.sh fetches the core)"
    );
    assert_eq!(find(&report, "mp4").detail, "ffmpeg-wasm · yuv420p10");
}

#[test]
fn web_report_without_glue() {
    let facts = WebFacts {
        version: "0.1.0".to_string(),
        secure: true,
        user_agent: "UA".to_string(),
        details: None,
        assets: None,
    };
    let report = web_report(Engine::Webcodecs, &facts);
    assert_eq!(report.sections[1].rows.len(), 1);
    assert_eq!(find(&report, "WebCodecs glue").state, CompatState::Fail);
    assert_eq!(find(&report, "Engine assets").detail, "asset check failed (glue not loaded)");
    assert_eq!(find(&report, "Secure context").detail, "yes (WebCodecs requires it)");
    assert_eq!(find(&report, "Browser").detail, "UA");
}

#[test]
fn routing_rows_follow_for_web() {
    let rows = routing_rows(true);
    let details: Vec<&str> = rows.iter().map(|r| r.detail.as_str()).collect();
    assert_eq!(
        details,
        [
            "webcodecs · yuv420p10",
            "ffmpeg-wasm · yuva420p",
            "ffmpeg-wasm · yuva420p",
            "webcodecs · 512px PNG (animated webp: first frame only)"
        ]
    );
    assert!(rows.iter().all(|r| r.state == CompatState::Info));
    assert_eq!(routing_rows(false)[0].detail, "ffmpeg-wasm · yuv420p10");
}

#[test]
fn missing_row_and_assets() {
    let ok = missing_row("X", &vec![]);
    assert_eq!((ok.state, ok.detail.as_str()), (CompatState::Pass, "reachable"));
    let one = missing_row("X", &vec!["a.js".to_string()]);
    assert_eq!(one.state, CompatState::Fail);
    assert!(one.detail.starts_with("missing: a.js — copy assets/"));
    assert_eq!(asset_rows(&None).len(), 1);
    assert_eq!(asset_rows(&Some((vec![], vec![]))).len(), 2);
}

#[test]
fn flag_and_truncate() {
    assert_eq!(flag(true), CompatState::Pass);
    assert_eq!(flag(false), CompatState::Fail);
    assert_eq!(truncate("abc", 3), "abc");
    assert_eq!(truncate("目录目录", 2), "目录…");
    assert_eq!(truncate("", 0), "");
}
