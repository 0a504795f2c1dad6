//! The compatibility report: the availability facts gathered on the
//! desktop or in the browser, turned into titled sections of rows.
//!
//! Gathering the facts (running ffmpeg, asking libav, touching the output
//! folder, asking the browser) is the caller's part; every row's wording
//! and verdict is decided here. The routing rows ask [`Engine::for_web`]
//! itself rather than repeating its matrix.

use crate::config::{output_dir_state, spec_output_dir_state, OutputDirState};
use crate::error::join;
use crate::media::{ImageType, MediaType, VideoType};
use crate::sidecar::SidecarProbe;
use crate::text::{
    chars_of, dec, first_index_of, join_with, joined, lemma_first_index_of, lemma_trim_window,
    spec_trim, string_of, trim_bounds, u64_to_dec, find_char,
};
use crate::transcoder::{resolve_engine, spec_resolve_engine, Engine};
use vstd::prelude::*;
use vstd::string::*;

verus! {

/// One row's verdict; the dialog colours it by [`CompatState::css`].
#[derive(Debug, Clone, Copy, PartialEq, Eq, Structural)]
pub enum CompatState {
    /// Available.
    Pass,
    /// Usable but degraded (a setting falls back, a folder is created later).
    Warn,
    Fail,
    Info,
}

impl CompatState {
    pub open spec fn spec_label(self) -> Seq<char> {
        match self {
            CompatState::Pass => "OK"@,
            CompatState::Warn => "WARN"@,
            CompatState::Fail => "FAIL"@,
            CompatState::Info => "INFO"@,
        }
    }

    /// The verdict as printed.
    pub fn label(&self) -> (r: &'static str)
        ensures
            r@ == self.spec_label(),
    {
        match self {
            CompatState::Pass => "OK",
            CompatState::Warn => "WARN",
            CompatState::Fail => "FAIL",
            CompatState::Info => "INFO",
        }
    }

    pub open spec fn spec_css(self) -> Seq<char> {
        match self {
            CompatState::Pass => "ok"@,
            CompatState::Warn => "warn"@,
            CompatState::Fail => "fail"@,
            CompatState::Info => "info"@,
        }
    }

    /// The CSS class of the verdict (`.compat-state.<css>`).
    pub fn css(&self) -> (r: &'static str)
        ensures
            r@ == self.spec_css(),
    {
        match self {
            CompatState::Pass => "ok",
            CompatState::Warn => "warn",
            CompatState::Fail => "fail",
            CompatState::Info => "info",
        }
    }
}

/// One line of the report: what was checked, the verdict, and the detail.
#[derive(Debug, Clone, PartialEq)]
pub struct CompatRow {
    pub label: String,
    pub state: CompatState,
    pub detail: String,
}

impl View for CompatRow {
    type V = (Seq<char>, CompatState, Seq<char>);

    open spec fn view(&self) -> (Seq<char>, CompatState, Seq<char>) {
        (self.label@, self.state, self.detail@)
    }
}

impl CompatRow {
    pub fn new(label: String, state: CompatState, detail: String) -> (r: Self)
        ensures
            r@ == (label@, state, detail@),
    {
        CompatRow { label, state, detail }
    }
}

/// The views of `rows`, in order.
pub open spec fn rows_view(rows: Seq<CompatRow>) -> Seq<(Seq<char>, CompatState, Seq<char>)> {
    rows.map_values(|r: CompatRow| r@)
}

/// A titled group of rows.
#[derive(Debug, Clone, PartialEq)]
pub struct CompatSection {
    pub title: &'static str,
    pub rows: Vec<CompatRow>,
}

impl View for CompatSection {
    type V = (Seq<char>, Seq<(Seq<char>, CompatState, Seq<char>)>);

    open spec fn view(&self) -> (Seq<char>, Seq<(Seq<char>, CompatState, Seq<char>)>) {
        (self.title@, rows_view(self.rows@))
    }
}

impl CompatSection {
    pub fn new(title: &'static str, rows: Vec<CompatRow>) -> (r: Self)
        ensures
            r.title == title,
            r.rows@ == rows@,
    {
        CompatSection { title, rows }
    }
}

/// The whole report, section by section.
#[derive(Debug, Clone, PartialEq)]
pub struct CompatReport {
    pub sections: Vec<CompatSection>,
}

impl View for CompatReport {
    type V = Seq<(Seq<char>, Seq<(Seq<char>, CompatState, Seq<char>)>)>;

    open spec fn view(&self) -> Seq<(Seq<char>, Seq<(Seq<char>, CompatState, Seq<char>)>)> {
        self.sections@.map_values(|s: CompatSection| s@)
    }
}

/// A row from a label literal and a built detail.
fn row(label: &str, state: CompatState, detail: String) -> (r: CompatRow)
    ensures
        r@ == (label@, state, detail@),
{
    CompatRow::new(String::from_str(label), state, detail)
}

/// A row whose label and detail are both literals.
fn row_lit(label: &str, state: CompatState, detail: &str) -> (r: CompatRow)
    ensures
        r@ == (label@, state, detail@),
{
    CompatRow::new(String::from_str(label), state, String::from_str(detail))
}

/// The report shown when the desktop probe as a whole failed (its worker
/// could not be joined): one failing row instead of an empty dialog.
pub fn failed(detail: String) -> (r: CompatReport)
    ensures
        r@ == seq![("Probe"@, seq![("Compatibility probe"@, CompatState::Fail, detail@)])],
{
    let mut rows: Vec<CompatRow> = Vec::new();
    rows.push(row("Compatibility probe", CompatState::Fail, detail));
    let section = CompatSection::new("Probe", rows);
    let mut sections: Vec<CompatSection> = Vec::new();
    sections.push(section);
    let r = CompatReport { sections };
    assert(rows_view(r.sections@[0].rows@) =~= seq![("Compatibility probe"@, CompatState::Fail, r.sections@[0].rows@[0].detail@)]);
    assert(r@ =~= seq![("Probe"@, seq![("Compatibility probe"@, CompatState::Fail, detail@)])]);
    r
}

// ------------------------------------------------------------ versions

/// libav's packed version: major in the high bits, then minor and micro
/// in a byte each.
pub open spec fn spec_version_string(v: u32) -> Seq<char> {
    dec((v >> 16u32) as nat) + "."@ + dec(((v >> 8u32) & 0xffu32) as nat) + "."@ + dec((v & 0xffu32) as nat)
}

/// A packed libav version as `major.minor.micro`.
pub fn version_string(v: u32) -> (r: String)
    ensures
        r@ == spec_version_string(v),
{
    let major = u64_to_dec((v >> 16u32) as u64);
    let minor = u64_to_dec(((v >> 8u32) & 0xffu32) as u64);
    let micro = u64_to_dec((v & 0xffu32) as u64);
    let mut r = major;
    r.append(".");
    r.append(minor.as_str());
    r.append(".");
    r.append(micro.as_str());
    r
}

/// The first line of `ffmpeg -version`'s output, trimmed; none when the
/// output is empty or its first line is blank.
pub open spec fn spec_version_line(out: Seq<char>) -> Option<Seq<char>> {
    let end = match first_index_of(out, '\n', 0, out.len() as int) {
        Some(i) => i,
        None => out.len() as int,
    };
    let line = spec_trim(out.subrange(0, end));
    if line.len() == 0 {
        None
    } else {
        Some(line)
    }
}

/// The version line ffmpeg printed (see [`spec_version_line`]).
pub fn version_line(out: &str) -> (r: Option<String>)
    ensures
        match spec_version_line(out@) {
            Some(l) => r matches Some(s) && s@ == l,
            None => r is None,
        },
{
    let cs = chars_of(out);
    let n = cs.len();
    let end = match find_char(&cs, '\n', 0, n) {
        Some(i) => i,
        None => n,
    };
    proof {
        lemma_first_index_of(cs@, '\n', 0, n as int);
    }
    let (a, b) = trim_bounds(&cs, 0, end);
    proof {
        lemma_trim_window(cs@, 0, end as int);
    }
    if a == b {
        None
    } else {
        Some(string_of(&cs, a, b))
    }
}

// ------------------------------------------------------------ desktop

/// What the desktop knows when it opens the report.
#[derive(Debug, Clone)]
pub struct DesktopFacts {
    /// The package version, and the OS and architecture of this build.
    pub version: String,
    pub os: String,
    pub arch: String,
    /// The sidecar detection made for this process.
    pub detection: SidecarProbe,
    /// The version line of the detected ffmpeg (asked only when one was found).
    pub sidecar_version: Option<String>,
    /// `avutil_version()` of the linked libav.
    pub avutil_version: u32,
    /// Whether the linked libav has the libvpx-vp9 encoder.
    pub inprocess_vp9: bool,
    /// The output folder setting and what the file system says of it.
    pub output_dir: String,
    pub output_is_dir: bool,
    pub output_parent_is_dir: bool,
    pub output_exists: bool,
    /// Whether a file could be written there (tried only for a folder that exists).
    pub output_writable: bool,
}

/// `version · os/arch`.
pub open spec fn spec_build(version: Seq<char>, os: Seq<char>, arch: Seq<char>) -> Seq<char> {
    version + " · "@ + os + "/"@ + arch
}

/// The engine setting against the engine that will really run.
pub open spec fn spec_engine_setting_row(setting: Engine, resolved: Engine) -> (Seq<char>, CompatState, Seq<char>) {
    if resolved == setting {
        ("Engine setting"@, CompatState::Info, "'"@ + setting.spec_as_str() + "'"@)
    } else {
        (
            "Engine setting"@,
            CompatState::Warn,
            "'"@ + setting.spec_as_str() + "' unavailable → falls back to '"@ + resolved.spec_as_str()
                + "'"@,
        )
    }
}

pub open spec fn spec_platform_rows(setting: Engine, resolved: Engine, build: Seq<char>) -> Seq<(Seq<char>, CompatState, Seq<char>)> {
    seq![("Build"@, CompatState::Info, build), spec_engine_setting_row(setting, resolved)]
}

fn platform_rows(setting: Engine, resolved: Engine, version: &str, os: &str, arch: &str) -> (r: Vec<CompatRow>)
    ensures
        rows_view(r@) == spec_platform_rows(setting, resolved, spec_build(version@, os@, arch@)),
{
    let mut build = String::from_str(version);
    build.append(" · ");
    build.append(os);
    build.append("/");
    build.append(arch);
    let setting_row = if resolved == setting {
        let mut d = String::from_str("'");
        d.append(setting.as_str());
        d.append("'");
        row("Engine setting", CompatState::Info, d)
    } else {
        let mut d = String::from_str("'");
        d.append(setting.as_str());
        d.append("' unavailable → falls back to '");
        d.append(resolved.as_str());
        d.append("'");
        row("Engine setting", CompatState::Warn, d)
    };
    let mut rows: Vec<CompatRow> = Vec::new();
    rows.push(row("Build", CompatState::Info, build));
    rows.push(setting_row);
    assert(rows_view(rows@) =~= spec_platform_rows(setting, resolved, spec_build(version@, os@, arch@)));
    rows
}

/// The sidecar's rows: where its ffmpeg is, whether it has libvpx-vp9 and
/// which version it reports; or that none was found.
pub open spec fn spec_sidecar_rows(detection: SidecarProbe, version: Option<Seq<char>>) -> Seq<(Seq<char>, CompatState, Seq<char>)> {
    if detection.exe@.len() > 0 {
        seq![
            ("ffmpeg.exe (sidecar)"@, CompatState::Pass, detection.exe@),
            if detection.has_vp9 {
                ("libvpx-vp9 (sidecar)"@, CompatState::Pass, "encoder found"@)
            } else {
                ("libvpx-vp9 (sidecar)"@, CompatState::Fail, "encoder missing — sidecar cannot transcode VP9"@)
            },
            match version {
                Some(v) => ("ffmpeg version (sidecar)"@, CompatState::Info, v),
                None => ("ffmpeg version (sidecar)"@, CompatState::Warn, "`ffmpeg -version` gave no output"@),
            },
        ]
    } else {
        seq![
            ("ffmpeg.exe (sidecar)"@, CompatState::Fail, "not found (app folder or PATH)"@),
            ("libvpx-vp9 (sidecar)"@, CompatState::Info, "n/a — no ffmpeg.exe"@),
        ]
    }
}

/// The in-process engine's rows: libav's version and libvpx-vp9.
pub open spec fn spec_libav_rows(avutil_version: u32, vp9: bool) -> Seq<(Seq<char>, CompatState, Seq<char>)> {
    seq![
        ("libav (inprocess)"@, CompatState::Pass, "avutil "@ + spec_version_string(avutil_version)),
        if vp9 {
            ("libvpx-vp9 (inprocess)"@, CompatState::Pass, "encoder compiled in"@)
        } else {
            ("libvpx-vp9 (inprocess)"@, CompatState::Fail, "encoder not compiled in"@)
        },
    ]
}

fn engine_rows(detection: &SidecarProbe, sidecar_version: &Option<String>, avutil_version: u32, vp9: bool) -> (r: Vec<CompatRow>)
    ensures
        rows_view(r@) == spec_sidecar_rows(*detection, opt_view_ref(sidecar_version)) + spec_libav_rows(avutil_version, vp9),
{
    let mut rows: Vec<CompatRow> = Vec::new();
    match SidecarProbe::probe(detection) {
        Some(p) => {
            rows.push(CompatRow::new(String::from_str("ffmpeg.exe (sidecar)"), CompatState::Pass, p.exe.clone()));
            if p.has_vp9 {
                rows.push(row_lit("libvpx-vp9 (sidecar)", CompatState::Pass, "encoder found"));
            } else {
                rows.push(row_lit("libvpx-vp9 (sidecar)", CompatState::Fail, "encoder missing — sidecar cannot transcode VP9"));
            }
            match sidecar_version {
                Some(v) => rows.push(CompatRow::new(String::from_str("ffmpeg version (sidecar)"), CompatState::Info, v.clone())),
                None => rows.push(row_lit("ffmpeg version (sidecar)", CompatState::Warn, "`ffmpeg -version` gave no output")),
            }
        },
        None => {
            rows.push(row_lit("ffmpeg.exe (sidecar)", CompatState::Fail, "not found (app folder or PATH)"));
            rows.push(row_lit("libvpx-vp9 (sidecar)", CompatState::Info, "n/a — no ffmpeg.exe"));
        },
    }
    let ghost mid = rows@;
    assert(rows_view(mid) =~= spec_sidecar_rows(*detection, opt_view_ref(sidecar_version)));
    let version = version_string(avutil_version);
    rows.push(row("libav (inprocess)", CompatState::Pass, join("avutil ", version.as_str())));
    if vp9 {
        rows.push(row_lit("libvpx-vp9 (inprocess)", CompatState::Pass, "encoder compiled in"));
    } else {
        rows.push(row_lit("libvpx-vp9 (inprocess)", CompatState::Fail, "encoder not compiled in"));
    }
    assert(rows_view(rows@) =~= rows_view(mid) + spec_libav_rows(avutil_version, vp9));
    rows
}

/// The view of an optional string behind a reference.
pub open spec fn opt_view_ref(o: &Option<String>) -> Option<Seq<char>> {
    match *o {
        Some(s) => Some(s@),
        None => None,
    }
}

/// The output folder's row. A blank setting is reported as unset, not as
/// a missing parent; a folder that exists is judged by whether a file
/// could be written in it.
pub open spec fn spec_output_row(dir: Seq<char>, state: OutputDirState, writable: bool) -> (Seq<char>, CompatState, Seq<char>) {
    if spec_trim(dir).len() == 0 {
        ("Output folder"@, CompatState::Fail, "not set — pick a folder in the toolbar or settings"@)
    } else {
        match state {
            OutputDirState::Exists => if writable {
                ("Output folder"@, CompatState::Pass, dir + " · writable"@)
            } else {
                ("Output folder"@, CompatState::Fail, dir + " · not writable"@)
            },
            OutputDirState::WillCreate => ("Output folder"@, CompatState::Warn, dir + " · will be created on Run"@),
            OutputDirState::Missing => ("Output folder"@, CompatState::Fail, dir + " · parent folder missing"@),
        }
    }
}

fn output_row(dir: &str, state: OutputDirState, writable: bool) -> (r: CompatRow)
    ensures
        r@ == spec_output_row(dir@, state, writable),
{
    let cs = chars_of(dir);
    let (a, b) = trim_bounds(&cs, 0, cs.len());
    proof {
        lemma_trim_window(cs@, 0, cs@.len() as int);
        assert(cs@.subrange(0, cs@.len() as int) =~= dir@);
    }
    if a == b {
        return row_lit("Output folder", CompatState::Fail, "not set — pick a folder in the toolbar or settings");
    }
    match state {
        OutputDirState::Exists => if writable {
            row("Output folder", CompatState::Pass, join(dir, " · writable"))
        } else {
            row("Output folder", CompatState::Fail, join(dir, " · not writable"))
        },
        OutputDirState::WillCreate => row("Output folder", CompatState::Warn, join(dir, " · will be created on Run")),
        OutputDirState::Missing => row("Output folder", CompatState::Fail, join(dir, " · parent folder missing")),
    }
}

/// Whether the sidecar can transcode, by the process's detection.
pub open spec fn sidecar_ready(detection: SidecarProbe) -> bool {
    detection.exe@.len() > 0 && detection.has_vp9
}

/// The desktop report: the build and the engine setting against what will
/// run, both engines' availability, the output folder, and the routing
/// policy (one engine for every media type, the resolved setting).
pub open spec fn spec_desktop_report(setting: Engine, f: DesktopFacts) -> Seq<(Seq<char>, Seq<(Seq<char>, CompatState, Seq<char>)>)> {
    let resolved = spec_resolve_engine(setting, sidecar_ready(f.detection));
    let state = spec_output_dir_state(f.output_dir@, f.output_is_dir, f.output_parent_is_dir, f.output_exists);
    seq![
        ("Platform"@, spec_platform_rows(setting, resolved, spec_build(f.version@, f.os@, f.arch@))),
        ("Engines"@, spec_sidecar_rows(f.detection, opt_view_ref(&f.sidecar_version)) + spec_libav_rows(f.avutil_version, f.inprocess_vp9)),
        ("Output"@, seq![spec_output_row(f.output_dir@, state, f.output_writable)]),
        ("Routing (policy)"@, seq![("All media types"@, CompatState::Info, resolved.spec_as_str() + " (from the engine setting)"@)]),
    ]
}

/// The desktop report for the engine `setting`, from the facts gathered.
pub fn desktop_report(setting: Engine, facts: &DesktopFacts) -> (r: CompatReport)
    ensures
        r@ == spec_desktop_report(setting, *facts),
{
    let ready = match SidecarProbe::probe(&facts.detection) {
        Some(p) => p.has_vp9,
        None => false,
    };
    let resolved = resolve_engine(setting, ready);
    let state = output_dir_state(facts.output_dir.as_str(), facts.output_is_dir, facts.output_parent_is_dir, facts.output_exists);
    let platform = platform_rows(setting, resolved, facts.version.as_str(), facts.os.as_str(), facts.arch.as_str());
    let engines = engine_rows(&facts.detection, &facts.sidecar_version, facts.avutil_version, facts.inprocess_vp9);
    let mut output: Vec<CompatRow> = Vec::new();
    output.push(output_row(facts.output_dir.as_str(), state, facts.output_writable));
    let mut routing: Vec<CompatRow> = Vec::new();
    routing.push(row("All media types", CompatState::Info, join(resolved.as_str(), " (from the engine setting)")));
    let mut sections: Vec<CompatSection> = Vec::new();
    sections.push(CompatSection::new("Platform", platform));
    sections.push(CompatSection::new("Engines", engines));
    sections.push(CompatSection::new("Output", output));
    sections.push(CompatSection::new("Routing (policy)", routing));
    let r = CompatReport { sections };
    assert(rows_view(r.sections@[2].rows@) =~= seq![spec_output_row(facts.output_dir@, state, facts.output_writable)]);
    assert(rows_view(r.sections@[3].rows@) =~= seq![("All media types"@, CompatState::Info, resolved.spec_as_str() + " (from the engine setting)"@)]);
    assert(r@ =~= spec_desktop_report(setting, *facts));
    r
}

// ------------------------------------------------------------ browser

/// What the WebCodecs glue reports of the browser.
#[derive(Debug, Clone, Copy, PartialEq, Eq, Structural)]
pub struct ProbeDetails {
    pub video_encoder: bool,
    /// `requestVideoFrameCallback`.
    pub rvfc: bool,
    /// The WebM muxer script loaded.
    pub muxer: bool,
    /// `VideoEncoder.isConfigSupported` for 8-bit VP9.
    pub vp9_8bit: bool,
    pub image_decoder: bool,
    /// `OffscreenCanvas.convertToBlob`.
    pub offscreen_canvas: bool,
}

impl ProbeDetails {
    pub open spec fn spec_supported(self) -> bool {
        self.video_encoder && self.rvfc && self.muxer && self.vp9_8bit
    }

    /// Whether the WebCodecs fast path for mp4 is usable: it needs the
    /// encoder, frame callbacks, the muxer and 8-bit VP9 together.
    pub fn supported(&self) -> (r: bool)
        ensures
            r == self.spec_supported(),
    {
        self.video_encoder && self.rvfc && self.muxer && self.vp9_8bit
    }
}

/// Available or failing: for what has no fallback.
pub open spec fn spec_flag(ok: bool) -> CompatState {
    if ok {
        CompatState::Pass
    } else {
        CompatState::Fail
    }
}

/// The verdict for a check that has no fallback.
pub fn flag(ok: bool) -> (r: CompatState)
    ensures
        r == spec_flag(ok),
{
    if ok {
        CompatState::Pass
    } else {
        CompatState::Fail
    }
}

/// Available or degraded: for what mp4 can do without (it falls back to
/// ffmpeg.wasm, only slower).
pub open spec fn spec_degraded(ok: bool) -> CompatState {
    if ok {
        CompatState::Pass
    } else {
        CompatState::Warn
    }
}

fn degraded(ok: bool) -> (r: CompatState)
    ensures
        r == spec_degraded(ok),
{
    if ok {
        CompatState::Pass
    } else {
        CompatState::Warn
    }
}

/// `s` cut to `max` characters, with an ellipsis when something was cut.
pub open spec fn spec_truncate(s: Seq<char>, max: nat) -> Seq<char> {
    if s.len() <= max {
        s
    } else {
        s.subrange(0, max as int) + "…"@
    }
}

/// `s` cut to `max` characters (never inside a character), with an
/// ellipsis when something was cut.
pub fn truncate(s: &str, max: usize) -> (r: String)
    ensures
        r@ == spec_truncate(s@, max as nat),
{
    if s.unicode_len() <= max {
        String::from_str(s)
    } else {
        let head = s.substring_char(0, max);
        join(head, "…")
    }
}

pub open spec fn spec_web_platform_rows(setting: Engine, version: Seq<char>, secure: bool, user_agent: Seq<char>) -> Seq<(Seq<char>, CompatState, Seq<char>)> {
    seq![
        ("Build"@, CompatState::Info, version + " · wasm32"@),
        (
            "Engine setting"@,
            CompatState::Info,
            "'"@ + setting.spec_as_str() + "' (ignored on web — the media type picks the engine)"@,
        ),
        (
            "Secure context"@,
            spec_flag(secure),
            if secure {
                "yes (WebCodecs requires it)"@
            } else {
                "no — WebCodecs is unavailable outside https/localhost"@
            },
        ),
        ("Browser"@, CompatState::Info, spec_truncate(user_agent, 120)),
    ]
}

fn web_platform_rows(setting: Engine, version: &str, secure: bool, user_agent: &str) -> (r: Vec<CompatRow>)
    ensures
        rows_view(r@) == spec_web_platform_rows(setting, version@, secure, user_agent@),
{
    let mut rows: Vec<CompatRow> = Vec::new();
    rows.push(row("Build", CompatState::Info, join(version, " · wasm32")));
    let mut d = String::from_str("'");
    d.append(setting.as_str());
    d.append("' (ignored on web — the media type picks the engine)");
    rows.push(row("Engine setting", CompatState::Info, d));
    if secure {
        rows.push(row_lit("Secure context", flag(secure), "yes (WebCodecs requires it)"));
    } else {
        rows.push(row_lit("Secure context", flag(secure), "no — WebCodecs is unavailable outside https/localhost"));
    }
    rows.push(row("Browser", CompatState::Info, truncate(user_agent, 120)));
    assert(rows_view(rows@) =~= spec_web_platform_rows(setting, version@, secure, user_agent@));
    rows
}

/// The browser's engine rows: what the mp4 fast path needs (a gap only
/// degrades it) and what the image path needs (a gap fails it).
pub open spec fn spec_web_engine_rows(details: Option<ProbeDetails>) -> Seq<(Seq<char>, CompatState, Seq<char>)> {
    match details {
        None => seq![("WebCodecs glue"@, CompatState::Fail, "webcodecs-engine.js did not load or did not answer"@)],
        Some(d) => seq![
            (
                "WebCodecs VideoEncoder"@,
                spec_degraded(d.video_encoder),
                if d.video_encoder {
                    "available"@
                } else {
                    "missing — MP4 falls back to ffmpeg.wasm (29.5 MB core)"@
                },
            ),
            (
                "requestVideoFrameCallback"@,
                spec_degraded(d.rvfc),
                if d.rvfc {
                    "available"@
                } else {
                    "missing — MP4 falls back to ffmpeg.wasm (Firefox < 132)"@
                },
            ),
            (
                "WebM muxer"@,
                spec_degraded(d.muxer),
                if d.muxer {
                    "WebMMuxer loaded"@
                } else {
                    "missing — webm-muxer.js did not load, MP4 falls back to ffmpeg.wasm"@
                },
            ),
            (
                "VP9 8-bit encode"@,
                spec_degraded(d.vp9_8bit),
                if d.vp9_8bit {
                    "vp09.00.10.08 supported"@
                } else {
                    "unsupported — MP4 falls back to ffmpeg.wasm"@
                },
            ),
            (
                "ImageDecoder"@,
                spec_flag(d.image_decoder),
                if d.image_decoder {
                    "available"@
                } else {
                    "missing — images and GIF/APNG probing fail (Firefox < 133, Safari)"@
                },
            ),
            (
                "OffscreenCanvas.convertToBlob"@,
                spec_flag(d.offscreen_canvas),
                if d.offscreen_canvas {
                    "available"@
                } else {
                    "missing — the image path is unavailable"@
                },
            ),
        ],
    }
}

fn pick(ok: bool, yes: &'static str, no: &'static str) -> (r: &'static str)
    ensures
        r@ == (if ok {
            yes@
        } else {
            no@
        }),
{
    if ok {
        yes
    } else {
        no
    }
}

fn web_engine_rows(details: Option<ProbeDetails>) -> (r: Vec<CompatRow>)
    ensures
        rows_view(r@) == spec_web_engine_rows(details),
{
    let mut rows: Vec<CompatRow> = Vec::new();
    match details {
        None => {
            rows.push(row_lit("WebCodecs glue", CompatState::Fail, "webcodecs-engine.js did not load or did not answer"));
        },
        Some(d) => {
            rows.push(row_lit(
                "WebCodecs VideoEncoder",
                degraded(d.video_encoder),
                pick(d.video_encoder, "available", "missing — MP4 falls back to ffmpeg.wasm (29.5 MB core)"),
            ));
            rows.push(row_lit(
                "requestVideoFrameCallback",
                degraded(d.rvfc),
                pick(d.rvfc, "available", "missing — MP4 falls back to ffmpeg.wasm (Firefox < 132)"),
            ));
            rows.push(row_lit(
                "WebM muxer",
                degraded(d.muxer),
                pick(d.muxer, "WebMMuxer loaded", "missing — webm-muxer.js did not load, MP4 falls back to ffmpeg.wasm"),
            ));
            rows.push(row_lit(
                "VP9 8-bit encode",
                degraded(d.vp9_8bit),
                pick(d.vp9_8bit, "vp09.00.10.08 supported", "unsupported — MP4 falls back to ffmpeg.wasm"),
            ));
            rows.push(row_lit(
                "ImageDecoder",
                flag(d.image_decoder),
                pick(d.image_decoder, "available", "missing — images and GIF/APNG probing fail (Firefox < 133, Safari)"),
            ));
            rows.push(row_lit(
                "OffscreenCanvas.convertToBlob",
                flag(d.offscreen_canvas),
                pick(d.offscreen_canvas, "available", "missing — the image path is unavailable"),
            ));
        },
    }
    assert(rows_view(rows@) =~= spec_web_engine_rows(details));
    rows
}

/// An asset group's row: reachable, or which files are missing and the
/// likely cause (the assets were not copied to the web root).
pub open spec fn spec_missing_row(label: Seq<char>, missing: Seq<String>) -> (Seq<char>, CompatState, Seq<char>) {
    if missing.len() == 0 {
        (label, CompatState::Pass, "reachable"@)
    } else {
        (
            label,
            CompatState::Fail,
            "missing: "@ + joined(missing, ", "@)
                + " — copy assets/ to the web root (scripts/fetch-ffmpeg-core.sh fetches the core)"@,
        )
    }
}

pub fn missing_row(label: &str, missing: &Vec<String>) -> (r: CompatRow)
    ensures
        r@ == spec_missing_row(label@, missing@),
{
    if missing.len() == 0 {
        row_lit(label, CompatState::Pass, "reachable")
    } else {
        let mut d = String::from_str("missing: ");
        let list = join_with(missing, ", ");
        d.append(list.as_str());
        d.append(" — copy assets/ to the web root (scripts/fetch-ffmpeg-core.sh fetches the core)");
        row(label, CompatState::Fail, d)
    }
}

pub open spec fn spec_asset_rows(assets: Option<(Vec<String>, Vec<String>)>) -> Seq<(Seq<char>, CompatState, Seq<char>)> {
    match assets {
        None => seq![("Engine assets"@, CompatState::Fail, "asset check failed (glue not loaded)"@)],
        Some((webcodecs_missing, ffmpeg_missing)) => seq![
            spec_missing_row("WebCodecs assets (webm-muxer.js, webcodecs-engine.js)"@, webcodecs_missing@),
            spec_missing_row("ffmpeg.wasm assets (glue + 29.5 MB core)"@, ffmpeg_missing@),
        ],
    }
}

/// The asset rows, from the files each engine's glue could not reach
/// (`None`: the check itself did not run).
pub fn asset_rows(assets: &Option<(Vec<String>, Vec<String>)>) -> (r: Vec<CompatRow>)
    ensures
        rows_view(r@) == spec_asset_rows(*assets),
{
    let mut rows: Vec<CompatRow> = Vec::new();
    match assets {
        None => {
            rows.push(row_lit("Engine assets", CompatState::Fail, "asset check failed (glue not loaded)"));
        },
        Some((webcodecs_missing, ffmpeg_missing)) => {
            rows.push(missing_row("WebCodecs assets (webm-muxer.js, webcodecs-engine.js)", webcodecs_missing));
            rows.push(missing_row("ffmpeg.wasm assets (glue + 29.5 MB core)", ffmpeg_missing));
        },
    }
    assert(rows_view(rows@) =~= spec_asset_rows(*assets));
    rows
}

/// One routing row: the engine (and, for video, the pixel format) that
/// [`Engine::for_web`] picks for `media_type`.
pub open spec fn spec_route(label: Seq<char>, media_type: MediaType, webcodecs_ok: bool) -> (Seq<char>, CompatState, Seq<char>) {
    let (engine, _kind, pix_fmt) = Engine::spec_for_web(media_type, webcodecs_ok);
    (
        label,
        CompatState::Info,
        match media_type {
            MediaType::Image(_) => engine.spec_as_str() + " · 512px PNG (animated webp: first frame only)"@,
            MediaType::Video(_) => engine.spec_as_str() + " · "@ + pix_fmt,
        },
    )
}

pub open spec fn spec_routing_rows(webcodecs_ok: bool) -> Seq<(Seq<char>, CompatState, Seq<char>)> {
    seq![
        spec_route("mp4"@, MediaType::Video(VideoType::Mp4), webcodecs_ok),
        spec_route("gif"@, MediaType::Video(VideoType::Gif), webcodecs_ok),
        spec_route("apng"@, MediaType::Video(VideoType::Apng), webcodecs_ok),
        spec_route("images (jpg/png/webp)"@, MediaType::Image(ImageType::Jpg), webcodecs_ok),
    ]
}

fn route(label: &str, media_type: MediaType, webcodecs_ok: bool) -> (r: CompatRow)
    ensures
        r@ == spec_route(label@, media_type, webcodecs_ok),
{
    let (engine, _kind, pix_fmt) = Engine::for_web(&media_type, webcodecs_ok);
    let detail = match media_type {
        MediaType::Image(_) => join(engine.as_str(), " · 512px PNG (animated webp: first frame only)"),
        MediaType::Video(_) => {
            let mut d = join(engine.as_str(), " · ");
            d.append(pix_fmt);
            d
        },
    };
    row(label, CompatState::Info, detail)
}

/// The routing matrix as the browser will apply it.
pub fn routing_rows(webcodecs_ok: bool) -> (r: Vec<CompatRow>)
    ensures
        rows_view(r@) == spec_routing_rows(webcodecs_ok),
{
    let mut rows: Vec<CompatRow> = Vec::new();
    rows.push(route("mp4", MediaType::Video(VideoType::Mp4), webcodecs_ok));
    rows.push(route("gif", MediaType::Video(VideoType::Gif), webcodecs_ok));
    rows.push(route("apng", MediaType::Video(VideoType::Apng), webcodecs_ok));
    rows.push(route("images (jpg/png/webp)", MediaType::Image(ImageType::Jpg), webcodecs_ok));
    assert(rows_view(rows@) =~= spec_routing_rows(webcodecs_ok));
    rows
}

/// What the browser knows when it opens the report.
#[derive(Debug, Clone)]
pub struct WebFacts {
    pub version: String,
    /// `window.isSecureContext`.
    pub secure: bool,
    pub user_agent: String,
    /// The glue's capability details; `None` when it did not load or answer.
    pub details: Option<ProbeDetails>,
    /// The unreachable files of the WebCodecs and the ffmpeg.wasm engines;
    /// `None` when the check did not run.
    pub assets: Option<(Vec<String>, Vec<String>)>,
}

/// The browser report: platform, engine capabilities, asset reachability
/// and the routing matrix under the capabilities found.
pub open spec fn spec_web_report(setting: Engine, f: WebFacts) -> Seq<(Seq<char>, Seq<(Seq<char>, CompatState, Seq<char>)>)> {
    let webcodecs_ok = match f.details {
        Some(d) => d.spec_supported(),
        None => false,
    };
    seq![
        ("Platform"@, spec_web_platform_rows(setting, f.version@, f.secure, f.user_agent@)),
        ("Engines"@, spec_web_engine_rows(f.details)),
        ("Assets"@, spec_asset_rows(f.assets)),
        ("Routing (policy)"@, spec_routing_rows(webcodecs_ok)),
    ]
}

/// The browser report for the engine `setting` (shown, but not used: on
/// the web the media type picks the engine), from the facts gathered.
pub fn web_report(setting: Engine, facts: &WebFacts) -> (r: CompatReport)
    ensures
        r@ == spec_web_report(setting, *facts),
{
    let webcodecs_ok = match facts.details {
        Some(d) => d.supported(),
        None => false,
    };
    let mut sections: Vec<CompatSection> = Vec::new();
    sections.push(CompatSection::new("Platform", web_platform_rows(setting, facts.version.as_str(), facts.secure, facts.user_agent.as_str())));
    sections.push(CompatSection::new("Engines", web_engine_rows(facts.details)));
    sections.push(CompatSection::new("Assets", asset_rows(&facts.assets)));
    sections.push(CompatSection::new("Routing (policy)", routing_rows(webcodecs_ok)));
    let r = CompatReport { sections };
    assert(r@ =~= spec_web_report(setting, *facts));
    r
}

/// The report follows the sidecar detection: its first engine row is the
/// ffmpeg executable, failing exactly when no ffmpeg was found, and showing
/// the executable's path when one was.
pub proof fn sidecar_row_follows_detection(setting: Engine, f: DesktopFacts)
    ensures
        ({
            let engines = spec_desktop_report(setting, f)[1].1;
            &&& engines[0].0 == "ffmpeg.exe (sidecar)"@
            &&& (engines[0].1 == CompatState::Fail <==> f.detection.exe@.len() == 0)
            &&& f.detection.exe@.len() > 0 ==> engines[0].2 == f.detection.exe@
        }),
{
    let engines = spec_desktop_report(setting, f)[1].1;
    let side = spec_sidecar_rows(f.detection, opt_view_ref(&f.sidecar_version));
    assert(engines[0] == side[0]);
}

/// Every section of either report has at least one row, and the sections
/// come in a fixed order.
pub proof fn reports_have_no_empty_section(setting: Engine, d: DesktopFacts, w: WebFacts)
    ensures
        spec_desktop_report(setting, d).len() == 4,
        forall|i: int| 0 <= i < 4 ==> (#[trigger] spec_desktop_report(setting, d)[i]).1.len() > 0,
        spec_web_report(setting, w).len() == 4,
        forall|i: int| 0 <= i < 4 ==> (#[trigger] spec_web_report(setting, w)[i]).1.len() > 0,
        spec_desktop_report(setting, d)[0].0 == "Platform"@,
        spec_desktop_report(setting, d)[1].0 == "Engines"@,
        spec_desktop_report(setting, d)[2].0 == "Output"@,
        spec_desktop_report(setting, d)[3].0 == "Routing (policy)"@,
        spec_web_report(setting, w)[0].0 == "Platform"@,
        spec_web_report(setting, w)[1].0 == "Engines"@,
        spec_web_report(setting, w)[2].0 == "Assets"@,
        spec_web_report(setting, w)[3].0 == "Routing (policy)"@,
{
    let r = spec_desktop_report(setting, d);
    assert(r[1].1.len() >= 2);
    let v = spec_web_report(setting, w);
    assert forall|i: int| 0 <= i < 4 implies (#[trigger] spec_web_report(setting, w)[i]).1.len() > 0 by {
        if i == 1 {
            assert(spec_web_engine_rows(w.details).len() > 0);
        }
        if i == 2 {
            assert(spec_asset_rows(w.assets).len() > 0);
        }
    }
}

/// The routing rows show exactly what [`Engine::for_web`] decides: the
/// engine it picks for each listed type, and mp4 goes to WebCodecs exactly
/// when the browser supports the fast path.
pub proof fn routing_rows_follow_the_matrix(webcodecs_ok: bool)
    ensures
        spec_routing_rows(webcodecs_ok)[0].2 == Engine::spec_for_web(MediaType::Video(VideoType::Mp4), webcodecs_ok).0.spec_as_str()
            + " · "@ + VideoType::Mp4.spec_pix_fmt(),
        spec_routing_rows(webcodecs_ok)[1].2 == Engine::FfmpegWasm.spec_as_str() + " · "@ + VideoType::Gif.spec_pix_fmt(),
        spec_routing_rows(webcodecs_ok)[2].2 == Engine::FfmpegWasm.spec_as_str() + " · "@ + VideoType::Apng.spec_pix_fmt(),
        Engine::spec_for_web(MediaType::Video(VideoType::Mp4), webcodecs_ok).0 == (if webcodecs_ok {
            Engine::Webcodecs
        } else {
            Engine::FfmpegWasm
        }),
{
}

} // verus!
