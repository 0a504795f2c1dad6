//! Task status, the engine vocabulary and its web routing matrix, and the
//! naming of transcode outputs.

use crate::error::TranscodeError;
use crate::media::{ImageType, MediaType, VideoType};
use crate::text::{chars_of, chars_eq, dec, digit_char, digit_value, digits_value, is_digit, opt_view, u64_to_dec};
use vstd::prelude::*;
use vstd::string::*;

verus! {

/// A task's place in its lifecycle.
#[derive(Debug, Clone, Copy, PartialEq, Eq, Structural)]
pub enum Status {
    /// Queued; duration and codec are being probed.
    Probing,
    Pending,
    Processing,
    Done,
    /// Failed.
    Alert,
    /// Finished, but over the size limit.
    SizeExcess,
}

impl Status {
    pub open spec fn spec_label(self) -> Seq<char> {
        match self {
            Status::Probing => "Probing"@,
            Status::Pending => "Pending"@,
            Status::Processing => "Transcoding"@,
            Status::Done => "Done"@,
            Status::Alert => "Failed"@,
            Status::SizeExcess => "Over limit"@,
        }
    }

    /// The badge text shown for this status.
    pub fn label(&self) -> (r: &'static str)
        ensures
            r@ == self.spec_label(),
    {
        match self {
            Status::Probing => "Probing",
            Status::Pending => "Pending",
            Status::Processing => "Transcoding",
            Status::Done => "Done",
            Status::Alert => "Failed",
            Status::SizeExcess => "Over limit",
        }
    }
}

/// A transcoding engine: the ffmpeg child process or in-process libav on
/// the desktop; WebCodecs or ffmpeg.wasm in the browser.
#[derive(Debug, Clone, Copy, PartialEq, Eq, Structural)]
pub enum Engine {
    Sidecar,
    Inprocess,
    Webcodecs,
    FfmpegWasm,
}

impl Default for Engine {
    fn default() -> (r: Self)
        ensures
            r == Engine::Sidecar,
    {
        Engine::Sidecar
    }
}

impl Engine {
    pub open spec fn spec_as_str(self) -> Seq<char> {
        match self {
            Engine::Sidecar => "sidecar"@,
            Engine::Inprocess => "inprocess"@,
            Engine::Webcodecs => "webcodecs"@,
            Engine::FfmpegWasm => "ffmpeg-wasm"@,
        }
    }

    pub open spec fn spec_parse(s: Seq<char>) -> Option<Engine> {
        if s == "sidecar"@ {
            Some(Engine::Sidecar)
        } else if s == "inprocess"@ {
            Some(Engine::Inprocess)
        } else if s == "webcodecs"@ {
            Some(Engine::Webcodecs)
        } else if s == "ffmpeg-wasm"@ {
            Some(Engine::FfmpegWasm)
        } else {
            None
        }
    }

    /// The engine a settings value names.
    pub fn parse(s: &str) -> (r: Option<Engine>)
        ensures
            r == Engine::spec_parse(s@),
    {
        let cs = chars_of(s);
        let n = cs.len();
        assert(cs@.subrange(0, n as int) =~= s@);
        if chars_eq(&cs, 0, n, "sidecar") {
            Some(Engine::Sidecar)
        } else if chars_eq(&cs, 0, n, "inprocess") {
            Some(Engine::Inprocess)
        } else if chars_eq(&cs, 0, n, "webcodecs") {
            Some(Engine::Webcodecs)
        } else if chars_eq(&cs, 0, n, "ffmpeg-wasm") {
            Some(Engine::FfmpegWasm)
        } else {
            None
        }
    }

    /// The settings value naming this engine.
    pub fn as_str(&self) -> (r: &'static str)
        ensures
            r@ == self.spec_as_str(),
    {
        match self {
            Engine::Sidecar => "sidecar",
            Engine::Inprocess => "inprocess",
            Engine::Webcodecs => "webcodecs",
            Engine::FfmpegWasm => "ffmpeg-wasm",
        }
    }

    pub open spec fn spec_for_web(media_type: MediaType, webcodecs_ok: bool) -> (Engine, Seq<char>, Seq<char>) {
        match media_type {
            MediaType::Video(v) => if v == VideoType::Gif || v == VideoType::Apng {
                (Engine::FfmpegWasm, "video"@, v.spec_pix_fmt())
            } else if webcodecs_ok && v == VideoType::Mp4 {
                (Engine::Webcodecs, "video"@, v.spec_pix_fmt())
            } else {
                (Engine::FfmpegWasm, "video"@, v.spec_pix_fmt())
            },
            MediaType::Image(_) => (Engine::Webcodecs, "image"@, "yuva420p"@),
        }
    }

    /// The browser's engine matrix (the settings value plays no part):
    /// gif/apng go to ffmpeg.wasm for alpha; mp4 goes to WebCodecs when its
    /// VP9 encoder is usable and to ffmpeg.wasm otherwise; images go to
    /// WebCodecs. Returns the engine, the glue's job kind and the pixel format.
    pub fn for_web(media_type: &MediaType, webcodecs_ok: bool) -> (r: (Engine, &'static str, &'static str))
        ensures
            (r.0, r.1@, r.2@) == Engine::spec_for_web(*media_type, webcodecs_ok),
    {
        match media_type {
            MediaType::Video(v) => {
                if matches!(v, VideoType::Gif | VideoType::Apng) {
                    (Engine::FfmpegWasm, "video", v.pix_fmt())
                } else if webcodecs_ok && matches!(v, VideoType::Mp4) {
                    (Engine::Webcodecs, "video", v.pix_fmt())
                } else {
                    (Engine::FfmpegWasm, "video", v.pix_fmt())
                }
            },
            MediaType::Image(_) => (Engine::Webcodecs, "image", "yuva420p"),
        }
    }
}

/// Every engine's settings value reads back as that engine.
pub proof fn engine_name_roundtrip(e: Engine)
    ensures
        Engine::spec_parse(e.spec_as_str()) == Some(e),
{
    reveal_strlit("sidecar");
    reveal_strlit("inprocess");
    reveal_strlit("webcodecs");
    reveal_strlit("ffmpeg-wasm");
    assert("sidecar"@.len() == 7);
    assert("inprocess"@.len() == 9);
    assert("webcodecs"@.len() == 9);
    assert("ffmpeg-wasm"@.len() == 11);
    assert("inprocess"@[0] != "webcodecs"@[0]);
}

/// The web matrix uses the same pixel format as the desktop engines for
/// every video type, and only the animated formats bypass WebCodecs.
pub proof fn web_matrix_pix_fmt_agrees(v: VideoType, webcodecs_ok: bool)
    ensures
        Engine::spec_for_web(MediaType::Video(v), webcodecs_ok).2 == v.spec_pix_fmt(),
        Engine::spec_for_web(MediaType::Video(v), webcodecs_ok).0 == Engine::Webcodecs <==> (
        webcodecs_ok && v == VideoType::Mp4),
{
}

/// The engine the desktop actually runs for a settings value: WebCodecs
/// exists only in the browser, and the ffmpeg child process needs an ffmpeg
/// with libvpx-vp9; both fall back to in-process libav.
pub open spec fn spec_resolve_engine(setting: Engine, sidecar_vp9_available: bool) -> Engine {
    match setting {
        Engine::Webcodecs => Engine::Inprocess,
        Engine::Sidecar => if sidecar_vp9_available {
            Engine::Sidecar
        } else {
            Engine::Inprocess
        },
        other => other,
    }
}

/// The engine the desktop actually runs for a settings value.
pub fn resolve_engine(setting: Engine, sidecar_vp9_available: bool) -> (r: Engine)
    ensures
        r == spec_resolve_engine(setting, sidecar_vp9_available),
{
    match setting {
        Engine::Webcodecs => Engine::Inprocess,
        Engine::Sidecar => if sidecar_vp9_available {
            Engine::Sidecar
        } else {
            Engine::Inprocess
        },
        other => other,
    }
}

/// A transcoded output's size in bytes.
#[derive(Debug, Clone, Copy, PartialEq, Eq, Structural)]
pub struct FileSize {
    pub size: u64,
}

impl FileSize {
    pub fn new(size: u64) -> (r: Self)
        ensures
            r.size == size,
    {
        Self { size }
    }

    pub fn set(&mut self, size: u64)
        ensures
            final(self).size == size,
    {
        self.size = size;
    }
}

// ------------------------------------------------------------ output names

/// Characters of the input's stem kept in an output name (a guard against
/// Windows path-length limits; the timestamp keeps names unique).
pub const MAX_NAME_STEM: usize = 64;

/// Output extension per media type: webm for video, png for images.
pub open spec fn spec_output_ext(t: MediaType) -> Seq<char> {
    match t {
        MediaType::Video(_) => "webm"@,
        MediaType::Image(_) => "png"@,
    }
}

/// The name prefix: the stem cut to [`MAX_NAME_STEM`] characters and a
/// dash, when the input name is kept and has a stem.
pub open spec fn spec_name_prefix(stem: Option<Seq<char>>, keep_input_name: bool) -> Seq<char> {
    if keep_input_name {
        match stem {
            Some(s) => (if s.len() <= MAX_NAME_STEM {
                s
            } else {
                s.subrange(0, MAX_NAME_STEM as int)
            }).push('-'),
            None => seq![],
        }
    } else {
        seq![]
    }
}

/// `prefix` + `timestamp` + `-` + `seq` + `.` + extension.
pub open spec fn spec_output_name(
    media_type: Option<MediaType>,
    stem: Option<Seq<char>>,
    keep_input_name: bool,
    timestamp: Seq<char>,
    seq_no: u64,
) -> Result<Seq<char>, TranscodeError> {
    match media_type {
        None => Err(TranscodeError::InvalidMediaType),
        Some(t) => Ok(
            spec_name_prefix(stem, keep_input_name) + timestamp + seq!['-'] + dec(seq_no as nat)
                + seq!['.'] + spec_output_ext(t),
        ),
    }
}

/// File name of a task's output: `[stem-]timestamp-seq.ext`. The sequence
/// number keeps two outputs named within one millisecond apart.
pub fn output_file_name(
    media_type: Option<MediaType>,
    stem: Option<String>,
    keep_input_name: bool,
    timestamp: &str,
    seq_no: u64,
) -> (r: Result<String, TranscodeError>)
    ensures
        match spec_output_name(
            media_type,
            opt_view(stem),
            keep_input_name,
            timestamp@,
            seq_no,
        ) {
            Ok(n) => r matches Ok(x) && x@ == n,
            Err(e) => r == Err::<String, TranscodeError>(e),
        },
        media_type matches Some(MediaType::Image(_)) ==> r matches Ok(x) && x@.len() >= 4
            && x@.subrange(x@.len() - 4, x@.len() as int) == ".png"@,
        media_type matches Some(MediaType::Video(_)) ==> r matches Ok(x) && x@.len() >= 5
            && x@.subrange(x@.len() - 5, x@.len() as int) == ".webm"@,
{
    proof {
        match media_type {
            Some(MediaType::Image(i)) => sticker_format_follows_image_or_video(
                i,
                VideoType::Mp4,
                opt_view(stem),
                keep_input_name,
                timestamp@,
                seq_no,
            ),
            Some(MediaType::Video(v)) => sticker_format_follows_image_or_video(
                ImageType::Png,
                v,
                opt_view(stem),
                keep_input_name,
                timestamp@,
                seq_no,
            ),
            None => {},
        }
    }
    let ext = match media_type {
        None => return Err(TranscodeError::InvalidMediaType),
        Some(MediaType::Video(_)) => "webm",
        Some(MediaType::Image(_)) => "png",
    };
    let mut r = String::new();
    if keep_input_name {
        match &stem {
            Some(s) => {
                let cs = chars_of(s.as_str());
                let n = cs.len();
                let take = if n <= MAX_NAME_STEM {
                    n
                } else {
                    MAX_NAME_STEM
                };
                let mut i: usize = 0;
                while i < take
                    invariant
                        take <= cs@.len(),
                        i <= take,
                        r@ == cs@.subrange(0, i as int),
                    decreases take - i,
                {
                    r.push(cs[i]);
                    i = i + 1;
                    assert(r@ =~= cs@.subrange(0, i as int));
                }
                r.push('-');
                assert(cs@.subrange(0, n as int) =~= s@);
            },
            None => {},
        }
    }
    let ghost prefix = r@;
    assert(prefix =~= spec_name_prefix(
        opt_view(stem),
        keep_input_name,
    ));
    r.append(timestamp);
    r.push('-');
    let digits = u64_to_dec(seq_no);
    r.append(digits.as_str());
    r.push('.');
    r.append(ext);
    Ok(r)
}

/// What a clock stamp `YYYY-MM-DD-HHMMSS.mmm` holds at position `i`: `-`
/// at 4, 7 and 10, `.` at 17, an ASCII digit elsewhere.
pub open spec fn stamp_char_ok(i: int, c: char) -> bool {
    if i == 4 || i == 7 || i == 10 {
        c == '-'
    } else if i == 17 {
        c == '.'
    } else {
        is_digit(c)
    }
}

/// The shape of every local clock stamp with a four-digit year
/// (`%Y-%m-%d-%H%M%S%.3f`): 21 characters as [`stamp_char_ok`] says.
pub open spec fn is_timestamp(ts: Seq<char>) -> bool {
    ts.len() == 21 && forall|i: int| 0 <= i < 21 ==> stamp_char_ok(i, #[trigger] ts[i])
}

/// Whether `s` has the shape of a clock stamp (the local time formatted
/// `%Y-%m-%d-%H%M%S%.3f` with a four-digit year).
pub fn has_timestamp_shape(s: &str) -> (r: bool)
    ensures
        r == is_timestamp(s@),
{
    let cs = chars_of(s);
    if cs.len() != 21 {
        return false;
    }
    let mut i: usize = 0;
    while i < 21
        invariant
            cs@ == s@,
            cs@.len() == 21,
            i <= 21,
            forall|j: int| 0 <= j < i ==> stamp_char_ok(j, #[trigger] cs@[j]),
        decreases 21 - i,
    {
        let c = cs[i];
        let ok = if i == 4 || i == 7 || i == 10 {
            c == '-'
        } else if i == 17 {
            c == '.'
        } else {
            '0' <= c && c <= '9'
        };
        if !ok {
            assert(!stamp_char_ok(i as int, cs@[i as int]));
            return false;
        }
        i = i + 1;
    }
    true
}

/// A per-process counter of output names: each name takes the next
/// number, so two outputs named within one millisecond still differ.
pub struct OutputSequence {
    next: u64,
}

impl OutputSequence {
    /// The number the next name takes.
    pub closed spec fn spec_next(&self) -> u64 {
        self.next
    }

    /// A counter that starts at 0.
    pub fn new() -> (r: OutputSequence)
        ensures
            r.spec_next() == 0,
    {
        OutputSequence { next: 0 }
    }

    /// Takes the next number; the counter only grows, and a number once
    /// taken is below every later one. `None` once all `u64` values below
    /// the maximum are used up.
    pub fn take(&mut self) -> (r: Option<u64>)
        ensures
            old(self).spec_next() < u64::MAX ==> r == Some(old(self).spec_next())
                && final(self).spec_next() == old(self).spec_next() + 1,
            old(self).spec_next() == u64::MAX ==> r is None && final(self).spec_next()
                == old(self).spec_next(),
    {
        if self.next < u64::MAX {
            let n = self.next;
            self.next = n + 1;
            Some(n)
        } else {
            None
        }
    }
}

/// `s` without its trailing `c`s (`str::trim_end_matches`).
pub open spec fn strip_trailing(s: Seq<char>, c: char) -> Seq<char>
    decreases s.len(),
{
    if s.len() > 0 && s.last() == c {
        strip_trailing(s.drop_last(), c)
    } else {
        s
    }
}

/// `T` and `:` turned into `-`.
pub open spec fn dashed(s: Seq<char>) -> Seq<char> {
    s.map_values(|c: char| if c == 'T' || c == ':' { '-' } else { c })
}

/// The browser's output timestamp: the ISO time `2026-09-11T12:34:56.789Z`
/// as `2026-09-11-12-34-56.789` (the trailing `Z` dropped, not dashed); the
/// milliseconds since the epoch when the ISO text comes out empty, so that
/// no output is named like a hidden file.
pub open spec fn spec_web_timestamp(iso: Seq<char>, now_ms: u64) -> Seq<char> {
    let s = dashed(strip_trailing(iso, 'Z'));
    if s.len() == 0 {
        dec(now_ms as nat)
    } else {
        s
    }
}

pub fn web_timestamp(iso: &str, now_ms: u64) -> (r: String)
    ensures
        r@ == spec_web_timestamp(iso@, now_ms),
{
    let cs = chars_of(iso);
    let mut end = cs.len();
    assert(cs@.subrange(0, end as int) =~= cs@);
    while end > 0 && cs[end - 1] == 'Z'
        invariant
            end <= cs@.len(),
            strip_trailing(cs@, 'Z') == strip_trailing(cs@.subrange(0, end as int), 'Z'),
        decreases end,
    {
        proof {
            let w = cs@.subrange(0, end as int);
            assert(w.drop_last() =~= cs@.subrange(0, end - 1));
        }
        end = end - 1;
    }
    proof {
        assert(cs@.subrange(0, cs@.len() as int) =~= cs@);
        let w = cs@.subrange(0, end as int);
        assert(strip_trailing(w, 'Z') == w);
    }
    let ghost stripped = cs@.subrange(0, end as int);
    let mut r = String::new();
    let mut i: usize = 0;
    while i < end
        invariant
            end <= cs@.len(),
            i <= end,
            stripped == cs@.subrange(0, end as int),
            r@ == dashed(stripped.subrange(0, i as int)),
        decreases end - i,
    {
        let c = cs[i];
        if c == 'T' || c == ':' {
            r.push('-');
        } else {
            r.push(c);
        }
        i = i + 1;
        assert(r@ =~= dashed(stripped.subrange(0, i as int)));
    }
    assert(stripped.subrange(0, end as int) =~= stripped);
    if end == 0 {
        u64_to_dec(now_ms)
    } else {
        r
    }
}

// ------------------------------------------------------------ frame timestamps

/// The next output frame's timestamp (output time base), given the last
/// one written and the frame's own timestamp already rescaled: its own
/// timestamp, moved to one tick after the last when it does not come after
/// it; one tick after the last when it has none, and 0 for a first frame
/// without one. Broken or variable-rate sources thus still give strictly
/// increasing timestamps.
pub open spec fn spec_next_pts(last: Option<i64>, scaled: Option<i64>) -> int {
    match scaled {
        Some(p) => match last {
            Some(l) => if p > l { p as int } else { l + 1 },
            None => p as int,
        },
        None => match last {
            Some(l) => l + 1,
            None => 0,
        },
    }
}

pub fn next_pts(last: Option<i64>, scaled: Option<i64>) -> (r: i64)
    requires
        last matches Some(l) ==> l < i64::MAX,
    ensures
        r == spec_next_pts(last, scaled),
        last matches Some(l) ==> r > l,
{
    match scaled {
        Some(p) => match last {
            Some(l) => if p > l {
                p
            } else {
                l + 1
            },
            None => p,
        },
        None => match last {
            Some(l) => l + 1,
            None => 0,
        },
    }
}

// ------------------------------------------------------------ engine runs

/// The desktop engine a run goes to.
#[derive(Debug, Clone, Copy, PartialEq, Eq, Structural)]
pub enum DesktopRoute {
    Sidecar,
    Inprocess,
}

/// Where the desktop sends a run: the browser's engines exist only in the
/// web build.
pub fn desktop_route(engine: Engine) -> (r: Result<DesktopRoute, TranscodeError>)
    ensures
        engine == Engine::Sidecar ==> r == Ok::<DesktopRoute, TranscodeError>(DesktopRoute::Sidecar),
        engine == Engine::Inprocess ==> r == Ok::<DesktopRoute, TranscodeError>(DesktopRoute::Inprocess),
        (engine == Engine::Webcodecs || engine == Engine::FfmpegWasm) ==> (r matches Err(
            TranscodeError::UnsupportedEngine(m),
        ) && m@ == "web engines (webcodecs / ffmpeg-wasm) require the web build"@),
{
    match engine {
        Engine::Sidecar => Ok(DesktopRoute::Sidecar),
        Engine::Inprocess => Ok(DesktopRoute::Inprocess),
        Engine::Webcodecs | Engine::FfmpegWasm => Err(
            TranscodeError::UnsupportedEngine("web engines (webcodecs / ffmpeg-wasm) require the web build"),
        ),
    }
}

/// A browser engine's output: empty output is an error, not a tiny
/// sticker that would pass the size check.
pub fn engine_output(bytes: Vec<u8>) -> (r: Result<Vec<u8>, TranscodeError>)
    ensures
        bytes@.len() > 0 ==> (r matches Ok(o) && o@ == bytes@),
        bytes@.len() == 0 ==> (r matches Err(TranscodeError::Engine(m)) && m@
            == "engine returned empty output"@),
{
    if bytes.len() == 0 {
        Err(TranscodeError::Engine(String::from_str("engine returned empty output")))
    } else {
        Ok(bytes)
    }
}

/// A browser engine's failure: a cancellation when the task was being
/// cancelled, else the engine's message.
pub fn engine_error(cancelled: bool, message: String) -> (r: TranscodeError)
    ensures
        cancelled ==> r == TranscodeError::Cancelled,
        !cancelled ==> (r matches TranscodeError::Engine(m) && m@ == message@),
{
    if cancelled {
        TranscodeError::Cancelled
    } else {
        TranscodeError::Engine(message)
    }
}

/// The desktop never runs a browser engine, and runs the ffmpeg child
/// process only when one with libvpx-vp9 was found; an in-process setting
/// is always kept.
pub proof fn desktop_runs_only_available_engines(setting: Engine, sidecar_vp9_available: bool)
    ensures
        spec_resolve_engine(setting, sidecar_vp9_available) != Engine::Webcodecs,
        spec_resolve_engine(setting, sidecar_vp9_available) == Engine::Sidecar ==> sidecar_vp9_available,
        setting == Engine::Inprocess ==> spec_resolve_engine(setting, sidecar_vp9_available) == Engine::Inprocess,
{
}

/// Videos become webm stickers and images png ones: every output name ends
/// in `.webm` for a video and `.png` for an image, whatever the input's
/// name and the timestamp; the input's stem appears only when asked for.
pub proof fn output_extension_follows_media_type(
    t: MediaType,
    stem: Option<Seq<char>>,
    keep_input_name: bool,
    timestamp: Seq<char>,
    seq_no: u64,
)
    ensures
        ({
            let n = spec_output_name(Some(t), stem, keep_input_name, timestamp, seq_no)->Ok_0;
            let ext = spec_output_ext(t);
            &&& spec_output_name(Some(t), stem, keep_input_name, timestamp, seq_no) is Ok
            &&& n.len() > ext.len()
            &&& n.subrange(n.len() - ext.len() - 1, n.len() as int) == seq!['.'] + ext
            &&& !keep_input_name ==> n.subrange(0, timestamp.len() as int) == timestamp
        }),
{
    let n = spec_output_name(Some(t), stem, keep_input_name, timestamp, seq_no)->Ok_0;
    let ext = spec_output_ext(t);
    let prefix = spec_name_prefix(stem, keep_input_name) + timestamp + seq!['-'] + dec(seq_no as nat);
    assert(n == prefix + seq!['.'] + ext);
    assert(n.subrange(n.len() - ext.len() - 1, n.len() as int) =~= seq!['.'] + ext);
    if !keep_input_name {
        assert(spec_name_prefix(stem, keep_input_name) =~= seq![]);
        assert(n.subrange(0, timestamp.len() as int) =~= timestamp);
    }
}

proof fn lemma_dec_digits(n: nat)
    ensures
        digits_value(dec(n)) == n,
        forall|i: int| 0 <= i < dec(n).len() ==> is_digit(#[trigger] dec(n)[i]),
    decreases n,
{
    let k = (n % 10) as int;
    assert(digit_value(digit_char(k)) == k);
    assert(is_digit(digit_char(k)));
    if n < 10 {
        let d = dec(n);
        assert(d =~= seq![digit_char(k)]);
        assert(d.drop_last() =~= Seq::<char>::empty());
        assert(digits_value(d.drop_last()) == 0);
        assert(d.last() == digit_char(k));
        assert(k == n);
    } else {
        lemma_dec_digits(n / 10);
        let d = dec(n);
        assert(d == dec(n / 10).push(digit_char(k)));
        assert(d.drop_last() =~= dec(n / 10));
        assert(d.last() == digit_char(k));
        assert(digits_value(d) == digits_value(dec(n / 10)) * 10 + k);
        assert((n / 10) * 10 + n % 10 == n) by (nonlinear_arith);
        assert forall|i: int| 0 <= i < d.len() implies is_digit(#[trigger] d[i]) by {
            if i < d.len() - 1 {
                assert(d[i] == dec(n / 10)[i]);
            }
        }
    }
}

/// Splitting at the last `c`: where neither tail holds `c`, equal wholes
/// have equal tails and equal heads.
proof fn lemma_split_at_last(x1: Seq<char>, y1: Seq<char>, x2: Seq<char>, y2: Seq<char>, c: char)
    requires
        x1 + seq![c] + y1 == x2 + seq![c] + y2,
        forall|i: int| 0 <= i < y1.len() ==> #[trigger] y1[i] != c,
        forall|i: int| 0 <= i < y2.len() ==> #[trigger] y2[i] != c,
    ensures
        y1 == y2,
        x1 == x2,
{
    let w = x1 + seq![c] + y1;
    let w2 = x2 + seq![c] + y2;
    assert(w.len() == x1.len() + 1 + y1.len());
    assert(w2.len() == x2.len() + 1 + y2.len());
    if y1.len() < y2.len() {
        let k = x1.len() as int;
        assert(w[k] == c);
        let j = k - x2.len() - 1;
        assert(0 <= j < y2.len());
        assert(w2[k] == y2[j]);
        assert(false);
    } else if y2.len() < y1.len() {
        let k = x2.len() as int;
        assert(w2[k] == c);
        let j = k - x1.len() - 1;
        assert(0 <= j < y1.len());
        assert(w[k] == y1[j]);
        assert(false);
    }
    assert(x1.len() == x2.len());
    assert(y1 =~= w.subrange(x1.len() as int + 1, w.len() as int));
    assert(y2 =~= w2.subrange(x2.len() as int + 1, w2.len() as int));
    assert(x1 =~= w.subrange(0, x1.len() as int));
    assert(x2 =~= w2.subrange(0, x2.len() as int));
}

/// Two output names with different sequence numbers differ, whatever the
/// media types, stems, timestamps and the keep-name setting: the number
/// stands between the name's last `-` and its last `.`. So within one
/// process, where each name takes the next number, no two outputs share a
/// path.
pub proof fn output_names_differ_by_sequence(
    t1: MediaType,
    stem1: Option<Seq<char>>,
    keep1: bool,
    ts1: Seq<char>,
    seq1: u64,
    t2: MediaType,
    stem2: Option<Seq<char>>,
    keep2: bool,
    ts2: Seq<char>,
    seq2: u64,
)
    requires
        seq1 != seq2,
    ensures
        spec_output_name(Some(t1), stem1, keep1, ts1, seq1) != spec_output_name(
            Some(t2),
            stem2,
            keep2,
            ts2,
            seq2,
        ),
{
    let d1 = dec(seq1 as nat);
    let d2 = dec(seq2 as nat);
    let e1 = spec_output_ext(t1);
    let e2 = spec_output_ext(t2);
    let a1 = spec_name_prefix(stem1, keep1) + ts1;
    let a2 = spec_name_prefix(stem2, keep2) + ts2;
    let n1 = a1 + seq!['-'] + d1 + seq!['.'] + e1;
    let n2 = a2 + seq!['-'] + d2 + seq!['.'] + e2;
    if n1 == n2 {
        lemma_dec_digits(seq1 as nat);
        lemma_dec_digits(seq2 as nat);
        reveal_strlit("webm");
        reveal_strlit("png");
        assert(forall|i: int| 0 <= i < e1.len() ==> #[trigger] e1[i] != '.');
        assert(forall|i: int| 0 <= i < e2.len() ==> #[trigger] e2[i] != '.');
        lemma_split_at_last(a1 + seq!['-'] + d1, e1, a2 + seq!['-'] + d2, e2, '.');
        assert(forall|i: int| 0 <= i < d1.len() ==> #[trigger] d1[i] != '-' && is_digit(d1[i]));
        assert(forall|i: int| 0 <= i < d2.len() ==> #[trigger] d2[i] != '-' && is_digit(d2[i]));
        lemma_split_at_last(a1, d1, a2, d2, '-');
        assert(false);
    }
}

/// Names given from one counter never repeat: a number taken earlier is
/// below the counter, so the name the counter gives next differs from the
/// earlier one, whatever the media types, stems, settings and timestamps.
pub proof fn names_from_one_counter_differ(
    earlier: u64,
    counter: OutputSequence,
    t1: MediaType,
    stem1: Option<Seq<char>>,
    keep1: bool,
    ts1: Seq<char>,
    t2: MediaType,
    stem2: Option<Seq<char>>,
    keep2: bool,
    ts2: Seq<char>,
)
    requires
        earlier < counter.spec_next(),
    ensures
        spec_output_name(Some(t1), stem1, keep1, ts1, earlier) != spec_output_name(
            Some(t2),
            stem2,
            keep2,
            ts2,
            counter.spec_next(),
        ),
{
    output_names_differ_by_sequence(t1, stem1, keep1, ts1, earlier, t2, stem2, keep2, ts2, counter.spec_next());
}

/// Image inputs become png stickers and video inputs webm ones, whatever
/// the image or video format: the extension is `png` for every image type
/// and `webm` for every video type, and every output name ends in `.png`
/// or `.webm` accordingly.
pub proof fn sticker_format_follows_image_or_video(
    i: ImageType,
    v: VideoType,
    stem: Option<Seq<char>>,
    keep_input_name: bool,
    timestamp: Seq<char>,
    seq_no: u64,
)
    ensures
        spec_output_ext(MediaType::Image(i)) == "png"@,
        spec_output_ext(MediaType::Video(v)) == "webm"@,
        spec_output_name(Some(MediaType::Image(i)), stem, keep_input_name, timestamp, seq_no) matches Ok(
            n,
        ) && n.len() >= 4 && n.subrange(n.len() - 4, n.len() as int) == ".png"@,
        spec_output_name(Some(MediaType::Video(v)), stem, keep_input_name, timestamp, seq_no) matches Ok(
            n,
        ) && n.len() >= 5 && n.subrange(n.len() - 5, n.len() as int) == ".webm"@,
{
    reveal_strlit("png");
    reveal_strlit("webm");
    reveal_strlit(".png");
    reveal_strlit(".webm");
    output_extension_follows_media_type(MediaType::Image(i), stem, keep_input_name, timestamp, seq_no);
    output_extension_follows_media_type(MediaType::Video(v), stem, keep_input_name, timestamp, seq_no);
    assert(seq!['.'] + "png"@ =~= ".png"@);
    assert(seq!['.'] + "webm"@ =~= ".webm"@);
}

/// How an output name is put together: with the input name kept, it
/// starts with the input's stem cut to its first 64 characters and a `-`,
/// then the timestamp; otherwise (or with no stem) it starts with the
/// timestamp; it always ends with `-`, the sequence number in decimal, `.`
/// and the extension.
pub proof fn name_parts_follow_the_setting(
    t: MediaType,
    stem: Option<Seq<char>>,
    keep_input_name: bool,
    timestamp: Seq<char>,
    seq_no: u64,
)
    ensures
        ({
            let n = spec_output_name(Some(t), stem, keep_input_name, timestamp, seq_no)->Ok_0;
            let tail = seq!['-'] + dec(seq_no as nat) + seq!['.'] + spec_output_ext(t);
            &&& spec_output_name(Some(t), stem, keep_input_name, timestamp, seq_no) is Ok
            &&& n.len() >= tail.len()
            &&& n.subrange(n.len() - tail.len(), n.len() as int) == tail
            &&& (keep_input_name && stem is Some) ==> {
                let s = stem->0;
                let k = if s.len() <= 64 {
                    s.len() as int
                } else {
                    64
                };
                &&& n.len() >= k + 1 + timestamp.len()
                &&& n.subrange(0, k) == s.subrange(0, k)
                &&& n[k] == '-'
                &&& n.subrange(k + 1, k + 1 + timestamp.len()) == timestamp
            }
            &&& (!keep_input_name || stem is None) ==> n.len() >= timestamp.len() && n.subrange(
                0,
                timestamp.len() as int,
            ) == timestamp
        }),
{
    let n = spec_output_name(Some(t), stem, keep_input_name, timestamp, seq_no)->Ok_0;
    let tail = seq!['-'] + dec(seq_no as nat) + seq!['.'] + spec_output_ext(t);
    let pre = spec_name_prefix(stem, keep_input_name);
    assert(n =~= pre + timestamp + tail);
    assert(n.subrange(n.len() - tail.len(), n.len() as int) =~= tail);
    if keep_input_name && stem is Some {
        let s = stem->0;
        let k = if s.len() <= 64 {
            s.len() as int
        } else {
            64
        };
        assert(pre =~= s.subrange(0, k).push('-'));
        assert(n.subrange(0, k) =~= s.subrange(0, k));
        assert(n[k] == pre[k]);
        assert(n.subrange(k + 1, k + 1 + timestamp.len()) =~= timestamp);
    } else {
        assert(pre =~= seq![]);
        assert(n.subrange(0, timestamp.len() as int) =~= timestamp);
    }
}

} // verus!
