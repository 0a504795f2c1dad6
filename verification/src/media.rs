//! Media sources and their classification by file extension.

use crate::paths::{
    extension_bounds, file_name, file_name_bounds, lower, lowered, path_extension, path_stem,
    stem_end,
};
use crate::text::{
    ascii_lower, chars_of, eq_ignore_case, eq_ignore_case_at, chars_eq, last_index_of, lemma_last_index_of,
    rfind_char, string_of,
};
use vstd::prelude::*;

verus! {

/// Where a task's input comes from: a file on disk (desktop), or bytes the
/// browser already read plus the original file name (web).
#[derive(Debug, Clone, PartialEq)]
pub enum Source {
    Path(String),
    Bytes { data: Vec<u8>, name: String },
}

#[derive(Debug, Clone, Copy, PartialEq, Eq, Structural)]
pub enum MediaType {
    Video(VideoType),
    Image(ImageType),
}

#[derive(Debug, Clone, Copy, PartialEq, Eq, Structural)]
pub enum VideoType {
    Mp4,
    Gif,
    Apng,
    /// Animated webp: only the desktop probe turns an `Image(Webp)` into this.
    AnimatedWebP,
}

#[derive(Debug, Clone, Copy, PartialEq, Eq, Structural)]
pub enum ImageType {
    Jpg,
    Png,
    Webp,
}

impl VideoType {
    pub open spec fn spec_pix_fmt(self) -> Seq<char> {
        match self {
            VideoType::Mp4 => "yuv420p10"@,
            _ => "yuva420p"@,
        }
    }

    /// Output pixel format (every engine reads it from here): 10-bit for
    /// mp4, alpha-capable for the animated formats.
    pub fn pix_fmt(&self) -> (r: &'static str)
        ensures
            r@ == self.spec_pix_fmt(),
    {
        match self {
            VideoType::Mp4 => "yuv420p10",
            VideoType::Gif | VideoType::Apng | VideoType::AnimatedWebP => "yuva420p",
        }
    }
}

/// The media type a file extension names (ASCII case-insensitive).
pub open spec fn type_for_ext(ext: Option<Seq<char>>) -> Option<MediaType> {
    match ext {
        None => None,
        Some(e) => if eq_ignore_case(e, "mp4"@) {
            Some(MediaType::Video(VideoType::Mp4))
        } else if eq_ignore_case(e, "gif"@) {
            Some(MediaType::Video(VideoType::Gif))
        } else if eq_ignore_case(e, "jpg"@) || eq_ignore_case(e, "jpeg"@) {
            Some(MediaType::Image(ImageType::Jpg))
        } else if eq_ignore_case(e, "png"@) {
            Some(MediaType::Image(ImageType::Png))
        } else if eq_ignore_case(e, "webp"@) {
            Some(MediaType::Image(ImageType::Webp))
        } else if eq_ignore_case(e, "apng"@) {
            Some(MediaType::Video(VideoType::Apng))
        } else {
            None
        },
    }
}

proof fn lemma_ascii_lower_twice(c: char)
    ensures
        ascii_lower(ascii_lower(c)) == ascii_lower(c),
{
}

proof fn lemma_eq_ignore_case_lowered(e: Seq<char>, lit: Seq<char>)
    ensures
        eq_ignore_case(e, lit) == eq_ignore_case(lower(e), lit),
        eq_ignore_case(e, lit) ==> lower(e) == lit,
{
    assert forall|i: int| 0 <= i < e.len() implies #[trigger] ascii_lower(lower(e)[i]) == ascii_lower(
        e[i],
    ) by {
        lemma_ascii_lower_twice(e[i]);
    }
    if eq_ignore_case(lower(e), lit) {
        assert forall|i: int| 0 <= i < e.len() implies #[trigger] ascii_lower(e[i]) == lit[i] by {
            assert(ascii_lower(lower(e)[i]) == lit[i]);
        }
    }
    if eq_ignore_case(e, lit) {
        assert(lower(e) =~= lit);
    }
}

/// An extension names its media type in any ASCII case, and only the
/// listed extensions name one: upper- and mixed-
/// case extensions (`JPG`, `Mp4`) classify as their lower-case forms, and
/// those are `mp4` and `gif` (videos), `jpg` and `jpeg` (jpeg images), `png`,
/// `webp` (images) and `apng` (an animation, handled as video).
pub proof fn extension_case_is_ignored(e: Seq<char>)
    ensures
        type_for_ext(Some(e)) == type_for_ext(Some(lower(e))),
        type_for_ext(Some("mp4"@)) == Some(MediaType::Video(VideoType::Mp4)),
        type_for_ext(Some("gif"@)) == Some(MediaType::Video(VideoType::Gif)),
        type_for_ext(Some("jpg"@)) == Some(MediaType::Image(ImageType::Jpg)),
        type_for_ext(Some("jpeg"@)) == Some(MediaType::Image(ImageType::Jpg)),
        type_for_ext(Some("png"@)) == Some(MediaType::Image(ImageType::Png)),
        type_for_ext(Some("webp"@)) == Some(MediaType::Image(ImageType::Webp)),
        type_for_ext(Some("apng"@)) == Some(MediaType::Video(VideoType::Apng)),
        type_for_ext(Some(e)) matches Some(MediaType::Video(_)) ==> lower(e) == "mp4"@ || lower(e)
            == "gif"@ || lower(e) == "apng"@,
        type_for_ext(Some(e)) matches Some(MediaType::Image(_)) ==> lower(e) == "jpg"@ || lower(e)
            == "jpeg"@ || lower(e) == "png"@ || lower(e) == "webp"@,
{
    lemma_eq_ignore_case_lowered(e, "mp4"@);
    lemma_eq_ignore_case_lowered(e, "gif"@);
    lemma_eq_ignore_case_lowered(e, "jpg"@);
    lemma_eq_ignore_case_lowered(e, "jpeg"@);
    lemma_eq_ignore_case_lowered(e, "png"@);
    lemma_eq_ignore_case_lowered(e, "webp"@);
    lemma_eq_ignore_case_lowered(e, "apng"@);
    reveal_strlit("mp4");
    reveal_strlit("gif");
    reveal_strlit("jpg");
    reveal_strlit("jpeg");
    reveal_strlit("png");
    reveal_strlit("webp");
    reveal_strlit("apng");
    assert(eq_ignore_case("mp4"@, "mp4"@));
    assert(!eq_ignore_case("gif"@, "mp4"@)) by {
        assert(ascii_lower("gif"@[0]) != "mp4"@[0]);
    }
    assert(eq_ignore_case("gif"@, "gif"@));
    assert(!eq_ignore_case("jpg"@, "mp4"@)) by {
        assert(ascii_lower("jpg"@[0]) != "mp4"@[0]);
    }
    assert(!eq_ignore_case("jpg"@, "gif"@)) by {
        assert(ascii_lower("jpg"@[0]) != "gif"@[0]);
    }
    assert(eq_ignore_case("jpg"@, "jpg"@));
    assert(eq_ignore_case("jpeg"@, "jpeg"@));
    assert(!eq_ignore_case("png"@, "mp4"@)) by {
        assert(ascii_lower("png"@[0]) != "mp4"@[0]);
    }
    assert(!eq_ignore_case("png"@, "gif"@)) by {
        assert(ascii_lower("png"@[0]) != "gif"@[0]);
    }
    assert(!eq_ignore_case("png"@, "jpg"@)) by {
        assert(ascii_lower("png"@[0]) != "jpg"@[0]);
    }
    assert(eq_ignore_case("png"@, "png"@));
    assert(!eq_ignore_case("webp"@, "jpeg"@)) by {
        assert(ascii_lower("webp"@[0]) != "jpeg"@[0]);
    }
    assert(eq_ignore_case("webp"@, "webp"@));
    assert(!eq_ignore_case("apng"@, "jpeg"@)) by {
        assert(ascii_lower("apng"@[0]) != "jpeg"@[0]);
    }
    assert(!eq_ignore_case("apng"@, "webp"@)) by {
        assert(ascii_lower("apng"@[0]) != "webp"@[0]);
    }
    assert(eq_ignore_case("apng"@, "apng"@));
}

/// What follows the last dot of an uploaded file's name (none without a dot).
pub open spec fn name_suffix(name: Seq<char>) -> Option<Seq<char>> {
    match last_index_of(name, '.', 0, name.len() as int) {
        Some(i) => Some(name.subrange(i + 1, name.len() as int)),
        None => None,
    }
}

/// What precedes the last dot of an uploaded file's name (none without a dot).
pub open spec fn name_prefix(name: Seq<char>) -> Option<Seq<char>> {
    match last_index_of(name, '.', 0, name.len() as int) {
        Some(i) => Some(name.subrange(0, i)),
        None => None,
    }
}

/// Media type of `cs[a..b]` read as an extension.
fn type_of_ext_chars(cs: &Vec<char>, a: usize, b: usize) -> (r: Option<MediaType>)
    requires
        a <= b <= cs@.len(),
    ensures
        r == type_for_ext(Some(cs@.subrange(a as int, b as int))),
{
    if eq_ignore_case_at(cs, a, b, "mp4") {
        Some(MediaType::Video(VideoType::Mp4))
    } else if eq_ignore_case_at(cs, a, b, "gif") {
        Some(MediaType::Video(VideoType::Gif))
    } else if eq_ignore_case_at(cs, a, b, "jpg") || eq_ignore_case_at(cs, a, b, "jpeg") {
        Some(MediaType::Image(ImageType::Jpg))
    } else if eq_ignore_case_at(cs, a, b, "png") {
        Some(MediaType::Image(ImageType::Png))
    } else if eq_ignore_case_at(cs, a, b, "webp") {
        Some(MediaType::Image(ImageType::Webp))
    } else if eq_ignore_case_at(cs, a, b, "apng") {
        Some(MediaType::Video(VideoType::Apng))
    } else {
        None
    }
}

impl Source {
    /// The extension the media type is read from.
    pub open spec fn spec_ext(&self) -> Option<Seq<char>> {
        match self {
            Source::Path(p) => path_extension(p@),
            Source::Bytes { name, .. } => name_suffix(name@),
        }
    }

    /// Media type from the file extension alone (the desktop probe may
    /// later correct it).
    pub fn media_type(&self) -> (r: Option<MediaType>)
        ensures
            r == type_for_ext(self.spec_ext()),
    {
        match self {
            Source::Path(p) => {
                let cs = chars_of(p.as_str());
                assert(cs@ == p@);
                assert(cs.len() == cs@.len());
                match file_name_bounds(&cs, cs.len(), true) {
                    None => {
                        assert(file_name(p@) is None);
                        None
                    },
                    Some((a, b)) => {
                        assert(file_name(p@) == Some(cs@.subrange(a as int, b as int)));
                        match extension_bounds(&cs, a, b) {
                            Some(x) => {
                                assert(path_extension(p@) == Some(cs@.subrange(x as int, b as int)));
                                type_of_ext_chars(&cs, x, b)
                            },
                            None => {
                                assert(path_extension(p@) is None);
                                None
                            },
                        }
                    },
                }
            },
            Source::Bytes { name, .. } => {
                let cs = chars_of(name.as_str());
                proof {
                    lemma_last_index_of(cs@, '.', 0, cs@.len() as int);
                }
                match rfind_char(&cs, '.', 0, cs.len()) {
                    Some(i) => type_of_ext_chars(&cs, i + 1, cs.len()),
                    None => None,
                }
            },
        }
    }

    pub open spec fn spec_display_name(&self) -> Seq<char> {
        match self {
            Source::Path(p) => p@,
            Source::Bytes { name, .. } => name@,
        }
    }

    /// Shown in the task list: the full path, or the uploaded file's name.
    pub fn display_name(&self) -> (r: String)
        ensures
            r@ == self.spec_display_name(),
    {
        match self {
            Source::Path(p) => p.clone(),
            Source::Bytes { name, .. } => name.clone(),
        }
    }

    pub open spec fn spec_file_stem(&self) -> Option<Seq<char>> {
        let stem = match self {
            Source::Path(p) => path_stem(p@),
            Source::Bytes { name, .. } => name_prefix(name@),
        };
        match stem {
            Some(s) => if s.len() > 0 {
                Some(s)
            } else {
                None
            },
            None => None,
        }
    }

    /// The input file name without its extension; none when missing or empty.
    pub fn file_stem(&self) -> (r: Option<String>)
        ensures
            match self.spec_file_stem() {
                Some(s) => r matches Some(x) && x@ == s,
                None => r is None,
            },
    {
        match self {
            Source::Path(p) => {
                let cs = chars_of(p.as_str());
                assert(cs@ == p@);
                assert(cs.len() == cs@.len());
                match file_name_bounds(&cs, cs.len(), true) {
                    None => None,
                    Some((a, b)) => {
                        let e = stem_end(&cs, a, b);
                        if e == a {
                            None
                        } else {
                            Some(string_of(&cs, a, e))
                        }
                    },
                }
            },
            Source::Bytes { name, .. } => {
                let cs = chars_of(name.as_str());
                proof {
                    lemma_last_index_of(cs@, '.', 0, cs@.len() as int);
                }
                match rfind_char(&cs, '.', 0, cs.len()) {
                    Some(i) => if i == 0 {
                        None
                    } else {
                        Some(string_of(&cs, 0, i))
                    },
                    None => None,
                }
            },
        }
    }

    /// The file path (desktop sources only).
    pub fn path(&self) -> (r: Option<&String>)
        ensures
            match self {
                Source::Path(p) => r == Some(p),
                Source::Bytes { .. } => r is None,
            },
    {
        match self {
            Source::Path(p) => Some(p),
            Source::Bytes { .. } => None,
        }
    }

    /// The input bytes (web sources only).
    pub fn bytes(&self) -> (r: Option<&[u8]>)
        ensures
            match self {
                Source::Bytes { data, .. } => r matches Some(b) && b@ == data@,
                Source::Path(_) => r is None,
            },
    {
        match self {
            Source::Bytes { data, .. } => Some(data.as_slice()),
            Source::Path(_) => None,
        }
    }

    /// Whether this is an in-memory (web) source.
    pub fn is_bytes(&self) -> (r: bool)
        ensures
            r == (self is Bytes),
    {
        match self {
            Source::Bytes { .. } => true,
            Source::Path(_) => false,
        }
    }
}


/// Extensions accepted for input, as the file picker and the drop zone
/// filter them.
pub const SUPPORTED: [&'static str; 7] = ["mp4", "gif", "jpg", "jpeg", "png", "webp", "apng"];

/// The supported extensions, in order.
pub open spec fn spec_supported() -> Seq<Seq<char>> {
    seq!["mp4"@, "gif"@, "jpg"@, "jpeg"@, "png"@, "webp"@, "apng"@]
}

/// Whether an (already lower-cased) extension is one we accept.
pub fn is_supported(ext: &str) -> (r: bool)
    ensures
        r == spec_supported().contains(ext@),
{
    let cs = chars_of(ext);
    let n = cs.len();
    let r = chars_eq(&cs, 0, n, "mp4") || chars_eq(&cs, 0, n, "gif") || chars_eq(&cs, 0, n, "jpg")
        || chars_eq(&cs, 0, n, "jpeg") || chars_eq(&cs, 0, n, "png") || chars_eq(&cs, 0, n, "webp")
        || chars_eq(&cs, 0, n, "apng");
    assert(cs@.subrange(0, n as int) =~= ext@);
    proof {
        let sup = spec_supported();
        if r {
            if ext@ == "mp4"@ { assert(sup[0] == ext@); }
            if ext@ == "gif"@ { assert(sup[1] == ext@); }
            if ext@ == "jpg"@ { assert(sup[2] == ext@); }
            if ext@ == "jpeg"@ { assert(sup[3] == ext@); }
            if ext@ == "png"@ { assert(sup[4] == ext@); }
            if ext@ == "webp"@ { assert(sup[5] == ext@); }
            if ext@ == "apng"@ { assert(sup[6] == ext@); }
        } else {
            assert forall|i: int| 0 <= i < sup.len() implies sup[i] != ext@ by {}
        }
    }
    r
}

/// Joins `exts` as a file-picker `accept` value: `.a,.b,...`.
pub open spec fn accept_list(exts: Seq<Seq<char>>) -> Seq<char>
    decreases exts.len(),
{
    if exts.len() == 0 {
        seq![]
    } else if exts.len() == 1 {
        seq!['.'] + exts[0]
    } else {
        accept_list(exts.drop_last()) + seq![',', '.'] + exts.last()
    }
}

/// The file input's `accept` attribute, derived from [`SUPPORTED`].
pub fn file_accept() -> (r: String)
    ensures
        r@ == accept_list(spec_supported()),
{
    let exts = SUPPORTED;
    let ghost sup = spec_supported();
    assert(exts@.len() == 7);
    let mut r = String::new();
    let mut i: usize = 0;
    while i < 7
        invariant
            i <= 7,
            exts@.len() == 7,
            sup == spec_supported(),
            forall|k: int| 0 <= k < 7 ==> (#[trigger] exts@[k])@ == sup[k],
            r@ == accept_list(sup.subrange(0, i as int)),
        decreases 7 - i,
    {
        if i > 0 {
            r.push(',');
        }
        r.push('.');
        let e = exts[i];
        let ecs = chars_of(e);
        crate::text::push_all(&mut r, &ecs);
        proof {
            let pre = sup.subrange(0, i as int);
            let post = sup.subrange(0, i + 1);
            assert(post.drop_last() =~= pre);
            assert(post.last() == sup[i as int]);
            if i == 0 {
                assert(r@ =~= seq!['.'] + sup[0]);
            } else {
                assert(r@ =~= accept_list(pre) + seq![',', '.'] + sup[i as int]);
            }
        }
        i = i + 1;
    }
    assert(sup.subrange(0, 7) =~= sup);
    r
}

/// MIME type for an (already lower-cased) extension.
pub open spec fn spec_mime_for_ext(ext: Seq<char>) -> Option<Seq<char>> {
    if ext == "webm"@ {
        Some("video/webm"@)
    } else if ext == "mp4"@ {
        Some("video/mp4"@)
    } else if ext == "png"@ || ext == "apng"@ {
        Some("image/png"@)
    } else if ext == "gif"@ {
        Some("image/gif"@)
    } else if ext == "jpg"@ || ext == "jpeg"@ {
        Some("image/jpeg"@)
    } else if ext == "webp"@ {
        Some("image/webp"@)
    } else {
        None
    }
}

/// MIME type for an (already lower-cased) extension.
pub fn mime_for_ext(ext: &str) -> (r: Option<&'static str>)
    ensures
        match spec_mime_for_ext(ext@) {
            Some(m) => r matches Some(x) && x@ == m,
            None => r is None,
        },
{
    let cs = chars_of(ext);
    let n = cs.len();
    assert(cs@.subrange(0, n as int) =~= ext@);
    if chars_eq(&cs, 0, n, "webm") {
        Some("video/webm")
    } else if chars_eq(&cs, 0, n, "mp4") {
        Some("video/mp4")
    } else if chars_eq(&cs, 0, n, "png") || chars_eq(&cs, 0, n, "apng") {
        Some("image/png")
    } else if chars_eq(&cs, 0, n, "gif") {
        Some("image/gif")
    } else if chars_eq(&cs, 0, n, "jpg") || chars_eq(&cs, 0, n, "jpeg") {
        Some("image/jpeg")
    } else if chars_eq(&cs, 0, n, "webp") {
        Some("image/webp")
    } else {
        None
    }
}

/// The lower-cased extension of a path (`Path::extension`), or empty.
pub open spec fn spec_path_ext_lower(path: Seq<char>) -> Seq<char> {
    match path_extension(path) {
        Some(e) => lower(e),
        None => seq![],
    }
}

/// The lower-cased extension of a path, or the empty string.
pub fn path_ext_str(path: &str) -> (r: String)
    ensures
        r@ == spec_path_ext_lower(path@),
{
    let cs = chars_of(path);
    assert(cs.len() == cs@.len());
    match file_name_bounds(&cs, cs.len(), true) {
        None => {
            assert(file_name(path@) is None);
            String::new()
        },
        Some((a, b)) => {
            assert(file_name(path@) == Some(cs@.subrange(a as int, b as int)));
            match extension_bounds(&cs, a, b) {
                Some(x) => lowered(&cs, x, b),
                None => String::new(),
            }
        },
    }
}

/// MIME type of a path by its extension (ASCII case-insensitive).
pub open spec fn spec_mime_for(path: Seq<char>) -> Option<Seq<char>> {
    match path_extension(path) {
        Some(e) => spec_mime_for_ext(lower(e)),
        None => None,
    }
}

/// MIME type of a path by its extension (ASCII case-insensitive).
pub fn mime_for(path: &str) -> (r: Option<&'static str>)
    ensures
        match spec_mime_for(path@) {
            Some(m) => r matches Some(x) && x@ == m,
            None => r is None,
        },
{
    let cs = chars_of(path);
    assert(cs.len() == cs@.len());
    match file_name_bounds(&cs, cs.len(), true) {
        None => {
            assert(file_name(path@) is None);
            None
        },
        Some((a, b)) => {
            assert(file_name(path@) == Some(cs@.subrange(a as int, b as int)));
            match extension_bounds(&cs, a, b) {
                Some(x) => {
                    let e = lowered(&cs, x, b);
                    mime_for_ext(e.as_str())
                },
                None => None,
            }
        },
    }
}

/// MIME type of a transcoded output (`.png` or `.webm`), `video/webm` when
/// the extension is unknown.
pub fn output_mime(path: &str) -> (r: &'static str)
    ensures
        match spec_mime_for_ext(spec_path_ext_lower(path@)) {
            Some(m) => r@ == m,
            None => r@ == "video/webm"@,
        },
{
    let e = path_ext_str(path);
    match mime_for_ext(e.as_str()) {
        Some(m) => m,
        None => "video/webm",
    }
}

/// Whether an input preview needs a video element: only mp4 does (gif and
/// apng are animated images to the browser).
pub fn input_is_video(path: &str) -> (r: bool)
    ensures
        r == (spec_path_ext_lower(path@) == "mp4"@),
{
    let e = path_ext_str(path);
    let cs = chars_of(e.as_str());
    let n = cs.len();
    assert(cs@.subrange(0, n as int) =~= e@);
    chars_eq(&cs, 0, n, "mp4")
}

/// MIME type of an uploaded input by its name, `application/octet-stream`
/// when the extension is unknown.
pub fn input_mime(name: &str) -> (r: &'static str)
    ensures
        match spec_mime_for_ext(spec_path_ext_lower(name@)) {
            Some(m) => r@ == m,
            None => r@ == "application/octet-stream"@,
        },
{
    let e = path_ext_str(name);
    match mime_for_ext(e.as_str()) {
        Some(m) => m,
        None => "application/octet-stream",
    }
}

/// A dropped or picked file is queued when its extension (any case) is supported.
pub open spec fn spec_path_supported(path: Seq<char>) -> bool {
    spec_supported().contains(spec_path_ext_lower(path))
}

/// Whether a file path has a supported extension.
pub fn path_supported(path: &str) -> (r: bool)
    ensures
        r == spec_path_supported(path@),
{
    let e = path_ext_str(path);
    is_supported(e.as_str())
}

/// An uploaded file is queued when what follows its last dot (any case)
/// is a supported extension.
pub open spec fn spec_name_supported(name: Seq<char>) -> bool {
    match name_suffix(name) {
        Some(e) => spec_supported().contains(lower(e)),
        None => false,
    }
}

/// Whether an uploaded file's name has a supported extension.
pub fn name_supported(name: &str) -> (r: bool)
    ensures
        r == spec_name_supported(name@),
{
    let cs = chars_of(name);
    proof {
        lemma_last_index_of(cs@, '.', 0, cs@.len() as int);
    }
    match rfind_char(&cs, '.', 0, cs.len()) {
        Some(i) => {
            let e = lowered(&cs, i + 1, cs.len());
            is_supported(e.as_str())
        },
        None => false,
    }
}

/// The paths that pass [`spec_path_supported`], in order.
pub open spec fn supported_paths(s: Seq<String>) -> Seq<String>
    decreases s.len(),
{
    if s.len() == 0 {
        s
    } else if spec_path_supported(s.last()@) {
        supported_paths(s.drop_last()).push(s.last())
    } else {
        supported_paths(s.drop_last())
    }
}

/// The paths that fail [`spec_path_supported`], in order.
pub open spec fn unsupported_paths(s: Seq<String>) -> Seq<String>
    decreases s.len(),
{
    if s.len() == 0 {
        s
    } else if spec_path_supported(s.last()@) {
        unsupported_paths(s.drop_last())
    } else {
        unsupported_paths(s.drop_last()).push(s.last())
    }
}

/// Splits dropped or picked files into those queued and those skipped,
/// each in the order given.
pub fn partition_inputs(paths: Vec<String>) -> (r: (Vec<String>, Vec<String>))
    ensures
        r.0@ == supported_paths(paths@),
        r.1@ == unsupported_paths(paths@),
{
    let ghost orig = paths@;
    let mut rest = paths;
    let mut added: Vec<String> = Vec::new();
    let mut skipped: Vec<String> = Vec::new();
    let n = rest.len();
    let mut i: usize = 0;
    while i < n
        invariant
            n == orig.len(),
            i <= n,
            rest@ == orig.subrange(i as int, n as int),
            added@ == supported_paths(orig.subrange(0, i as int)),
            skipped@ == unsupported_paths(orig.subrange(0, i as int)),
        decreases n - i,
    {
        let p = rest.remove(0);
        proof {
            let s1 = orig.subrange(0, i + 1);
            assert(s1.drop_last() =~= orig.subrange(0, i as int));
            assert(s1.last() == orig[i as int]);
        }
        if path_supported(p.as_str()) {
            added.push(p);
        } else {
            skipped.push(p);
        }
        i = i + 1;
        assert(rest@ =~= orig.subrange(i as int, n as int));
    }
    assert(orig.subrange(0, n as int) =~= orig);
    (added, skipped)
}

/// The video stream codec a probe finds, as far as classification cares.
#[derive(Debug, Clone, Copy, PartialEq, Eq, Structural)]
pub enum ProbedCodec {
    Png,
    Mjpeg,
    Webp,
    Gif,
    Apng,
    /// Animated webp.
    WebpAnim,
    /// Any other (video) codec.
    Other,
}

/// The media type after probing, from the type the extension gave and the
/// codec found. The codec wins where they disagree: an image codec in a
/// "video" file makes it that image, and a video codec in an "image" file
/// makes it gif, apng, animated webp or (anything else) an mp4-like video.
/// Where they agree the type stays. `None` when the extension gave no type.
pub open spec fn spec_reclassify(current: Option<MediaType>, codec: ProbedCodec) -> Option<MediaType> {
    match current {
        None => None,
        Some(t) => {
            let image_codec = codec == ProbedCodec::Png || codec == ProbedCodec::Mjpeg || codec
                == ProbedCodec::Webp;
            if image_codec {
                match t {
                    MediaType::Image(_) => Some(t),
                    MediaType::Video(_) => Some(
                        MediaType::Image(
                            if codec == ProbedCodec::Png {
                                ImageType::Png
                            } else if codec == ProbedCodec::Mjpeg {
                                ImageType::Jpg
                            } else {
                                ImageType::Webp
                            },
                        ),
                    ),
                }
            } else {
                match t {
                    MediaType::Video(_) => Some(t),
                    MediaType::Image(_) => Some(
                        MediaType::Video(
                            if codec == ProbedCodec::Gif {
                                VideoType::Gif
                            } else if codec == ProbedCodec::Apng {
                                VideoType::Apng
                            } else if codec == ProbedCodec::WebpAnim {
                                VideoType::AnimatedWebP
                            } else {
                                VideoType::Mp4
                            },
                        ),
                    ),
                }
            }
        },
    }
}

/// The media type after probing (see [`spec_reclassify`]).
pub fn reclassify(current: Option<MediaType>, codec: ProbedCodec) -> (r: Option<MediaType>)
    ensures
        r == spec_reclassify(current, codec),
        r is Some <==> current is Some,
{
    let t = match current {
        None => return None,
        Some(t) => t,
    };
    match codec {
        ProbedCodec::Png | ProbedCodec::Mjpeg | ProbedCodec::Webp => match t {
            MediaType::Image(_) => Some(t),
            MediaType::Video(_) => Some(
                MediaType::Image(
                    match codec {
                        ProbedCodec::Png => ImageType::Png,
                        ProbedCodec::Mjpeg => ImageType::Jpg,
                        _ => ImageType::Webp,
                    },
                ),
            ),
        },
        _ => match t {
            MediaType::Video(_) => Some(t),
            MediaType::Image(_) => Some(
                MediaType::Video(
                    match codec {
                        ProbedCodec::Gif => VideoType::Gif,
                        ProbedCodec::Apng => VideoType::Apng,
                        ProbedCodec::WebpAnim => VideoType::AnimatedWebP,
                        _ => VideoType::Mp4,
                    },
                ),
            ),
        },
    }
}

/// Every dropped or picked file is either queued or reported as skipped,
/// never both and never lost: the queued ones are exactly those with a
/// supported extension.
pub proof fn partition_keeps_every_file(s: Seq<String>)
    ensures
        supported_paths(s).len() + unsupported_paths(s).len() == s.len(),
        forall|i: int| 0 <= i < supported_paths(s).len() ==> spec_path_supported((#[trigger] supported_paths(s)[i])@),
        forall|i: int| 0 <= i < unsupported_paths(s).len() ==> !spec_path_supported((#[trigger] unsupported_paths(s)[i])@),
    decreases s.len(),
{
    if s.len() > 0 {
        partition_keeps_every_file(s.drop_last());
        let a = supported_paths(s.drop_last());
        let b = unsupported_paths(s.drop_last());
        if spec_path_supported(s.last()@) {
            assert forall|i: int| 0 <= i < supported_paths(s).len() implies spec_path_supported((#[trigger] supported_paths(s)[i])@) by {
                if i < a.len() {
                    assert(supported_paths(s)[i] == a[i]);
                }
            }
        } else {
            assert forall|i: int| 0 <= i < unsupported_paths(s).len() implies !spec_path_supported((#[trigger] unsupported_paths(s)[i])@) by {
                if i < b.len() {
                    assert(unsupported_paths(s)[i] == b[i]);
                }
            }
        }
    }
}

/// Probing follows the codec: with a type from the extension, the probed
/// type is an image exactly when the codec is an image codec; and probing
/// a second time changes nothing.
pub proof fn probe_follows_codec(current: MediaType, codec: ProbedCodec)
    ensures
        (spec_reclassify(Some(current), codec)->Some_0 is Image) <==> (codec == ProbedCodec::Png
            || codec == ProbedCodec::Mjpeg || codec == ProbedCodec::Webp),
        spec_reclassify(spec_reclassify(Some(current), codec), codec) == spec_reclassify(Some(current), codec),
{
}

/// Every extension the file picker offers classifies as a media type.
pub proof fn supported_extensions_have_types()
    ensures
        forall|i: int| 0 <= i < spec_supported().len() ==> (#[trigger] type_for_ext(Some(spec_supported()[i]))) is Some,
{
    reveal_strlit("mp4");
    reveal_strlit("gif");
    reveal_strlit("jpg");
    reveal_strlit("jpeg");
    reveal_strlit("png");
    reveal_strlit("webp");
    reveal_strlit("apng");
    assert forall|i: int| 0 <= i < spec_supported().len() implies (#[trigger] type_for_ext(Some(spec_supported()[i]))) is Some by {
        let e = spec_supported()[i];
        if i == 0 {
            assert(eq_ignore_case(e, "mp4"@));
        } else if i == 1 {
            assert(eq_ignore_case(e, "gif"@));
        } else if i == 2 {
            assert(eq_ignore_case(e, "jpg"@));
        } else if i == 3 {
            assert(eq_ignore_case(e, "jpeg"@));
        } else if i == 4 {
            assert(eq_ignore_case(e, "png"@));
        } else if i == 5 {
            assert(eq_ignore_case(e, "webp"@));
        } else {
            assert(eq_ignore_case(e, "apng"@));
        }
    }
}

} // verus!
