//! Choosing the ffmpeg executable that the sidecar engine runs.
//!
//! Candidates are tried in order (the app's own folder, then the working
//! folder, then each `PATH` entry); the first that is a file and whose
//! `-encoders` listing names libvpx-vp9 wins. Finding the candidates,
//! looking at the file system and running ffmpeg are the caller's part;
//! the choice, and reading ffmpeg's answer, are made here.

use crate::steps::{find_in, lemma_find_from_bounds, lemma_find_from_complete, matches_at};
use vstd::prelude::*;
use vstd::string::*;

verus! {

/// The outcome of the sidecar detection.
#[derive(Debug, Clone)]
pub struct SidecarProbe {
    /// The chosen ffmpeg executable; empty when none qualified.
    pub exe: String,
    /// Whether that ffmpeg has the libvpx-vp9 encoder (transcoding needs it).
    pub has_vp9: bool,
}

/// The detection passed over candidate `c`: it is not a file, or its
/// ffmpeg lacks libvpx-vp9.
pub open spec fn passed_over<F: Fn(&String) -> bool, G: Fn(&String) -> bool>(
    is_file: F,
    has_vp9: G,
    c: String,
) -> bool {
    is_file.ensures((&c,), false) || (is_file.ensures((&c,), true) && has_vp9.ensures((&c,), false))
}

/// The detection chose candidate `c`: it is a file with libvpx-vp9.
pub open spec fn chosen<F: Fn(&String) -> bool, G: Fn(&String) -> bool>(
    is_file: F,
    has_vp9: G,
    c: String,
) -> bool {
    is_file.ensures((&c,), true) && has_vp9.ensures((&c,), true)
}

/// What a detection over `candidates` comes to: with the encoder, the
/// executable is the first candidate that is a file with libvpx-vp9, every
/// earlier one passed over; without it, no executable and every candidate
/// passed over.
pub open spec fn detection_outcome<F: Fn(&String) -> bool, G: Fn(&String) -> bool>(
    candidates: Seq<String>,
    is_file: F,
    has_vp9: G,
    r: SidecarProbe,
) -> bool {
    &&& r.has_vp9 ==> exists|k: int|
        0 <= k < candidates.len() && r.exe@ == candidates[k]@ && chosen(
            is_file,
            has_vp9,
            #[trigger] candidates[k],
        ) && forall|j: int| 0 <= j < k ==> passed_over(is_file, has_vp9, #[trigger] candidates[j])
    &&& !r.has_vp9 ==> r.exe@.len() == 0 && forall|j: int|
        0 <= j < candidates.len() ==> passed_over(is_file, has_vp9, #[trigger] candidates[j])
}

/// What [`SidecarProbe::probe`] offers of the cached detection: the
/// detection when it names an executable, else nothing.
pub open spec fn spec_probe(cached: &SidecarProbe) -> Option<&SidecarProbe> {
    if cached.exe@.len() > 0 {
        Some(cached)
    } else {
        None
    }
}

impl SidecarProbe {
    /// The detection's outcome when it found an ffmpeg to run; `cached` is
    /// the one detection made for the process.
    pub fn probe(cached: &SidecarProbe) -> (r: Option<&SidecarProbe>)
        ensures
            r == spec_probe(cached),
    {
        if cached.exe.as_str().is_empty() {
            None
        } else {
            Some(cached)
        }
    }

    /// The first of `candidates` that `is_file` accepts and whose ffmpeg
    /// `has_vp9`; `has_vp9` is asked only of files. With none, the outcome
    /// names no executable and no encoder.
    pub fn select_candidate<F: Fn(&String) -> bool, G: Fn(&String) -> bool>(
        candidates: Vec<String>,
        is_file: F,
        has_vp9: G,
    ) -> (r: SidecarProbe)
        requires
            forall|c: &String| #[trigger] is_file.requires((c,)),
            forall|c: &String| #[trigger] has_vp9.requires((c,)),
        ensures
            detection_outcome(candidates@, is_file, has_vp9, r),
    {
        let mut i: usize = 0;
        while i < candidates.len()
            invariant
                i <= candidates@.len(),
                forall|c: &String| #[trigger] is_file.requires((c,)),
                forall|c: &String| #[trigger] has_vp9.requires((c,)),
                forall|j: int| 0 <= j < i ==> passed_over(is_file, has_vp9, #[trigger] candidates@[j]),
            decreases candidates@.len() - i,
        {
            let c = &candidates[i];
            let file = is_file(c);
            if file {
                let vp9 = has_vp9(c);
                if vp9 {
                    let exe = c.clone();
                    assert(chosen(is_file, has_vp9, candidates@[i as int]));
                    return SidecarProbe { exe, has_vp9: true };
                }
            }
            i = i + 1;
        }
        SidecarProbe { exe: String::new(), has_vp9: false }
    }
}

/// [`SidecarProbe::probe`] offers only an ffmpeg with libvpx-vp9: when the
/// cached outcome of a detection is offered, it has the encoder and its
/// executable is the first candidate that is a file whose ffmpeg lists it;
/// nothing is offered exactly when the outcome names no executable, and an
/// outcome without the encoder has passed over every candidate.
pub proof fn probe_offers_only_vp9<F: Fn(&String) -> bool, G: Fn(&String) -> bool>(
    candidates: Seq<String>,
    is_file: F,
    has_vp9: G,
    cached: SidecarProbe,
)
    requires
        detection_outcome(candidates, is_file, has_vp9, cached),
    ensures
        spec_probe(&cached) matches Some(p) ==> p.has_vp9 && p.exe@.len() > 0 && exists|k: int|
            0 <= k < candidates.len() && p.exe@ == candidates[k]@ && #[trigger] chosen(
                is_file,
                has_vp9,
                candidates[k],
            ),
        spec_probe(&cached) is None <==> cached.exe@.len() == 0,
        !cached.has_vp9 ==> spec_probe(&cached) is None && forall|j: int|
            0 <= j < candidates.len() ==> passed_over(is_file, has_vp9, #[trigger] candidates[j]),
{
}

/// The encoder's name as ffmpeg lists it.
pub open spec fn vp9_name() -> Seq<u8> {
    seq![0x6cu8, 0x69u8, 0x62u8, 0x76u8, 0x70u8, 0x78u8, 0x2du8, 0x76u8, 0x70u8, 0x39u8]
}

/// `pat` occurs somewhere in `data`.
pub open spec fn occurs_in(data: Seq<u8>, pat: Seq<u8>) -> bool {
    exists|i: int| matches_at(data, pat, i)
}

fn occurs(data: &[u8], pat: &[u8]) -> (r: bool)
    ensures
        r == occurs_in(data@, pat@),
{
    let found = find_in(data, pat, 0, data.len());
    proof {
        lemma_find_from_bounds(data@, pat@, 0, data@.len() as int);
        if found is None {
            lemma_find_from_complete(data@, pat@, 0, data@.len() as int);
            assert forall|i: int| !matches_at(data@, pat@, i) by {
                if matches_at(data@, pat@, i) {
                    assert(0 <= i && i + pat@.len() <= data@.len());
                }
            }
        }
    }
    found.is_some()
}

/// Reads the answer of `ffmpeg -hide_banner -encoders`: the process ended
/// successfully and either stream names libvpx-vp9. (The text is searched
/// as bytes: the name is ASCII, so invalid UTF-8 around it cannot hide it.)
pub fn lists_vp9(success: bool, stdout: &[u8], stderr: &[u8]) -> (r: bool)
    ensures
        r == (success && (occurs_in(stdout@, vp9_name()) || occurs_in(stderr@, vp9_name()))),
{
    let name: [u8; 10] = [0x6c, 0x69, 0x62, 0x76, 0x70, 0x78, 0x2d, 0x76, 0x70, 0x39];
    assert(name@ =~= vp9_name());
    success && (occurs(stdout, &name) || occurs(stderr, &name))
}

/// The sidecar entry of the engine list: whether it can be chosen, and the
/// suffix that says why not (no ffmpeg found, or one without libvpx-vp9).
pub fn sidecar_option(detection: &SidecarProbe) -> (r: (bool, &'static str))
    ensures
        r.0 == (detection.exe@.len() > 0 && detection.has_vp9),
        r.0 ==> r.1@ == ""@,
        (!r.0 && detection.exe@.len() > 0) ==> r.1@ == " — 缺少 libvpx-vp9 编码器"@,
        detection.exe@.len() == 0 ==> r.1@ == " — 未检测到 ffmpeg"@,
{
    match SidecarProbe::probe(detection) {
        Some(p) => if p.has_vp9 {
            (true, "")
        } else {
            (false, " — 缺少 libvpx-vp9 编码器")
        },
        None => (false, " — 未检测到 ffmpeg"),
    }
}

} // verus!
