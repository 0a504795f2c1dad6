//! The webm duration patch: locate the Segment Info `Duration` element
//! (ID `44 89 88`, an 8-byte float payload) ahead of the first Cluster and
//! overwrite its payload.

use crate::error::{PatchFault, TranscodeError};
use crate::media::MediaType;
use vstd::prelude::*;

verus! {

/// ID of the `Duration` element followed by its one-byte size (8).
pub open spec fn marker() -> Seq<u8> {
    seq![0x44u8, 0x89u8, 0x88u8]
}

/// ID of the first `Cluster` element.
pub open spec fn cluster_id() -> Seq<u8> {
    seq![0x1Fu8, 0x43u8, 0xB6u8, 0x75u8]
}

/// Big-endian bytes of the float 100.0: one hundred Segment Ticks (100 ms at
/// the fixed 1 ms TimestampScale).
pub open spec fn spec_duration_payload() -> Seq<u8> {
    seq![0x40u8, 0x59u8, 0u8, 0u8, 0u8, 0u8, 0u8, 0u8]
}

/// `pat` occurs in `data` starting at `i`.
pub open spec fn matches_at(data: Seq<u8>, pat: Seq<u8>, i: int) -> bool {
    &&& 0 <= i
    &&& i + pat.len() <= data.len()
    &&& forall|k: int| 0 <= k < pat.len() ==> #[trigger] data[i + k] == pat[k]
}

/// The first occurrence of `pat` at or after `i` that ends at or before `bound`.
pub open spec fn find_from(data: Seq<u8>, pat: Seq<u8>, i: int, bound: int) -> Option<int>
    decreases bound - i,
{
    if i < 0 || i + pat.len() > bound || bound > data.len() {
        None
    } else if matches_at(data, pat, i) {
        Some(i)
    } else {
        find_from(data, pat, i + 1, bound)
    }
}

/// Where the first Cluster starts (the data's length when there is none).
pub open spec fn cluster_start(data: Seq<u8>) -> int {
    match find_from(data, cluster_id(), 0, data.len() as int) {
        Some(c) => c,
        None => data.len() as int,
    }
}

/// Offset of the Duration payload, or why there is none: the first marker
/// that lies wholly before the first Cluster, whose 8-byte payload must
/// also end before that Cluster.
pub open spec fn spec_payload_offset(data: Seq<u8>) -> Result<int, PatchFault> {
    let bound = cluster_start(data);
    match find_from(data, marker(), 0, bound) {
        None => Err(PatchFault::NotFound),
        Some(p) => if p + 3 + 8 > bound {
            Err(PatchFault::TooCloseToEof)
        } else {
            Ok(p + 3)
        },
    }
}

/// The payload written over the Duration element.
pub fn duration_payload() -> (r: [u8; 8])
    ensures
        r@ == spec_duration_payload(),
{
    let r: [u8; 8] = [0x40, 0x59, 0, 0, 0, 0, 0, 0];
    assert(r@ =~= spec_duration_payload());
    r
}

pub(crate) proof fn lemma_find_from_bounds(data: Seq<u8>, pat: Seq<u8>, i: int, bound: int)
    ensures
        match find_from(data, pat, i, bound) {
            Some(p) => i <= p && p + pat.len() <= bound && bound <= data.len() && matches_at(data, pat, p),
            None => true,
        },
    decreases bound - i,
{
    if i < 0 || i + pat.len() > bound || bound > data.len() {
    } else if matches_at(data, pat, i) {
    } else {
        lemma_find_from_bounds(data, pat, i + 1, bound);
    }
}

/// First index `p >= start` with `pat` at `p` and `p + pat.len() <= bound`.
pub(crate) fn find_in(data: &[u8], pat: &[u8], start: usize, bound: usize) -> (r: Option<usize>)
    requires
        bound <= data@.len(),
        start <= bound,
    ensures
        r == (match find_from(data@, pat@, start as int, bound as int) {
            Some(p) => Some(p as usize),
            None => None::<usize>,
        }),
    decreases bound - start,
{
    if pat.len() > bound - start {
        return None;
    }
    let mut k: usize = 0;
    let mut hit = true;
    while k < pat.len()
        invariant
            0 <= k <= pat@.len(),
            start + pat@.len() <= bound <= data@.len(),
            hit == (forall|j: int| 0 <= j < k ==> data@[start + j] == pat@[j]),
        decreases pat@.len() - k,
    {
        if data[start + k] != pat[k] {
            hit = false;
        }
        k = k + 1;
    }
    if hit {
        assert(matches_at(data@, pat@, start as int)) by {
            assert forall|j: int| 0 <= j < pat@.len() implies #[trigger] data@[start + j]
                == pat@[j] by {}
        }
        Some(start)
    } else {
        assert(!matches_at(data@, pat@, start as int));
        if start == bound {
            // pat is non-empty here, so no window fits.
            None
        } else {
            find_in(data, pat, start + 1, bound)
        }
    }
}

/// When no occurrence is found, `pat` occurs nowhere in the window.
pub(crate) proof fn lemma_find_from_complete(data: Seq<u8>, pat: Seq<u8>, i: int, bound: int)
    requires
        0 <= i,
        bound <= data.len(),
        find_from(data, pat, i, bound) is None,
    ensures
        forall|j: int| i <= j && j + pat.len() <= bound ==> !matches_at(data, pat, j),
    decreases bound - i,
{
    if i + pat.len() <= bound {
        lemma_find_from_complete(data, pat, i + 1, bound);
    }
}

/// Offset of the Duration payload (marker position + 3).
///
/// The scan stops at the first Cluster: Duration always precedes every
/// Cluster, and an unbounded search could match codec payload bytes.
pub fn find_duration_payload(data: &[u8]) -> (r: Result<usize, TranscodeError>)
    ensures
        match spec_payload_offset(data@) {
            Ok(at) => 3 <= at && at + 8 <= data@.len() && r == Ok::<usize, TranscodeError>(at as usize),
            Err(f) => r == Err::<usize, TranscodeError>(TranscodeError::DurationPatch(f)),
        },
{
    let marker_pat: [u8; 3] = [0x44, 0x89, 0x88];
    let cluster_pat: [u8; 4] = [0x1F, 0x43, 0xB6, 0x75];
    assert(marker_pat@ =~= marker());
    assert(cluster_pat@ =~= cluster_id());
    let cluster_at = match find_in(data, &cluster_pat, 0, data.len()) {
        Some(c) => c,
        None => data.len(),
    };
    proof {
        lemma_find_from_bounds(data@, cluster_id(), 0, data@.len() as int);
    }
    match find_in(data, &marker_pat, 0, cluster_at) {
        None => Err(TranscodeError::DurationPatch(PatchFault::NotFound)),
        Some(position) => {
            proof {
                lemma_find_from_bounds(data@, marker(), 0, cluster_at as int);
            }
            if cluster_at - (position + 3) < 8 {
                Err(TranscodeError::DurationPatch(PatchFault::TooCloseToEof))
            } else {
                Ok(position + 3)
            }
        },
    }
}

/// `data` with the 8 payload bytes at `at` replaced by `payload`.
pub open spec fn spec_overwrite(data: Seq<u8>, at: int, payload: Seq<u8>) -> Seq<u8> {
    data.subrange(0, at) + payload + data.subrange(at + payload.len(), data.len() as int)
}

/// In-memory patch: the Duration payload becomes 100 Segment Ticks (0.1 s),
/// which keeps the sticker under Telegram's duration check.
pub fn patch_webm_bytes(data: Vec<u8>) -> (r: Result<Vec<u8>, TranscodeError>)
    ensures
        match spec_payload_offset(data@) {
            Ok(at) => r matches Ok(out) && out@ == spec_overwrite(data@, at, spec_duration_payload()),
            Err(f) => r == Err::<Vec<u8>, TranscodeError>(TranscodeError::DurationPatch(f)),
        },
{
    let slice = data.as_slice();
    let at = match find_duration_payload(slice) {
        Ok(at) => at,
        Err(e) => return Err(e),
    };
    assert(at + 8 <= data.len());
    assert(spec_payload_offset(data@) == Ok::<int, PatchFault>(at as int));
    let payload = duration_payload();
    let mut out = data;
    let ghost orig = out@;
    let mut k: usize = 0;
    while k < 8
        invariant
            0 <= k <= 8,
            at + 8 <= orig.len(),
            orig.len() <= usize::MAX,
            out@.len() == orig.len(),
            payload@ == spec_duration_payload(),
            forall|j: int| 0 <= j < at ==> out@[j] == orig[j],
            forall|j: int| at + 8 <= j < orig.len() ==> out@[j] == orig[j],
            forall|j: int| at + k <= j < at + 8 ==> out@[j] == orig[j],
            forall|j: int| 0 <= j < k ==> out@[at + j] == payload@[j],
        decreases 8 - k,
    {
        out.set(at + k, payload[k]);
        k = k + 1;
    }
    assert(out@ =~= spec_overwrite(orig, at as int, spec_duration_payload()));
    Ok(out)
}

/// What a finished engine run stores: a video's webm with its duration
/// patched when the patch is enabled; anything else exactly as produced.
pub fn finished_output(media_type: Option<MediaType>, duration_patch: bool, out: Vec<u8>) -> (r: Result<Vec<u8>, TranscodeError>)
    ensures
        (media_type matches Some(MediaType::Video(_)) && duration_patch) ==> match spec_payload_offset(out@) {
            Ok(at) => r matches Ok(o) && o@ == spec_overwrite(out@, at, spec_duration_payload()),
            Err(f) => r == Err::<Vec<u8>, TranscodeError>(TranscodeError::DurationPatch(f)),
        },
        !(media_type matches Some(MediaType::Video(_)) && duration_patch) ==> (r matches Ok(o) && o@ == out@),
{
    match media_type {
        Some(MediaType::Video(_)) => if duration_patch {
            patch_webm_bytes(out)
        } else {
            Ok(out)
        },
        _ => Ok(out),
    }
}

/// The duration patch rewrites only the 8-byte payload: the output has the
/// input's length, every byte outside the payload is unchanged, and the
/// payload holds 100.0.
pub proof fn patch_touches_only_the_payload(data: Seq<u8>)
    requires
        spec_payload_offset(data) is Ok,
    ensures
        ({
            let at = spec_payload_offset(data)->Ok_0;
            let out = spec_overwrite(data, at, spec_duration_payload());
            &&& out.len() == data.len()
            &&& forall|j: int| 0 <= j < data.len() && !(at <= j < at + 8) ==> out[j] == data[j]
            &&& forall|j: int| 0 <= j < 8 ==> out[at + j] == spec_duration_payload()[j]
        }),
{
    let at = spec_payload_offset(data)->Ok_0;
    let bound = cluster_start(data);
    assert(bound <= data.len()) by {
        lemma_find_from_bounds(data, cluster_id(), 0, data.len() as int);
    }
    lemma_find_from_bounds(data, marker(), 0, bound);
    assert(0 <= at && at + 8 <= data.len());
}

} // verus!
