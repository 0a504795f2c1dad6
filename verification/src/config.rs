//! The settings' own rules: which engine values are valid, the output
//! folder's state, and the bounds of the size limits.

use crate::transcoder::Engine;
use vstd::prelude::*;
use vstd::string::*;

verus! {

/// How usable the output folder is; the toolbar's red frame and hint follow it.
#[derive(Debug, Clone, Copy, PartialEq, Eq, Structural)]
pub enum OutputDirState {
    /// It exists (whether it is writable is a separate question).
    Exists,
    /// It does not exist, but its parent does: it is created on Run.
    WillCreate,
    /// Its parent is missing, or something that is not a folder is in its place.
    Missing,
}

/// The state of the output folder `dir`, given what the file system says:
/// whether `dir` is a folder, whether its parent is one, and whether
/// anything exists at `dir`. An empty setting names no folder.
pub open spec fn spec_output_dir_state(dir: Seq<char>, is_dir: bool, parent_is_dir: bool, exists: bool) -> OutputDirState {
    if dir.len() == 0 {
        OutputDirState::Missing
    } else if is_dir {
        OutputDirState::Exists
    } else if parent_is_dir && !exists {
        OutputDirState::WillCreate
    } else {
        OutputDirState::Missing
    }
}

/// The state of the output folder `dir` (see [`spec_output_dir_state`]);
/// `parent_is_dir` is false where the path has no parent.
pub fn output_dir_state(dir: &str, is_dir: bool, parent_is_dir: bool, exists: bool) -> (r: OutputDirState)
    ensures
        r == spec_output_dir_state(dir@, is_dir, parent_is_dir, exists),
{
    if dir.unicode_len() == 0 {
        OutputDirState::Missing
    } else if is_dir {
        OutputDirState::Exists
    } else if parent_is_dir && !exists {
        OutputDirState::WillCreate
    } else {
        OutputDirState::Missing
    }
}

/// The engine a missing or invalid setting falls back to.
pub open spec fn spec_default_engine() -> Seq<char> {
    "sidecar"@
}

/// The engine setting's default value.
pub fn default_engine() -> (r: String)
    ensures
        r@ == spec_default_engine(),
{
    String::from_str("sidecar")
}

/// Whether `engine` names an engine.
pub fn engine_valid(engine: &str) -> (r: bool)
    ensures
        r == Engine::spec_parse(engine@) is Some,
{
    Engine::parse(engine).is_some()
}

/// The engine setting after loading: kept when valid, else the default.
pub fn sanitize_engine(engine: String) -> (r: String)
    ensures
        Engine::spec_parse(engine@) is Some ==> r@ == engine@,
        Engine::spec_parse(engine@) is None ==> r@ == spec_default_engine(),
        Engine::spec_parse(r@) is Some,
{
    if engine_valid(engine.as_str()) {
        engine
    } else {
        proof {
            reveal_strlit("sidecar");
        }
        default_engine()
    }
}

/// The smallest size limit, in KiB, that the settings accept.
pub const MIN_SIZE_KB: u32 = 16;

/// The largest size limit, in KiB, that the settings accept.
pub const MAX_SIZE_KB: u32 = 102_400;

/// A size limit (KiB) brought into `[MIN_SIZE_KB, MAX_SIZE_KB]`; a hand-edited
/// 0 would otherwise make every output "over the limit".
pub fn clamp_size_kb(kb: u32) -> (r: u32)
    ensures
        MIN_SIZE_KB <= r <= MAX_SIZE_KB,
        MIN_SIZE_KB <= kb <= MAX_SIZE_KB ==> r == kb,
        kb < MIN_SIZE_KB ==> r == MIN_SIZE_KB,
        kb > MAX_SIZE_KB ==> r == MAX_SIZE_KB,
{
    if kb < MIN_SIZE_KB {
        MIN_SIZE_KB
    } else if kb > MAX_SIZE_KB {
        MAX_SIZE_KB
    } else {
        kb
    }
}

/// The default size limit of a video sticker, in KiB.
pub const DEFAULT_VIDEO_MAX_KB: u32 = 256;

/// The default size limit of an image sticker, in KiB.
pub const DEFAULT_IMAGE_MAX_KB: u32 = 512;

/// The default limits are within the accepted range, so loading the
/// defaults keeps them, and they come to 256 KiB and 512 KiB in bytes.
pub proof fn default_limits_survive_clamping()
    ensures
        MIN_SIZE_KB <= DEFAULT_VIDEO_MAX_KB <= MAX_SIZE_KB,
        MIN_SIZE_KB <= DEFAULT_IMAGE_MAX_KB <= MAX_SIZE_KB,
        DEFAULT_VIDEO_MAX_KB as int * 1024 == 262_144,
        DEFAULT_IMAGE_MAX_KB as int * 1024 == 524_288,
{
}

/// A size limit in bytes, from the setting in KiB.
pub fn max_size_bytes(kb: u32) -> (r: u64)
    ensures
        r == kb as int * 1024,
{
    kb as u64 * 1024
}

} // verus!
