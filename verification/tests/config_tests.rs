use sticker_process::config::{
    clamp_size_kb, default_engine, engine_valid, max_size_bytes, output_dir_state, sanitize_engine,
    OutputDirState, DEFAULT_IMAGE_MAX_KB, DEFAULT_VIDEO_MAX_KB, MAX_SIZE_KB, MIN_SIZE_KB,
};

#[test]
fn engine_valid_rejects_unknown_values() {
    assert!(engine_valid(&default_engine()));
    assert!(engine_valid("inprocess"));
    assert!(!engine_valid("gpu"));
}

#[test]
fn missing_engine_falls_back_to_sidecar() {
    assert_eq!(default_engine(), "sidecar");
    assert_eq!(sanitize_engine("gpu".to_string()), "sidecar");
    assert_eq!(sanitize_engine(String::new()), "sidecar");
    assert_eq!(sanitize_engine("ffmpeg-wasm".to_string()), "ffmpeg-wasm");
}

#[test]
fn sanitize_clamps_out_of_range_values() {
    assert_eq!(clamp_size_kb(0), 16);
    assert_eq!(clamp_size_kb(256), 256);
    assert_eq!(clamp_size_kb(u32::MAX), 102_400);
    assert_eq!((MIN_SIZE_KB, MAX_SIZE_KB), (16, 102_400));
}

#[test]
fn output_dir_state_covers_the_four_cases() {
    assert_eq!(output_dir_state(r"C:\out", true, true, true), OutputDirState::Exists);
    assert_eq!(output_dir_state(r"C:\out\child", false, true, false), OutputDirState::WillCreate);
    assert_eq!(output_dir_state(r"C:\out\occupied", false, true, true), OutputDirState::Missing);
    assert_eq!(output_dir_state(r"C:\nope\deeper", false, false, false), OutputDirState::Missing);
    assert_eq!(output_dir_state("", true, true, true), OutputDirState::Missing);
}

#[test]
fn size_limits_in_bytes() {
    assert_eq!(max_size_bytes(256), 262_144);
    assert_eq!(max_size_bytes(512), 524_288);
    assert_eq!(max_size_bytes(u32::MAX), u32::MAX as u64 * 1024);
}

#[test]
fn default_limits_match_the_sticker_budgets() {
    assert_eq!(DEFAULT_VIDEO_MAX_KB, 256);
    assert_eq!(DEFAULT_IMAGE_MAX_KB, 512);
    assert_eq!(clamp_size_kb(DEFAULT_VIDEO_MAX_KB), DEFAULT_VIDEO_MAX_KB);
    assert_eq!(clamp_size_kb(DEFAULT_IMAGE_MAX_KB), DEFAULT_IMAGE_MAX_KB);
    assert_eq!(max_size_bytes(DEFAULT_VIDEO_MAX_KB), 262_144);
    assert_eq!(max_size_bytes(DEFAULT_IMAGE_MAX_KB), 524_288);
}
