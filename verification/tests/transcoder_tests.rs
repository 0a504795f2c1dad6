use sticker_process::error::TranscodeError;
use sticker_process::media::{ImageType, MediaType, Source, VideoType};
use sticker_process::transcoder::{
    desktop_route, engine_error, engine_output, has_timestamp_shape, next_pts, output_file_name,
    web_timestamp, DesktopRoute, Engine, FileSize, OutputSequence, Status, MAX_NAME_STEM,
};

/// The local time as the desktop names outputs with it.
fn clock_stamp() -> String {
    chrono::Local::now().format("%Y-%m-%d-%H%M%S%.3f").to_string()
}

fn name_for(path: &str, keep: bool) -> String {
    let src = Source::Path(path.to_string());
    output_file_name(src.media_type(), src.file_stem(), keep, &clock_stamp(), 7).unwrap()
}

#[test]
fn for_web_matrix() {
    assert_eq!(
        Engine::for_web(&MediaType::Video(VideoType::Gif), true),
        (Engine::FfmpegWasm, "video", "yuva420p")
    );
    assert_eq!(
        Engine::for_web(&MediaType::Video(VideoType::Apng), false),
        (Engine::FfmpegWasm, "video", "yuva420p")
    );
    assert_eq!(
        Engine::for_web(&MediaType::Video(VideoType::Mp4), true),
        (Engine::Webcodecs, "video", "yuv420p10")
    );
    assert_eq!(
        Engine::for_web(&MediaType::Video(VideoType::Mp4), false),
        (Engine::FfmpegWasm, "video", "yuv420p10")
    );
    for img in [ImageType::Png, ImageType::Jpg, ImageType::Webp] {
        assert_eq!(
            Engine::for_web(&MediaType::Image(img), true),
            (Engine::Webcodecs, "image", "yuva420p")
        );
    }
    assert_eq!(
        Engine::for_web(&MediaType::Video(VideoType::AnimatedWebP), true),
        (Engine::FfmpegWasm, "video", "yuva420p")
    );
}

#[test]
fn output_name_keeps_input_stem_only_when_enabled() {
    let plain = name_for("input/clip.mp4", false);
    assert!(plain.ends_with(".webm"), "{plain}");
    assert!(!plain.starts_with("clip-"), "{plain}");
    let kept = name_for("input/clip.mp4", true);
    assert!(kept.starts_with("clip-"), "{kept}");
    assert!(kept.ends_with(".webm"), "{kept}");
}

#[test]
fn output_names_with_a_fixed_stamp() {
    let src = Source::Path("input/clip.mp4".to_string());
    let stamp = "2026-01-02-030405.678";
    let plain = output_file_name(src.media_type(), src.file_stem(), false, stamp, 7).unwrap();
    let kept = output_file_name(src.media_type(), src.file_stem(), true, stamp, 7).unwrap();
    assert_eq!(plain, "2026-01-02-030405.678-7.webm");
    assert_eq!(kept, "clip-2026-01-02-030405.678-7.webm");
}

#[test]
fn output_name_truncates_long_input_stem() {
    let long = format!("input/{}.png", "x".repeat(200));
    let name = name_for(&long, true);
    assert_eq!(name.matches('x').count(), 64, "{name}");
    assert_eq!(MAX_NAME_STEM, 64);
    assert!(name.ends_with(".png"), "{name}");
}

#[test]
fn output_name_needs_a_media_type() {
    assert_eq!(output_file_name(None, None, false, "t", 0), Err(TranscodeError::InvalidMediaType));
    let named = output_file_name(Some(MediaType::Image(ImageType::Png)), Some("pic".to_string()), true, &clock_stamp(), 3).unwrap();
    assert!(named.starts_with("pic-"), "{named}");
    assert!(named.ends_with("-3.png"), "{named}");
}

#[test]
fn clock_stamps_have_their_shape() {
    assert!(has_timestamp_shape(&clock_stamp()));
    assert!(has_timestamp_shape("2024-01-02-030405.678"));
    assert!(!has_timestamp_shape("2024-02-01-030405.67"));
    assert!(!has_timestamp_shape("2024/01/02-030405.678"));
    assert!(!has_timestamp_shape("+10000-01-02-030405.678"));
    assert!(!has_timestamp_shape("2024-01-02-03040a.678"));
}

#[test]
fn names_with_different_sequence_numbers_differ() {
    let video = Some(MediaType::Video(VideoType::Mp4));
    let a = output_file_name(video, Some("a-1".to_string()), true, "2024-01-02-030405.678", 12).unwrap();
    let b = output_file_name(video, Some("a".to_string()), true, "1-2024-01-02-030405.678", 2).unwrap();
    assert_eq!(a, "a-1-2024-01-02-030405.678-12.webm");
    assert_eq!(b, "a-1-2024-01-02-030405.678-2.webm");
    assert_ne!(a, b);
    let mut counter = OutputSequence::new();
    let stamp = clock_stamp();
    let c = output_file_name(video, None, false, &stamp, counter.take().unwrap()).unwrap();
    let d = output_file_name(video, None, false, &stamp, counter.take().unwrap()).unwrap();
    assert!(c.ends_with("-0.webm") && d.ends_with("-1.webm"), "{c} {d}");
    assert_ne!(c, d);
}

#[test]
fn next_pts_monotonic_and_rescale() {
    // timestamps arrive already rescaled to milliseconds: 9000 at 1/90000 is 100
    assert_eq!(next_pts(None, Some(100)), 100);
    assert_eq!(next_pts(Some(100), None), 101);
    assert_eq!(next_pts(None, None), 0);
    assert_eq!(next_pts(Some(100), Some(1)), 101);
    assert_eq!(next_pts(Some(100), Some(100)), 101);
    assert_eq!(next_pts(Some(100), Some(250)), 250);
}

#[test]
fn web_timestamps() {
    assert_eq!(web_timestamp("2026-09-11T12:34:56.789Z", 5), "2026-09-11-12-34-56.789");
    assert_eq!(web_timestamp("Z", 1700000000123), "1700000000123");
    assert_eq!(web_timestamp("", 42), "42");
}

#[test]
fn status_labels() {
    assert_eq!(Status::Processing.label(), "Transcoding");
    assert_eq!(Status::Alert.label(), "Failed");
    assert_eq!(Status::SizeExcess.label(), "Over limit");
}

#[test]
fn file_size_new_and_set() {
    let mut f = FileSize::new(3);
    assert_eq!(f.size, 3);
    f.set(9);
    assert_eq!(f.size, 9);
}

#[test]
fn engine_names() {
    for e in [Engine::Sidecar, Engine::Inprocess, Engine::Webcodecs, Engine::FfmpegWasm] {
        assert_eq!(Engine::parse(e.as_str()), Some(e));
    }
    assert_eq!(Engine::parse("gpu"), None);
    assert_eq!(Engine::default(), Engine::Sidecar);
}

#[test]
fn desktop_routes() {
    assert_eq!(desktop_route(Engine::Sidecar), Ok(DesktopRoute::Sidecar));
    assert_eq!(desktop_route(Engine::Inprocess), Ok(DesktopRoute::Inprocess));
    let err = desktop_route(Engine::FfmpegWasm).unwrap_err();
    assert_eq!(
        err.message(),
        "unsupported engine: web engines (webcodecs / ffmpeg-wasm) require the web build"
    );
}

#[test]
fn engine_results() {
    assert_eq!(engine_output(vec![1, 2]), Ok(vec![1, 2]));
    assert_eq!(
        engine_output(vec![]).unwrap_err().message(),
        "engine error: engine returned empty output"
    );
    assert_eq!(engine_error(true, "x".to_string()), TranscodeError::Cancelled);
    assert_eq!(engine_error(false, "boom".to_string()).message(), "engine error: boom");
}
