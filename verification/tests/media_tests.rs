use sticker_process::media::{
    file_accept, input_is_video, is_supported, mime_for_ext, name_supported, partition_inputs,
    path_ext_str, path_supported, reclassify, ImageType, MediaType, ProbedCodec, Source, VideoType,
    SUPPORTED,
};

fn path(p: &str) -> Source {
    Source::Path(p.to_string())
}

fn bytes(name: &str) -> Source {
    Source::Bytes { data: vec![], name: name.to_string() }
}

#[test]
fn test_new_media_file_mp4() {
    assert_eq!(path("test.mp4").media_type(), Some(MediaType::Video(VideoType::Mp4)));
}

#[test]
fn test_new_media_file_jpg() {
    assert_eq!(path("test.jpg").media_type(), Some(MediaType::Image(ImageType::Jpg)));
}

#[test]
fn test_new_media_file_gif() {
    assert_eq!(path("test.gif").media_type(), Some(MediaType::Video(VideoType::Gif)));
}

#[test]
fn test_new_media_file_apng() {
    assert_eq!(path("test.apng").media_type(), Some(MediaType::Video(VideoType::Apng)));
}

#[test]
fn anim_webp_extension_stays_image_until_probe() {
    assert_eq!(path("x.webp").media_type(), Some(MediaType::Image(ImageType::Webp)));
}

#[test]
fn test_new_media_file_empty() {
    assert_eq!(path("test").media_type(), None);
}

#[test]
fn supported_extensions_are_consistent() {
    for ext in SUPPORTED {
        let file = path(&format!("file.{ext}"));
        assert!(
            file.media_type().is_some(),
            "SUPPORTED extension '{ext}' not recognized by MediaFile::new"
        );
    }
    for ext in ["webm", "bmp", "txt"] {
        let file = path(&format!("file.{ext}"));
        assert!(file.media_type().is_none(), "'{ext}' should be rejected");
    }
}

#[test]
fn from_bytes_type_detection() {
    assert_eq!(bytes("clip.mp4").media_type(), Some(MediaType::Video(VideoType::Mp4)));
    assert_eq!(bytes("anim.gif").media_type(), Some(MediaType::Video(VideoType::Gif)));
    assert_eq!(bytes("pic.png").media_type(), Some(MediaType::Image(ImageType::Png)));
    assert_eq!(bytes("file.xyz").media_type(), None);
}

#[test]
fn bytes_source_probe_ok_and_path_none() {
    let media = bytes("a.gif");
    assert!(media.path().is_none());
    assert_eq!(media.display_name(), "a.gif");
    assert!(media.is_bytes());
}

#[test]
fn path_source_still_works() {
    let media = path("test.mp4");
    assert!(media.path().is_some());
    assert_eq!(media.display_name(), "test.mp4");
    assert!(!media.is_bytes());
    assert!(media.bytes().is_none());
}

#[test]
fn extensions_are_case_insensitive() {
    assert_eq!(path(r"C:\In\CLIP.MP4").media_type(), Some(MediaType::Video(VideoType::Mp4)));
    assert_eq!(bytes("PIC.JPEG").media_type(), Some(MediaType::Image(ImageType::Jpg)));
    assert_eq!(path("dir.d/.hidden").media_type(), None);
}

#[test]
fn stems() {
    assert_eq!(path("input/clip.mp4").file_stem().as_deref(), Some("clip"));
    assert_eq!(path("C:clip.mp4").file_stem().as_deref(), Some("clip"));
    assert_eq!(path("C:").file_stem(), None);
    assert_eq!(path("input/archive.tar.gz").file_stem().as_deref(), Some("archive.tar"));
    assert_eq!(path("input/.bashrc").file_stem().as_deref(), Some(".bashrc"));
    assert_eq!(bytes("a.b.gif").file_stem().as_deref(), Some("a.b"));
    assert_eq!(bytes(".gif").file_stem(), None);
    assert_eq!(bytes("noext").file_stem(), None);
}

#[test]
fn supported_list_and_accept_attribute() {
    assert_eq!(SUPPORTED, ["mp4", "gif", "jpg", "jpeg", "png", "webp", "apng"]);
    assert_eq!(file_accept(), ".mp4,.gif,.jpg,.jpeg,.png,.webp,.apng");
    assert!(is_supported("jpeg"));
    assert!(!is_supported("JPEG"));
    assert!(!is_supported("webm"));
}

#[test]
fn mime_table() {
    assert_eq!(mime_for_ext("jpg"), Some("image/jpeg"));
    assert_eq!(mime_for_ext("webp"), Some("image/webp"));
    assert_eq!(mime_for_ext("gif"), Some("image/gif"));
    assert_eq!(mime_for_ext("mp4"), Some("video/mp4"));
    assert_eq!(mime_for_ext("bmp"), None);
    assert_eq!(path_ext_str(r"D:\x\Y.PnG"), "png");
    assert_eq!(path_ext_str("noext"), "");
    assert!(input_is_video("a.MP4"));
    assert!(!input_is_video("a.gif"));
}

#[test]
fn dropped_files_are_split_by_extension() {
    let (added, skipped) = partition_inputs(vec![
        "a.MP4".to_string(),
        "notes.txt".to_string(),
        r"C:\b.png".to_string(),
        "noext".to_string(),
    ]);
    assert_eq!(added, ["a.MP4", r"C:\b.png"]);
    assert_eq!(skipped, ["notes.txt", "noext"]);
    assert!(path_supported("x.WebP"));
    assert!(name_supported("x.APNG"));
    assert!(!name_supported("gif"));
}

#[test]
fn probing_corrects_the_type() {
    let mp4 = Some(MediaType::Video(VideoType::Mp4));
    let png = Some(MediaType::Image(ImageType::Png));
    assert_eq!(reclassify(mp4, ProbedCodec::Png), png);
    assert_eq!(reclassify(mp4, ProbedCodec::Mjpeg), Some(MediaType::Image(ImageType::Jpg)));
    assert_eq!(reclassify(mp4, ProbedCodec::Other), mp4);
    assert_eq!(reclassify(png, ProbedCodec::Apng), Some(MediaType::Video(VideoType::Apng)));
    assert_eq!(
        reclassify(Some(MediaType::Image(ImageType::Webp)), ProbedCodec::WebpAnim),
        Some(MediaType::Video(VideoType::AnimatedWebP))
    );
    assert_eq!(reclassify(png, ProbedCodec::Other), mp4);
    assert_eq!(reclassify(png, ProbedCodec::Png), png);
    assert_eq!(reclassify(None, ProbedCodec::Png), None);
}

#[test]
fn pix_fmt_per_video_type() {
    assert_eq!(VideoType::Mp4.pix_fmt(), "yuv420p10");
    assert_eq!(VideoType::Gif.pix_fmt(), "yuva420p");
    assert_eq!(VideoType::AnimatedWebP.pix_fmt(), "yuva420p");
}
