use sticker_process::error::{PatchFault, TranscodeError};
use sticker_process::media::{ImageType, MediaType, VideoType};
use sticker_process::steps::{duration_payload, find_duration_payload, finished_output, patch_webm_bytes};

#[test]
fn duration_patch_writes_at_marker_offset() {
    let mut data = vec![0u8; 5000];
    data[2046..2049].copy_from_slice(&[0x44, 0x89, 0x88]);
    let patched = patch_webm_bytes(data).unwrap();
    assert_eq!(&patched[2049..2057], &100f64.to_be_bytes());
    assert_eq!(&patched[..3], &[0u8, 0, 0]);
}

#[test]
fn duration_patch_rejects_marker_near_eof() {
    let mut data = vec![0u8; 10];
    data[7..10].copy_from_slice(&[0x44, 0x89, 0x88]);
    let err = patch_webm_bytes(data).unwrap_err();
    assert!(err.message().contains("too close to EOF"));
}

#[test]
fn duration_patch_rejects_missing_marker() {
    let data = vec![0u8; 64];
    let err = patch_webm_bytes(data).unwrap_err();
    assert!(err.message().contains("not found"));
}

#[test]
fn duration_patch_refuses_marker_inside_cluster() {
    let mut data = vec![0u8; 200];
    data[10..14].copy_from_slice(&[0x1F, 0x43, 0xB6, 0x75]);
    data[50..53].copy_from_slice(&[0x44, 0x89, 0x88]);
    let err = patch_webm_bytes(data).unwrap_err();
    assert!(err.message().contains("not found"));
}

#[test]
fn duration_payload_is_one_hundred_as_big_endian_float() {
    assert_eq!(duration_payload(), 100f64.to_be_bytes());
}

#[test]
fn patch_keeps_length_and_every_other_byte() {
    let mut data = vec![7u8; 300];
    data[10..13].copy_from_slice(&[0x44, 0x89, 0x88]);
    let got = patch_webm_bytes(data.clone()).unwrap();
    assert_eq!(got.len(), data.len());
    assert_eq!(&got[13..21], &100f64.to_be_bytes());
    assert_eq!(&got[..13], &data[..13]);
    assert_eq!(&got[21..], &data[21..]);
}

#[test]
fn find_payload_offset_is_after_the_marker() {
    let mut data = vec![0u8; 40];
    data[5..8].copy_from_slice(&[0x44, 0x89, 0x88]);
    assert_eq!(find_duration_payload(&data), Ok(8));
}

#[test]
fn marker_whose_payload_reaches_the_cluster_is_too_close() {
    let mut data = vec![0u8; 40];
    data[0..3].copy_from_slice(&[0x44, 0x89, 0x88]);
    data[8..12].copy_from_slice(&[0x1F, 0x43, 0xB6, 0x75]);
    assert_eq!(
        find_duration_payload(&data),
        Err(TranscodeError::DurationPatch(PatchFault::TooCloseToEof))
    );
}

#[test]
fn finished_video_is_patched_only_when_enabled() {
    let mut data = vec![1u8; 64];
    data[4..7].copy_from_slice(&[0x44, 0x89, 0x88]);
    let video = Some(MediaType::Video(VideoType::Mp4));
    let patched = finished_output(video, true, data.clone()).unwrap();
    assert_eq!(&patched[7..15], &100f64.to_be_bytes());
    let untouched = finished_output(video, false, data.clone()).unwrap();
    assert_eq!(untouched, data);
}

#[test]
fn finished_image_is_stored_as_produced() {
    let png = vec![0x89u8, b'P', b'N', b'G'];
    let out = finished_output(Some(MediaType::Image(ImageType::Png)), true, png.clone()).unwrap();
    assert_eq!(out, png);
}

#[test]
fn finished_video_without_marker_fails_when_patching() {
    let data = vec![7u8; 300];
    let err = finished_output(Some(MediaType::Video(VideoType::Gif)), true, data).unwrap_err();
    assert_eq!(err, TranscodeError::DurationPatch(PatchFault::NotFound));
    assert_eq!(err.message(), "duration patch failed: binary sequence not found");
}
