use sticker_process::error::{join, PatchFault, TranscodeError};

#[test]
fn every_error_has_its_message() {
    let cases = vec![
        (TranscodeError::InvalidMediaType, "invalid media type"),
        (TranscodeError::InvalidDuration, "invalid media duration"),
        (TranscodeError::InvalidOutputPath, "invalid output path"),
        (TranscodeError::OutputNotSet, "output not set"),
        (TranscodeError::Cancelled, "cancelled"),
        (TranscodeError::DurationPatch(PatchFault::ReadFailed), "duration patch failed: failed to read output file"),
        (TranscodeError::DurationPatch(PatchFault::OpenFailed), "duration patch failed: failed to open output file"),
        (TranscodeError::DurationPatch(PatchFault::WriteFailed), "duration patch failed: error writing file"),
        (TranscodeError::DurationPatch(PatchFault::NotFound), "duration patch failed: binary sequence not found"),
        (TranscodeError::DurationPatch(PatchFault::TooCloseToEof), "duration patch failed: binary sequence too close to EOF"),
        (TranscodeError::SizeCheck("gone".to_string()), "size check failed: gone"),
        (TranscodeError::Join("panicked".to_string()), "join error: panicked"),
        (TranscodeError::UnsupportedEngine("x"), "unsupported engine: x"),
        (TranscodeError::Spawn, "failed to spawn ffmpeg"),
        (TranscodeError::ReadOutput, "failed to read ffmpeg output"),
        (TranscodeError::FfmpegFailed("exit code: 1".to_string()), "ffmpeg failed: exit code: 1"),
        (TranscodeError::ImagePipe("write failed"), "image pipeline failed: write failed"),
        (TranscodeError::OutputWrite("denied".to_string()), "failed to write output: denied"),
        (TranscodeError::EncoderNotFound("libvpx-vp9"), "encoder not found: libvpx-vp9"),
        (TranscodeError::Decoder("d".to_string()), "decoder error: d"),
        (TranscodeError::Encoder("e".to_string()), "encoder error: e"),
        (TranscodeError::Filter("f".to_string()), "filter graph error: f"),
        (TranscodeError::Muxer("m".to_string()), "muxer error: m"),
        (TranscodeError::Ffmpeg("Invalid data".to_string()), "ffmpeg error: Invalid data"),
        (TranscodeError::Engine("boom".to_string()), "engine error: boom"),
    ];
    for (err, text) in cases {
        assert_eq!(err.message(), text);
    }
}

#[test]
fn patch_fault_reasons() {
    assert_eq!(PatchFault::NotFound.reason(), "binary sequence not found");
    assert_eq!(PatchFault::TooCloseToEof.reason(), "binary sequence too close to EOF");
}

#[test]
fn join_concatenates() {
    assert_eq!(join("a: ", "b"), "a: b");
    assert_eq!(join("", ""), "");
}
