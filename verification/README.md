# sticker_process

Turns images and short videos into Telegram stickers: videos (mp4, gif,
apng, animated webp) become VP9 webm stickers, images (jpg, png, webp)
become png stickers, scaled to 512×512 and kept under a size limit by
retrying with a smaller bitrate factor.

## Layout

- `src/` — the library, verified with Verus. Every decision of the program
  lives here, with its contract:
  - `media` — input sources, media types by extension, the probe's
    correction by codec, MIME types, which dropped files are queued;
  - `paths`, `text` — the path model (`/` and `\` separators) and the
    character-level helpers (decimal numbers, `trim`, case folding);
  - `transcoder`, `steps`, `error` — statuses, engines and their browser
    matrix, output names, the webm duration patch, the error messages;
  - `preview` — the `preview://` URLs, query, `Range` parsing and answers;
  - `runner`, `queue`, `ui` — the run queue's verdicts, removal and undo,
    notices, the task list's texts and the summary;
  - `config`, `sidecar`, `compat` — the settings' rules, the choice of the
    ffmpeg executable, and the compatibility report.
- `tests/` — tests of the library.
- `app/` — the program around it: the Dioxus UI, file and process I/O,
  ffmpeg and libav, the browser glue, and the floating-point bitrate chain.
