use sticker_process::media::{input_mime, mime_for, output_mime};
use sticker_process::preview::{
    content_range, data_url, data_url_of, media_url, parse_range, percent_decode, percent_encode,
    plan_response, query_param, unsatisfiable_range, ResponsePlan, MAX_WINDOW, URL_PREFIX,
};

#[test]
fn roundtrip_path_with_chinese_and_spaces() {
    let raw = r"D:\out put\目录\2026-08-25-214201.604.png";
    let encoded = percent_encode(raw);
    assert!(!encoded.contains(' '));
    assert_eq!(percent_decode(&encoded), raw);
}

#[test]
fn range_parsing() {
    assert_eq!(parse_range(Some("bytes=0-99"), 1000), Some((0, 99)));
    assert_eq!(parse_range(Some("bytes=500-"), 1000), Some((500, 999)));
    assert_eq!(parse_range(Some("bytes=900-2000"), 1000), Some((900, 999)));
    assert_eq!(parse_range(Some("bytes=1000-"), 1000), None);
    assert_eq!(parse_range(None, 1000), None);
    assert_eq!(parse_range(Some("malformed"), 1000), None);
    assert_eq!(parse_range(Some("bytes=-500"), 1000), None);
    assert_eq!(parse_range(Some("bytes=0-9,20-29"), 1000), None);
    assert_eq!(parse_range(Some("bytes=500-100"), 1000), None);
}

#[test]
fn range_parsing_caps_single_response_window() {
    let gb = 2u64 * 1024 * 1024 * 1024;
    let cap = 8 * 1024 * 1024;
    assert_eq!(parse_range(Some("bytes=0-"), gb), Some((0, cap - 1)));
    assert_eq!(
        parse_range(Some(&format!("bytes=100-{gb}")), gb),
        Some((100, 100 + cap - 1))
    );
    assert_eq!(parse_range(Some("bytes=0-99"), gb), Some((0, 99)));
}

#[test]
fn mime_by_extension() {
    assert_eq!(mime_for("a.webm"), Some("video/webm"));
    assert_eq!(mime_for("B.PNG"), Some("image/png"));
    assert_eq!(mime_for("a.apng"), Some("image/png"));
    assert_eq!(mime_for("c.txt"), None);
}

#[test]
fn media_url_format() {
    let url = media_url(r"D:\x\y.png");
    assert!(url.starts_with(URL_PREFIX));
    let url_cn = media_url(r"D:\目 录\a.png");
    assert!(url_cn.contains("%E7%9B%AE"));
    assert!(url_cn.contains("%20"));
    assert_eq!(
        percent_decode(url_cn.rsplit("?p=").next().unwrap()),
        r"D:\目 录\a.png"
    );
}

#[test]
fn data_url_formats_prefix_and_payload() {
    assert_eq!(
        data_url("image/png", &[1, 2, 3]),
        format!(
            "data:image/png;base64,{}",
            base64::Engine::encode(&base64::engine::general_purpose::STANDARD, [1u8, 2, 3])
        )
    );
}

#[test]
fn data_url_pads_to_whole_groups() {
    assert_eq!(data_url("video/webm", &[]), "data:video/webm;base64,");
    assert_eq!(data_url("image/png", b"M"), "data:image/png;base64,TQ==");
    assert_eq!(data_url("image/png", b"Ma"), "data:image/png;base64,TWE=");
    assert_eq!(data_url("image/png", b"Man"), "data:image/png;base64,TWFu");
    assert_eq!(data_url_of("text/plain", "QUJD"), "data:text/plain;base64,QUJD");
}

#[test]
fn percent_encode_keeps_path_punctuation_readable() {
    assert_eq!(percent_encode(r"C:\a-b_c.d~e"), r"C:\a-b_c.d~e");
    assert_eq!(percent_encode("a/b c&d=e?"), "a%2Fb%20c%26d%3De%3F");
    assert_eq!(percent_encode("目"), "%E7%9B%AE");
}

#[test]
fn percent_decode_replaces_invalid_utf8() {
    assert_eq!(percent_decode("%FFa"), "\u{FFFD}a");
    assert_eq!(percent_decode("100%"), "100%");
}

#[test]
fn query_param_takes_the_first_matching_pair_decoded() {
    assert_eq!(query_param(Some("p=D%3A%5Cx.png"), "p"), Some(r"D:\x.png".to_string()));
    assert_eq!(query_param(Some("a=1&p=two&p=three"), "p"), Some("two".to_string()));
    assert_eq!(query_param(Some("p"), "p"), None);
    assert_eq!(query_param(Some("q=1"), "p"), None);
    assert_eq!(query_param(None, "p"), None);
    assert_eq!(query_param(Some("p=a=b"), "p"), Some("a=b".to_string()));
}

#[test]
fn response_plan_for_each_request_kind() {
    assert_eq!(plan_response(None, 10), ResponsePlan::Full);
    assert_eq!(plan_response(None, MAX_WINDOW + 1), ResponsePlan::TooLarge);
    assert_eq!(plan_response(None, MAX_WINDOW), ResponsePlan::Full);
    assert_eq!(
        plan_response(Some(Some("bytes=2-5")), 10),
        ResponsePlan::Partial { start: 2, end: 5 }
    );
    assert_eq!(plan_response(Some(Some("bytes=-5")), 10), ResponsePlan::RangeNotSatisfiable);
    assert_eq!(plan_response(Some(None), 10), ResponsePlan::RangeNotSatisfiable);
}

#[test]
fn content_range_headers() {
    assert_eq!(content_range(2, 5, 10), "bytes 2-5/10");
    assert_eq!(unsatisfiable_range(10), "bytes */10");
}

#[test]
fn range_with_spaces_around_numbers_is_accepted() {
    assert_eq!(parse_range(Some("bytes= 2 - 5 "), 10), Some((2, 5)));
    assert_eq!(parse_range(Some("bytes=+2-+5"), 10), Some((2, 5)));
    assert_eq!(parse_range(Some("Bytes=2-5"), 10), None);
}

#[test]
fn output_and_input_mime_fallbacks() {
    assert_eq!(output_mime("out/a.webm"), "video/webm");
    assert_eq!(output_mime("out/a.PNG"), "image/png");
    assert_eq!(output_mime("out/a"), "video/webm");
    assert_eq!(input_mime("clip.MP4"), "video/mp4");
    assert_eq!(input_mime("notes.txt"), "application/octet-stream");
}
