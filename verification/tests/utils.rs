use discord_stream_rs::utils::{normalize_video_codec, parse_u64, VideoCodec};

#[test]
fn normalize_codec_names() {
    assert_eq!(normalize_video_codec("h264").unwrap(), VideoCodec::H264);
    assert_eq!(normalize_video_codec("avc1").unwrap(), VideoCodec::H264);
    assert_eq!(normalize_video_codec("H265").unwrap(), VideoCodec::H265);
    assert_eq!(normalize_video_codec("hevc").unwrap(), VideoCodec::H265);
    assert_eq!(normalize_video_codec("vp8").unwrap(), VideoCodec::Vp8);
    assert_eq!(normalize_video_codec("VP9").unwrap(), VideoCodec::Vp9);
    assert_eq!(normalize_video_codec("av1").unwrap(), VideoCodec::Av1);
}

#[test]
fn normalize_unknown_codec() {
    let e = normalize_video_codec("theora").unwrap_err();
    assert_eq!(e.0, "theora");
}

#[test]
fn video_codec_names() {
    assert_eq!(VideoCodec::H264.to_string(), "H264");
    assert_eq!(VideoCodec::H265.to_string(), "H265");
    assert_eq!(VideoCodec::Vp8.to_string(), "VP8");
    assert_eq!(VideoCodec::Vp9.to_string(), "VP9");
    assert_eq!(VideoCodec::Av1.to_string(), "AV1");
}

#[test]
fn parse_decimal_u64() {
    assert_eq!(parse_u64("123"), Some(123));
    assert_eq!(parse_u64("+5"), Some(5));
    assert_eq!(parse_u64("0"), Some(0));
    assert_eq!(parse_u64("18446744073709551615"), Some(u64::MAX));
    assert_eq!(parse_u64("18446744073709551616"), None);
    assert_eq!(parse_u64(""), None);
    assert_eq!(parse_u64("+"), None);
    assert_eq!(parse_u64("-1"), None);
    assert_eq!(parse_u64("12a"), None);
    for s in ["42", "+7", "", "x", "99999999999999999999"] {
        assert_eq!(parse_u64(s), s.parse::<u64>().ok());
    }
}

#[test]
fn codec_names_read_back() {
    for c in [VideoCodec::H264, VideoCodec::H265, VideoCodec::Vp8, VideoCodec::Vp9, VideoCodec::Av1] {
        assert_eq!(normalize_video_codec(&c.to_string()).unwrap(), c);
        let lower: String = c.to_string().to_ascii_lowercase();
        assert_eq!(normalize_video_codec(&lower).unwrap(), c);
    }
}
