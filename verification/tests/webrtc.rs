use discord_stream_rs::dave::DaveHandler;
use discord_stream_rs::utils::VideoCodec;
use discord_stream_rs::voice::connection::WebRtcParams;
use discord_stream_rs::voice::webrtc::{
    configure_packetizer, dave_codec, rand_timestamp, rewrite_h264_sps_vui, try_rewrite_h264_sps_vui,
    Packetizer, RtpState, WebRtcError,
};
use discord_stream_rs::dave::DaveCodec;

fn params() -> WebRtcParams {
    WebRtcParams {
        address: "1.2.3.4".to_string(),
        port: 1,
        audio_ssrc: 0x0102_0304,
        video_ssrc: 0x0A0B_0C0D,
        rtx_ssrc: 3,
        supported_encryption_modes: vec![],
    }
}

#[test]
fn rtp_packet_header() {
    let mut st = RtpState::new(0x1122_3344, 111, 48_000);
    assert_eq!(st.clock_rate_hz(), 48_000);
    let a = st.make_packet(&[9, 9], true);
    let b = st.make_packet(&[7], false);
    assert_eq!(a.len(), 14);
    assert_eq!(a[0], 0x80);
    assert_eq!(a[1], 0x80 | 111);
    assert_eq!(&a[8..12], &[0x11, 0x22, 0x33, 0x44]);
    assert_eq!(&a[12..], &[9, 9]);
    assert_eq!(b[1], 111);
    let sa = u16::from_be_bytes([a[2], a[3]]);
    let sb = u16::from_be_bytes([b[2], b[3]]);
    assert_eq!(sb, sa.wrapping_add(1));
    assert_eq!(&a[4..8], &b[4..8]);
    st.advance_timestamp_ticks(960);
    let c = st.make_packet(&[], true);
    let ta = u32::from_be_bytes([a[4], a[5], a[6], a[7]]);
    let tc = u32::from_be_bytes([c[4], c[5], c[6], c[7]]);
    assert_eq!(tc, ta.wrapping_add(960));
    assert!(rand_timestamp() < 1_000_000_000);
}

#[test]
fn packetizer_configuration() {
    let cfg = configure_packetizer(&params(), "h264").unwrap();
    assert_eq!(cfg.codec, VideoCodec::H264);
    assert_eq!(cfg.video.clock_rate_hz(), 90_000);
    assert_eq!(cfg.audio.clock_rate_hz(), 48_000);
    match configure_packetizer(&params(), "mjpeg") {
        Err(WebRtcError::UnknownCodec(n)) => assert_eq!(n, "mjpeg"),
        _ => panic!("expected an unknown codec"),
    }
}

#[test]
fn packets_without_e2ee() {
    let mut p = Packetizer::new();
    let mut dave = DaveHandler::new(1, 2);
    assert!(matches!(p.audio_packet(&mut dave, &[1]), Err(WebRtcError::PacketizerNotConfigured)));
    assert!(matches!(p.video_packet(&mut dave, &[1]), Err(WebRtcError::PacketizerNotConfigured)));
    assert!(matches!(p.set_packetizer(&params(), "nope"), Err(WebRtcError::UnknownCodec(_))));
    p.set_packetizer(&params(), "VP8").unwrap();
    assert_eq!(p.clock_rates(), (Some(48_000), Some(90_000)));
    let a = p.audio_packet(&mut dave, &[5, 6, 7]).unwrap();
    assert_eq!(a[1], 0x80 | 120);
    assert_eq!(&a[8..12], &[1, 2, 3, 4]);
    assert_eq!(&a[12..], &[5, 6, 7]);
    let v = p.video_packet(&mut dave, &[8]).unwrap();
    assert_eq!(v[1], 0x80 | 105);
    assert_eq!(&v[8..12], &[0x0A, 0x0B, 0x0C, 0x0D]);
    assert_eq!(&v[12..], &[8]);
    let v2 = p.video_packet(&mut dave, &[8]).unwrap();
    assert_eq!(u16::from_be_bytes([v2[2], v2[3]]), u16::from_be_bytes([v[2], v[3]]).wrapping_add(1));
    p.advance_video(3000);
    p.advance_audio(960);
    p.clear();
    assert_eq!(p.clock_rates(), (None, None));
}

#[test]
fn h264_frames_get_sps_rewritten() {
    let frame = [0, 0, 0, 1, 0x67, 0x42, 0x00, 0x1E, 0xDA, 0x79, 0, 0, 1, 0x65, 0xAA];
    let out = rewrite_h264_sps_vui(&frame);
    assert_eq!(
        out,
        vec![0, 0, 0, 1, 0x67, 0x42, 0x00, 0x1E, 0xDA, 0x7A, 0x01, 0xB4, 0x11, 0x08, 0xD4, 0, 0, 0, 1, 0x65, 0xAA]
    );
    assert_eq!(try_rewrite_h264_sps_vui(&[0, 0, 1, 0x67, 0x42]), None);
    assert_eq!(try_rewrite_h264_sps_vui(&[0, 0, 1, 0x41, 1]), Some(vec![0, 0, 0, 1, 0x41, 1]));
}

#[test]
fn h264_packet_carries_rewritten_frame() {
    let mut p = Packetizer::new();
    let mut dave = DaveHandler::new(1, 2);
    p.set_packetizer(&params(), "H264").unwrap();
    let frame = [0, 0, 1, 0x67, 0x42, 0x00, 0x1E, 0xDA, 0x79];
    let v = p.video_packet(&mut dave, &frame).unwrap();
    assert_eq!(&v[12..], &[0, 0, 0, 1, 0x67, 0x42, 0x00, 0x1E, 0xDA, 0x7A, 0x01, 0xB4, 0x11, 0x08, 0xD4][..]);
}

#[test]
fn dave_codecs() {
    assert_eq!(dave_codec(VideoCodec::H264), DaveCodec::H264);
    assert_eq!(dave_codec(VideoCodec::Av1), DaveCodec::Av1);
}
