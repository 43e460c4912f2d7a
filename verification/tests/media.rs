use discord_stream_rs::media::demuxer::{
    audio_packet_duration, parse_opus_duration, route_packet, select_streams, ContainerFormat,
    DemuxError, PacketRoute, StreamCodec, StreamMedium, StreamProbe,
};
use discord_stream_rs::media::encoders::nvenc::{decimal_string, NvencEncoders, NvencPreset, NvencSettings};
use discord_stream_rs::media::encoders::software::{
    SoftwareEncoders, X264Settings, X264Tune, X265Settings, X265Tune, X26xPreset,
};
use discord_stream_rs::media::encoders::vaapi::{VaapiEncoders, VaapiSettings};

fn probe(index: usize, medium: StreamMedium, codec: StreamCodec) -> StreamProbe {
    StreamProbe { index, medium, codec }
}

#[test]
fn container_names() {
    assert_eq!(ContainerFormat::Matroska.as_str(), "matroska");
    assert_eq!(ContainerFormat::Nut.as_str(), "nut");
}

#[test]
fn opus_durations() {
    assert_eq!(parse_opus_duration(&[]), 0);
    assert_eq!(parse_opus_duration(&[0x00]), 480); // SILK 10 ms, one frame
    assert_eq!(parse_opus_duration(&[0x08 | 1]), 1920); // SILK 20 ms, two frames
    assert_eq!(parse_opus_duration(&[0x18, 0]), 2880); // SILK 60 ms
    assert_eq!(parse_opus_duration(&[0x60 | 2]), 960); // hybrid 10 ms, two frames
    assert_eq!(parse_opus_duration(&[0x80]), 120); // CELT 2.5 ms
    assert_eq!(parse_opus_duration(&[0xF8]), 960); // CELT 20 ms
    assert_eq!(parse_opus_duration(&[0xF8 | 3, 0x05]), 4800); // code 3, five frames
    assert_eq!(parse_opus_duration(&[0x03]), 0); // code 3 without a count
    assert_eq!(parse_opus_duration(&[0x03, 0xC2]), 960); // count is the low six bits
    assert_eq!(audio_packet_duration(0, &[0xF8]), 960);
    assert_eq!(audio_packet_duration(123, &[0xF8]), 123);
}

#[test]
fn first_streams_are_chosen() {
    let streams = [
        probe(0, StreamMedium::Other, StreamCodec::Other(99)),
        probe(1, StreamMedium::Audio, StreamCodec::Opus),
        probe(2, StreamMedium::Video, StreamCodec::Vp9),
        probe(3, StreamMedium::Video, StreamCodec::Other(7)),
        probe(4, StreamMedium::Audio, StreamCodec::Other(8)),
    ];
    let sel = select_streams(&streams).unwrap();
    assert_eq!(sel.video, Some(2));
    assert_eq!(sel.audio, Some(1));
}

#[test]
fn unsupported_codecs_are_refused() {
    let streams = [probe(0, StreamMedium::Video, StreamCodec::Other(7))];
    assert!(matches!(select_streams(&streams), Err(DemuxError::UnsupportedVideoCodec(StreamCodec::Other(7)))));
    let streams = [probe(0, StreamMedium::Audio, StreamCodec::H264)];
    assert!(matches!(select_streams(&streams), Err(DemuxError::UnsupportedAudioCodec(StreamCodec::H264))));
    assert!(matches!(select_streams(&[]), Err(DemuxError::NoStreams)));
    let streams = [probe(0, StreamMedium::Other, StreamCodec::Opus)];
    assert!(matches!(select_streams(&streams), Err(DemuxError::NoStreams)));
    let streams = [probe(0, StreamMedium::Video, StreamCodec::Av1)];
    let sel = select_streams(&streams).unwrap();
    assert_eq!((sel.video, sel.audio), (Some(0), None));
}

#[test]
fn packets_are_routed_by_stream() {
    assert_eq!(route_packet(2, Some(2), Some(1)), PacketRoute::Video);
    assert_eq!(route_packet(1, Some(2), Some(1)), PacketRoute::Audio);
    assert_eq!(route_packet(0, Some(2), Some(1)), PacketRoute::Skip);
    assert_eq!(route_packet(0, None, None), PacketRoute::Skip);
}

fn opts(v: &[String]) -> Vec<&str> {
    v.iter().map(|s| s.as_str()).collect()
}

#[test]
fn software_encoders() {
    let e = SoftwareEncoders::build(
        Some(X264Settings { preset: X26xPreset::Veryfast, tune: X264Tune::Zerolatency }),
        None,
    );
    assert_eq!(e.h264.name, "libx264");
    assert_eq!(opts(&e.h264.options), vec!["-forced-idr 1", "-tune zerolatency", "-preset veryfast"]);
    assert_eq!(e.h265.name, "libx265");
    assert_eq!(opts(&e.h265.options), vec!["-forced-idr 1", "-preset superfast"]);
    assert_eq!(e.vp8.name, "libvpx");
    assert_eq!(opts(&e.vp8.options), vec!["-deadline 20000"]);
    assert_eq!(e.vp9.name, "libvpx-vp9");
    assert_eq!(e.av1.name, "libsvtav1");
    assert!(e.av1.options.is_empty());
    let e = SoftwareEncoders::build(None, Some(X265Settings { preset: X26xPreset::Slow, tune: Some(X265Tune::Grain) }));
    assert_eq!(opts(&e.h265.options), vec!["-forced-idr 1", "-preset slow", "-tune grain"]);
    assert_eq!(opts(&e.h264.options), vec!["-forced-idr 1", "-tune film", "-preset superfast"]);
    let d = SoftwareEncoders::default();
    assert_eq!(opts(&d.h264.options), vec!["-forced-idr 1", "-tune film", "-preset superfast"]);
}

#[test]
fn nvenc_encoders() {
    let e = NvencEncoders::build(NvencSettings {
        preset: NvencPreset::P4,
        spatial_aq: true,
        temporal_aq: false,
        gpu: Some(0),
    });
    assert_eq!(e.h264.name, "h264_nvenc");
    assert_eq!(e.h265.name, "hevc_nvenc");
    assert_eq!(e.av1.name, "av1_nvenc");
    assert_eq!(opts(&e.h264.options), vec!["-preset p4", "-spatial-aq 1", "-temporal-aq 0", "-gpu 0"]);
    assert_eq!(opts(&e.av1.options), opts(&e.h264.options));
    let d = NvencEncoders::default();
    assert_eq!(opts(&d.h265.options), vec!["-preset p4", "-spatial-aq 0", "-temporal-aq 0"]);
    let e = NvencEncoders::build(NvencSettings { preset: NvencPreset::P7, spatial_aq: false, temporal_aq: true, gpu: Some(12) });
    assert_eq!(opts(&e.h265.options), vec!["-preset p7", "-spatial-aq 0", "-temporal-aq 1", "-gpu 12"]);
    assert_eq!(NvencPreset::default(), NvencPreset::P4);
}

#[test]
fn decimal_text() {
    assert_eq!(decimal_string(0), "0");
    assert_eq!(decimal_string(7), "7");
    assert_eq!(decimal_string(1234), "1234");
    assert_eq!(decimal_string(u32::MAX), u32::MAX.to_string());
}

#[test]
fn vaapi_encoders() {
    let e = VaapiEncoders::build(VaapiSettings { device: "/dev/dri/renderD128".to_string() });
    assert_eq!(e.h264.name, "h264_vaapi");
    assert_eq!(e.h265.name, "hevc_vaapi");
    assert_eq!(e.av1.name, "av1_vaapi");
    assert_eq!(opts(&e.h264.global_options), vec!["-vaapi_device", "/dev/dri/renderD128"]);
    assert_eq!(e.h264.out_filters, vec!["format=nv12|vaapi", "hwupload"]);
    assert!(e.h264.options.is_empty());
    let e = VaapiEncoders::build(VaapiSettings { device: "/dev/dri/renderD129".to_string() });
    assert_eq!(opts(&e.av1.global_options), vec!["-vaapi_device", "/dev/dri/renderD129"]);
    let d = VaapiEncoders::default();
    assert_eq!(opts(&d.h265.global_options), vec!["-vaapi_device", "/dev/dri/renderD128"]);
    assert_eq!(VaapiSettings::default().device, "/dev/dri/renderD128");
}
