use discord_stream_rs::processing::{
    rewrite_sps_vui, split_nalu, try_rewrite_sps_vui, AnnexBBitstreamReader, AnnexBBitstreamWriter,
    AnnexBHelpers, H264Helpers, H264NalUnitType, H265Helpers, H265NalUnitType, START_CODE_3,
};

/// A baseline SPS with no VUI: profile 66, level 30, one reference frame.
const SPS_NO_VUI: [u8; 6] = [0x67, 0x42, 0x00, 0x1E, 0xDA, 0x79];

#[test]
fn split_nalu_with_both_start_codes() {
    let buf = [0, 0, 0, 1, 0x67, 1, 2, 0, 0, 1, 0x68, 3];
    let nalus = split_nalu(&buf);
    assert_eq!(nalus.len(), 2);
    assert_eq!(nalus[0], &[0x67, 1, 2][..]);
    assert_eq!(nalus[1], &[0x68, 3][..]);
}

#[test]
fn split_nalu_trailing_zero_before_start_code() {
    let buf = [0x65, 0, 0, 0, 1, 0x41];
    let nalus = split_nalu(&buf);
    assert_eq!(nalus, vec![&[0x65][..], &[0x41][..]]);
}

#[test]
fn split_nalu_without_start_code() {
    let buf = [9, 8, 7];
    assert_eq!(split_nalu(&buf), vec![&[9, 8, 7][..]]);
    assert!(split_nalu(&[]).is_empty());
}

#[test]
fn start_code() {
    assert_eq!(START_CODE_3, [0, 0, 1]);
}

#[test]
fn h264_nal_unit_types() {
    assert_eq!(H264Helpers::nal_unit_type(&[0x67]), 7);
    assert_eq!(H264NalUnitType::Sps.as_u8(), 7);
    assert_eq!(H264NalUnitType::from_u8(5), Some(H264NalUnitType::CodedSliceIdr));
    assert_eq!(H264NalUnitType::from_u8(40), None);
    assert!(H264Helpers::is_aud(9));
    assert!(!H264Helpers::is_aud(7));
    let (h, p) = H264Helpers::split_header(&[0x67, 1, 2]);
    assert_eq!(h, &[0x67][..]);
    assert_eq!(p, &[1, 2][..]);
}

#[test]
fn h265_nal_unit_types() {
    assert_eq!(H265Helpers::nal_unit_type(&[0x40, 0x01]), 32);
    assert_eq!(H265NalUnitType::VPS_NUT.as_u8(), 32);
    assert_eq!(H265NalUnitType::from_u8(35), Some(H265NalUnitType::AUD_NUT));
    assert!(H265Helpers::is_aud(35));
    let (h, p) = H265Helpers::split_header(&[0x40, 0x01, 5]);
    assert_eq!(h, &[0x40, 0x01][..]);
    assert_eq!(p, &[5][..]);
}

#[test]
fn reader_reads_bits_and_codes() {
    // 1 | 010 | 011 | 00100 | 0 ... : ue 0, ue 1, ue 2, ue 3
    let buf = [0b1010_0110, 0b0100_0000];
    let mut r = AnnexBBitstreamReader::new(&buf);
    assert_eq!(r.read_ue(), 0);
    assert_eq!(r.read_ue(), 1);
    assert_eq!(r.read_ue(), 2);
    assert_eq!(r.read_ue(), 3);
    let buf = [0xAB, 0xCD];
    let mut r = AnnexBBitstreamReader::new(&buf);
    assert_eq!(r.read_bits(4), 0xA);
    assert_eq!(r.read_bits(8), 0xBC);
    assert_eq!(r.read_bits(4), 0xD);
}

#[test]
fn reader_skips_emulation_prevention() {
    let buf = [0x00, 0x00, 0x03, 0x01];
    let mut r = AnnexBBitstreamReader::new(&buf);
    assert_eq!(r.read_bits(24), 0x000001);
}

#[test]
fn reader_signed_codes() {
    // se: 1 -> 0, 010 -> 1, 011 -> -1
    let buf = [0b1010_0110];
    let mut r = AnnexBBitstreamReader::new(&buf);
    assert_eq!(r.read_se(), 0);
    assert_eq!(r.read_se(), 1);
    assert_eq!(r.read_se(), -1);
}

#[test]
fn writer_writes_codes_and_escapes() {
    let mut w = AnnexBBitstreamWriter::new();
    w.write_ue(0);
    w.write_ue(1);
    w.write_ue(2);
    w.write_ue(3);
    w.flush_final();
    assert_eq!(w.to_vec(), vec![0b1010_0110, 0b0100_0000]);

    let mut w = AnnexBBitstreamWriter::new();
    w.write_bits(0x000001, 24);
    assert_eq!(w.to_vec(), vec![0x00, 0x00, 0x03, 0x01]);
}

#[test]
fn writer_then_reader_round_trip() {
    let values: [u32; 6] = [0, 1, 7, 255, 65535, 1_000_000];
    let signed: [i32; 4] = [0, -3, 12, -100_000];
    let mut w = AnnexBBitstreamWriter::new();
    for v in values {
        w.write_ue(v);
    }
    for v in signed {
        w.write_se(v);
    }
    w.write_bits(0, 16);
    w.flush_final();
    let bytes = w.to_vec();
    let mut r = AnnexBBitstreamReader::new(&bytes);
    for v in values {
        assert_eq!(r.read_ue(), v);
    }
    for v in signed {
        assert_eq!(r.read_se(), v);
    }
}

#[test]
fn rewrite_sps_without_vui() {
    let out = rewrite_sps_vui(&SPS_NO_VUI);
    assert_eq!(out, vec![0x67, 0x42, 0x00, 0x1E, 0xDA, 0x7A, 0x01, 0xB4, 0x11, 0x08, 0xD4]);
    assert_eq!(try_rewrite_sps_vui(&SPS_NO_VUI), Some(out));
}

#[test]
fn rewritten_sps_has_no_reordering() {
    let out = rewrite_sps_vui(&SPS_NO_VUI);
    let mut r = AnnexBBitstreamReader::new(&out[1..]);
    assert_eq!(r.read_bits(8), 66);
    assert_eq!(r.read_bits(8), 0);
    assert_eq!(r.read_bits(8), 30);
    assert_eq!(r.read_ue(), 0); // seq_parameter_set_id
    assert_eq!(r.read_ue(), 0); // log2_max_frame_num_minus4
    assert_eq!(r.read_ue(), 2); // pic_order_cnt_type
    assert_eq!(r.read_ue(), 1); // max_num_ref_frames
    assert_eq!(r.read_bits(1), 0);
    assert_eq!(r.read_ue(), 0);
    assert_eq!(r.read_ue(), 0);
    assert_eq!(r.read_bits(1), 1);
    assert_eq!(r.read_bits(1), 1);
    assert_eq!(r.read_bits(1), 0); // no cropping
    assert_eq!(r.read_bits(1), 1); // VUI present
    assert_eq!(r.read_bits(8), 0); // nothing up to the restriction
    assert_eq!(r.read_bits(1), 1); // bitstream restriction present
    assert_eq!(r.read_bits(1), 1);
    assert_eq!(r.read_ue(), 2);
    assert_eq!(r.read_ue(), 1);
    assert_eq!(r.read_ue(), 16);
    assert_eq!(r.read_ue(), 16);
    assert_eq!(r.read_ue(), 0); // max_num_reorder_frames
    assert_eq!(r.read_ue(), 1); // max_dec_frame_buffering
    assert_eq!(r.read_bits(1), 1); // stop bit
}

#[test]
fn rewriting_twice_changes_nothing_more() {
    let once = rewrite_sps_vui(&SPS_NO_VUI);
    let twice = rewrite_sps_vui(&once);
    assert_eq!(once, twice);
}

#[test]
fn truncated_sps_is_refused() {
    assert_eq!(try_rewrite_sps_vui(&[0x67, 0x42]), None);
    assert_eq!(try_rewrite_sps_vui(&[]), None);
}

#[test]
fn signed_fields_round_trip() {
    let mut w = AnnexBBitstreamWriter::new();
    w.write_signed(-1, 4);
    w.flush_final();
    let bytes = w.to_vec();
    assert_eq!(bytes, vec![0xF0]);
    assert_eq!(AnnexBBitstreamReader::new(&bytes).read_signed(4), -1);
    assert_eq!(AnnexBBitstreamReader::new(&[0x70]).read_signed(4), 7);
    let mut w = AnnexBBitstreamWriter::new();
    w.write_ue(3);
    w.flush_final();
    let bytes = w.to_vec();
    assert_eq!(bytes, vec![0x20]);
    assert_eq!(AnnexBBitstreamReader::new(&bytes).read_ue(), 3);
}
