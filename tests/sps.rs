use rtsp_client::{decode_sps, Profile};

#[test]
fn baseline_sps_skips_high_fields() {
    let payload = [0x67u8, 66, 0xC0, 30, 0x80];
    let sps = decode_sps(&payload).unwrap();
    assert_eq!(sps.profile_idc, 66);
    assert_eq!(sps.profile(), Profile::Baseline);
    assert!(sps.constraint_set0_flag);
    assert!(sps.constraint_set1_flag);
    assert!(!sps.constraint_set2_flag);
    assert!(!sps.constraint_set3_flag);
    assert!(!sps.constraint_set4_flag);
    assert!(!sps.constraint_set5_flag);
    assert_eq!(sps.reserved_zero_2bits, 0);
    assert_eq!(sps.level_idc, 30);
    assert_eq!(sps.seq_parameter_set_id, 0);
    assert!(sps.high.is_none());
}

#[test]
fn high_sps_too_short_fails_cleanly() {
    let payload = [0x67u8, 100, 0x00, 40, 0x80];
    assert_eq!(decode_sps(&payload), None);
}

#[test]
fn high_sps_reads_chroma_and_bit_depths() {
    // id 0, chroma_format_idc 1, depths 0 and 0, bypass 0, scaling 0
    let payload = [0x67u8, 100, 0x00, 40, 0xAC];
    let sps = decode_sps(&payload).unwrap();
    assert_eq!(sps.profile(), Profile::High);
    let high = sps.high.unwrap();
    assert_eq!(high.chroma_format_idc, 1);
    assert!(!high.separate_colour_plane_flag);
    assert_eq!(high.bit_depth_luma_minus8, 0);
    assert_eq!(high.bit_depth_chroma_minus8, 0);
    assert!(!high.qpprime_y_zero_transform_bypass_flag);
    assert!(!high.seq_scaling_matrix_present_flag);
}

#[test]
fn high_sps_scaling_flags_must_be_present() {
    // as above with the scaling matrix present: eight list flags must follow
    let short = [0x67u8, 100, 0x00, 40, 0xAD];
    assert_eq!(decode_sps(&short), None);
    let full = [0x67u8, 100, 0x00, 40, 0xAD, 0x00];
    let high = decode_sps(&full).unwrap().high.unwrap();
    assert!(high.seq_scaling_matrix_present_flag);
}

#[test]
fn high_sps_chroma_444_reads_separate_plane_flag() {
    // id 0 (1), chroma 3 (00100), separate 1, luma 2 (011), chroma depth 0 (1), bypass 1, scaling 0
    // bits: 1 00100 1 011 1 1 0 -> 1001 0010 1111 0 + padding
    let payload = [0x67u8, 244, 0x00, 40, 0x92, 0xF0];
    let high = decode_sps(&payload).unwrap().high.unwrap();
    assert_eq!(high.chroma_format_idc, 3);
    assert!(high.separate_colour_plane_flag);
    assert_eq!(high.bit_depth_luma_minus8, 2);
    assert_eq!(high.bit_depth_chroma_minus8, 0);
    assert!(high.qpprime_y_zero_transform_bypass_flag);
    assert!(!high.seq_scaling_matrix_present_flag);
}

#[test]
fn unrecognized_profile_is_kept() {
    let payload = [0x67u8, 200, 0x00, 10, 0x40];
    let sps = decode_sps(&payload).unwrap();
    assert_eq!(sps.profile(), Profile::Unrecognized(200));
    assert_eq!(sps.seq_parameter_set_id, 1);
    assert!(sps.high.is_none());
    let main = decode_sps(&[0x67u8, 77, 0x00, 10, 0x80]).unwrap();
    assert_eq!(main.profile(), Profile::Main);
    let extended = decode_sps(&[0x67u8, 88, 0x00, 10, 0x80]).unwrap();
    assert_eq!(extended.profile(), Profile::Extended);
}

#[test]
fn constraint_and_reserved_bits_take_one_byte() {
    // flags 0b0000_0111: set5 and two reserved bits
    let payload = [0x67u8, 66, 0x07, 31, 0x80];
    let sps = decode_sps(&payload).unwrap();
    assert!(sps.constraint_set5_flag);
    assert!(!sps.constraint_set4_flag);
    assert_eq!(sps.reserved_zero_2bits, 3);
    assert_eq!(sps.level_idc, 31);
}

#[test]
fn empty_or_truncated_sps_fails() {
    assert_eq!(decode_sps(&[]), None);
    assert_eq!(decode_sps(&[0x67u8]), None);
    assert_eq!(decode_sps(&[0x67u8, 66, 0xC0, 30]), None);
}
