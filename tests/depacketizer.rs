use rtsp_client::{classify, nal_unit_type, parse_fu_header, Depacketizer, NalKind};

#[test]
fn fu_a_three_fragments_reassemble() {
    let mut d = Depacketizer::new();
    // indicator: ref_idc 3, type 28; the fragmented unit has type 5
    assert_eq!(d.push(&[0x7C, 0x85, 1, 2]), None);
    assert_eq!(d.push(&[0x7C, 0x05, 3, 4]), None);
    assert_eq!(d.push(&[0x7C, 0x45, 5]), Some(vec![0, 0, 1, 0x65, 1, 2, 3, 4, 5]));
    // the run is over: a stray end fragment is dropped
    assert_eq!(d.push(&[0x7C, 0x45, 6]), None);
}

#[test]
fn fu_a_header_rebuilt_from_indicator_and_fu_type() {
    let mut d = Depacketizer::new();
    // ref_idc 1, original type 7
    assert_eq!(d.push(&[0x3C, 0xC7, 0xAB]), Some(vec![0, 0, 1, 0x27, 0xAB]));
}

#[test]
fn single_units_are_emitted_verbatim() {
    for t in 1u8..=13 {
        let mut d = Depacketizer::new();
        let payload = [0x60 | t, 0xAA, 0xBB];
        assert_eq!(d.push(&payload), Some(vec![0, 0, 1, 0x60 | t, 0xAA, 0xBB]));
    }
}

#[test]
fn single_unit_between_fragments_keeps_the_run() {
    let mut d = Depacketizer::new();
    assert_eq!(d.push(&[0x7C, 0x81, 1]), None);
    assert_eq!(d.push(&[0x68, 0xEE]), Some(vec![0, 0, 1, 0x68, 0xEE]));
    assert_eq!(d.push(&[0x7C, 0x41, 2]), Some(vec![0, 0, 1, 0x61, 1, 2]));
}

#[test]
fn new_start_discards_unfinished_run() {
    let mut d = Depacketizer::new();
    assert_eq!(d.push(&[0x7C, 0x85, 1, 2]), None);
    assert_eq!(d.push(&[0x5C, 0x81, 9]), None);
    assert_eq!(d.push(&[0x5C, 0x41, 8]), Some(vec![0, 0, 1, 0x41, 9, 8]));
}

#[test]
fn fragment_without_start_is_dropped() {
    let mut d = Depacketizer::new();
    assert_eq!(d.push(&[0x7C, 0x05, 3, 4]), None);
    assert_eq!(d.push(&[0x7C, 0x45, 5]), None);
}

#[test]
fn other_types_give_nothing() {
    let mut d = Depacketizer::new();
    assert_eq!(d.push(&[]), None);
    assert_eq!(d.push(&[0x00, 1, 2]), None);
    assert_eq!(d.push(&[0x78, 1, 2]), None);
    assert_eq!(d.push(&[0x7D, 0x85, 1]), None);
    assert_eq!(d.push(&[0x0E, 1]), None);
    assert_eq!(d.push(&[0x1F, 1]), None);
    assert_eq!(d.push(&[0x7C]), None);
}

#[test]
fn classify_types() {
    assert_eq!(classify(0), NalKind::Unspecified);
    assert_eq!(classify(1), NalKind::SingleUnit);
    assert_eq!(classify(13), NalKind::SingleUnit);
    assert_eq!(classify(14), NalKind::Unrecognized);
    assert_eq!(classify(24), NalKind::Aggregation);
    assert_eq!(classify(27), NalKind::Aggregation);
    assert_eq!(classify(28), NalKind::FragmentA);
    assert_eq!(classify(29), NalKind::FragmentB);
    assert_eq!(classify(30), NalKind::Unrecognized);
    assert_eq!(nal_unit_type(0x67), 7);
    assert_eq!(nal_unit_type(0x7C), 28);
}

#[test]
fn fu_header_fields() {
    let h = parse_fu_header(0xA5);
    assert!(h.start);
    assert!(!h.end);
    assert!(h.reserved);
    assert_eq!(h.nal_unit_type, 5);
    let e = parse_fu_header(0x47);
    assert!(!e.start);
    assert!(e.end);
    assert!(!e.reserved);
    assert_eq!(e.nal_unit_type, 7);
}
