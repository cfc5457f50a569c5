use rtsp_client::{RTPHeader, RTPReceiver};

#[test]
fn parse_header_fields() {
    let rx = RTPReceiver::new(50000).unwrap();
    let data = [0xB5u8, 0xE0, 0x12, 0x34, 0x01, 0x02, 0x03, 0x04, 0xDE, 0xAD, 0xBE, 0xEF, 9, 8, 7];
    let h = rx.parse_rtp_header(&data);
    let expected = RTPHeader {
        version: 2,
        padding: 1,
        extension: 1,
        csrc_count: 5,
        marker: 1,
        payload_type: 96,
        sequence_number: 0x1234,
        timestamp: 0x0102_0304,
        ssrc: 0xDEAD_BEEF,
    };
    assert_eq!(h, expected);
}

#[test]
fn receive_splits_header_and_payload() {
    let rx = RTPReceiver::new(50000).unwrap();
    let data = [0x80u8, 0x60, 0x00, 0x01, 0, 0, 0, 9, 0, 0, 0, 1, 0x65, 0xAA];
    let (h, payload) = rx.receive(&data).unwrap();
    assert_eq!(h.version, 2);
    assert_eq!(h.padding, 0);
    assert_eq!(h.marker, 0);
    assert_eq!(h.payload_type, 96);
    assert_eq!(h.sequence_number, 1);
    assert_eq!(h.timestamp, 9);
    assert_eq!(h.ssrc, 1);
    assert_eq!(payload, vec![0x65u8, 0xAA]);
}

#[test]
fn receive_header_only_gives_empty_payload() {
    let rx = RTPReceiver::new(50000).unwrap();
    let data = [0x80u8, 0x60, 0, 0, 0, 0, 0, 0, 0, 0, 0, 0];
    let (_, payload) = rx.receive(&data).unwrap();
    assert!(payload.is_empty());
}

#[test]
fn receive_short_datagram_is_none() {
    let rx = RTPReceiver::new(50000).unwrap();
    assert!(rx.receive(&[0x80u8, 0x60, 0, 1]).is_none());
    assert!(rx.receive(&[]).is_none());
}

#[test]
fn receiver_port_pair() {
    let rx = RTPReceiver::new(56788).unwrap();
    assert_eq!(rx.get_rtp_port(), 56788);
    assert_eq!(rx.get_rtcp_port(), 56789);
    assert!(RTPReceiver::new(65535).is_none());
}
