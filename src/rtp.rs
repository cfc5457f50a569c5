//! The RTP fixed header and the receiver's port pair.
use crate::bytes::append_from;
use vstd::prelude::*;

verus! {

pub const NAL_UNIT_TYPE_NON_IDR: u8 = 1;
pub const NAL_UNIT_TYPE_PARTITION_A: u8 = 2;
pub const NAL_UNIT_TYPE_PARTITION_B: u8 = 3;
pub const NAL_UNIT_TYPE_PARTITION_C: u8 = 4;
/// Instantaneous decoder refresh.
pub const NAL_UNIT_TYPE_IDR: u8 = 5;
pub const NAL_UNIT_TYPE_SEI: u8 = 6;
pub const NAL_UNIT_TYPE_SPS: u8 = 7;
pub const NAL_UNIT_TYPE_PPS: u8 = 8;
pub const NAL_UNIT_TYPE_AUD: u8 = 9;
pub const NAL_UNIT_TYPE_END_OF_SEQUENCE: u8 = 10;
pub const NAL_UNIT_TYPE_END_OF_STREAM: u8 = 11;
pub const NAL_UNIT_TYPE_FILLER_DATA: u8 = 12;
pub const NAL_UNIT_TYPE_SPS_EXT: u8 = 13;

/// The length of the fixed RTP header.
pub const RTP_HEADER_LEN: usize = 12;

/// The fields of the fixed 12-byte RTP header.
#[derive(Debug, Clone, Copy, PartialEq, Eq)]
pub struct RTPHeader {
    pub version: u8,
    pub padding: u8,
    pub extension: u8,
    pub csrc_count: u8,
    pub marker: u8,
    pub payload_type: u8,
    pub sequence_number: u16,
    pub timestamp: u32,
    pub ssrc: u32,
}

/// A big-endian 32-bit number from four bytes.
pub open spec fn be_u32(a: u8, b: u8, c: u8, d: u8) -> int {
    ((a as int * 256 + b as int) * 256 + c as int) * 256 + d as int
}

/// The header that the first 12 bytes of `data` hold.
pub open spec fn header_of(data: Seq<u8>) -> RTPHeader {
    RTPHeader {
        version: data[0] / 64,
        padding: (data[0] / 32) % 2,
        extension: (data[0] / 16) % 2,
        csrc_count: data[0] % 16,
        marker: data[1] / 128,
        payload_type: data[1] % 128,
        sequence_number: (data[2] as int * 256 + data[3] as int) as u16,
        timestamp: be_u32(data[4], data[5], data[6], data[7]) as u32,
        ssrc: be_u32(data[8], data[9], data[10], data[11]) as u32,
    }
}

fn read_be_u32(a: u8, b: u8, c: u8, d: u8) -> (r: u32)
    ensures
        r as int == be_u32(a, b, c, d),
{
    ((a as u32 * 256 + b as u32) * 256 + c as u32) * 256 + d as u32
}

/// The local port pair that RTP and RTCP datagrams arrive on.
pub struct RTPReceiver {
    rtp_port: u16,
    rtcp_port: u16,
}

impl View for RTPReceiver {
    /// The RTP port and the RTCP port.
    type V = (u16, u16);

    closed spec fn view(&self) -> (u16, u16) {
        (self.rtp_port, self.rtcp_port)
    }
}

impl RTPReceiver {
    /// Parses the fixed header at the start of `data`. CSRC entries and header extensions
    /// are not parsed: what follows byte 12 counts as payload.
    pub fn parse_rtp_header(&self, data: &[u8]) -> (r: RTPHeader)
        requires
            data@.len() >= 12,
        ensures
            r == header_of(data@),
    {
        RTPHeader {
            version: data[0] / 64,
            padding: (data[0] / 32) % 2,
            extension: (data[0] / 16) % 2,
            csrc_count: data[0] % 16,
            marker: data[1] / 128,
            payload_type: data[1] % 128,
            sequence_number: data[2] as u16 * 256 + data[3] as u16,
            timestamp: read_be_u32(data[4], data[5], data[6], data[7]),
            ssrc: read_be_u32(data[8], data[9], data[10], data[11]),
        }
    }

    /// Splits one received datagram into its header and its payload (the bytes after the
    /// first 12). A datagram shorter than the header gives `None`.
    pub fn receive(&self, datagram: &[u8]) -> (r: Option<(RTPHeader, Vec<u8>)>)
        ensures
            datagram@.len() < 12 ==> r is None,
            datagram@.len() >= 12 ==> (r matches Some((h, p)) && h == header_of(datagram@) && p@
                == datagram@.skip(12)),
    {
        if datagram.len() < RTP_HEADER_LEN {
            return None;
        }
        let header = self.parse_rtp_header(datagram);
        let mut payload: Vec<u8> = Vec::new();
        append_from(&mut payload, datagram, RTP_HEADER_LEN);
        Some((header, payload))
    }

    /// A receiver whose RTP port is `rtp_port` and whose RTCP port is the next one; `None`
    /// when `rtp_port` is the last port number.
    pub fn new(rtp_port: u16) -> (r: Option<RTPReceiver>)
        ensures
            rtp_port < u16::MAX ==> (r matches Some(x) && x@ == (rtp_port, (rtp_port + 1) as u16)),
            rtp_port == u16::MAX ==> r is None,
    {
        if rtp_port == u16::MAX {
            None
        } else {
            Some(RTPReceiver { rtp_port, rtcp_port: rtp_port + 1 })
        }
    }

    pub fn get_rtp_port(&self) -> (r: u16)
        ensures
            r == self@.0,
    {
        self.rtp_port
    }

    pub fn get_rtcp_port(&self) -> (r: u16)
        ensures
            r == self@.1,
    {
        self.rtcp_port
    }
}

} // verus!
