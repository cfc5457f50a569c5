//! An RTSP control client and RTP/H.264 receive pipeline: the RTSP handshake as a
//! state machine, the RTP fixed header, FU-A reassembly into Annex-B units, and an
//! Exp-Golomb bit reader with a sequence parameter set parser on top of it.
pub mod bitstream;
pub mod bytes;
pub mod depacketizer;
pub mod rtp;
pub mod rtsp;
pub mod sps;
pub mod text;

pub use bitstream::BitReader;
pub use depacketizer::{classify, nal_unit_type, parse_fu_header, Depacketizer, FuHeader, NalKind};
pub use rtp::{
    RTPHeader, RTPReceiver, NAL_UNIT_TYPE_AUD, NAL_UNIT_TYPE_END_OF_SEQUENCE,
    NAL_UNIT_TYPE_END_OF_STREAM, NAL_UNIT_TYPE_FILLER_DATA, NAL_UNIT_TYPE_IDR,
    NAL_UNIT_TYPE_NON_IDR, NAL_UNIT_TYPE_PARTITION_A, NAL_UNIT_TYPE_PARTITION_B,
    NAL_UNIT_TYPE_PARTITION_C, NAL_UNIT_TYPE_PPS, NAL_UNIT_TYPE_SEI, NAL_UNIT_TYPE_SPS,
    NAL_UNIT_TYPE_SPS_EXT,
};
pub use rtsp::{server_port_of, split_credentials, RTSPClient, RtspError, RtspState};
pub use sps::{decode_sps, Profile, Sps, SpsHighFields};
