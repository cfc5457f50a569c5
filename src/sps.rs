//! Sequence parameter set parsing: the fields up to the scaling matrices.
use crate::bitstream::{
    bits_of, bits_value, lemma_bits_value_bound, read_flag_spec, read_ue_spec, BitReader,
};
use vstd::arithmetic::power2::lemma2_to64;
use vstd::prelude::*;

verus! {

/// The profile named by `profile_idc`.
#[derive(Debug, Clone, Copy, PartialEq, Eq)]
pub enum Profile {
    Baseline,
    Main,
    Extended,
    High,
    /// Any other value, kept as it was read.
    Unrecognized(u8),
}

pub open spec fn profile_of(idc: u8) -> Profile {
    if idc == 66 {
        Profile::Baseline
    } else if idc == 77 {
        Profile::Main
    } else if idc == 88 {
        Profile::Extended
    } else if idc == 100 {
        Profile::High
    } else {
        Profile::Unrecognized(idc)
    }
}

/// The profiles whose parameter sets carry the chroma format and bit depth fields.
pub open spec fn has_high_fields(idc: u8) -> bool {
    idc == 100 || idc == 110 || idc == 122 || idc == 244 || idc == 44 || idc == 83 || idc == 86
        || idc == 118 || idc == 128 || idc == 138 || idc == 139 || idc == 134 || idc == 135
}

/// The fields that the high profiles add.
#[derive(Debug, Clone, Copy, PartialEq, Eq)]
pub struct SpsHighFields {
    pub chroma_format_idc: u32,
    /// Present only when `chroma_format_idc` is 3; false otherwise.
    pub separate_colour_plane_flag: bool,
    pub bit_depth_luma_minus8: u32,
    pub bit_depth_chroma_minus8: u32,
    pub qpprime_y_zero_transform_bypass_flag: bool,
    pub seq_scaling_matrix_present_flag: bool,
}

/// The leading fields of a sequence parameter set.
#[derive(Debug, Clone, Copy, PartialEq, Eq)]
pub struct Sps {
    pub profile_idc: u8,
    pub constraint_set0_flag: bool,
    pub constraint_set1_flag: bool,
    pub constraint_set2_flag: bool,
    pub constraint_set3_flag: bool,
    pub constraint_set4_flag: bool,
    pub constraint_set5_flag: bool,
    pub reserved_zero_2bits: u8,
    pub level_idc: u8,
    pub seq_parameter_set_id: u32,
    /// Present exactly when the profile is one of the high profiles.
    pub high: Option<SpsHighFields>,
}

/// The high-profile block that starts at `pos`. When the scaling matrix is present, one
/// presence flag per scaling list (12 with 4:4:4 chroma, else 8) must follow; the lists
/// themselves are not parsed.
pub open spec fn parse_high_spec(bits: Seq<bool>, pos: int) -> Option<SpsHighFields> {
    match read_ue_spec(bits, pos) {
        None => None,
        Some((chroma, after_chroma)) => {
            let sep = if chroma == 3 {
                read_flag_spec(bits, after_chroma)
            } else {
                Some((false, after_chroma))
            };
            match sep {
                None => None,
                Some((separate, after_plane)) => match read_ue_spec(bits, after_plane) {
                    None => None,
                    Some((luma, after_luma)) => match read_ue_spec(bits, after_luma) {
                        None => None,
                        Some((chroma_depth, after_depth)) => match read_flag_spec(bits, after_depth) {
                            None => None,
                            Some((bypass, after_bypass)) => match read_flag_spec(bits, after_bypass) {
                                None => None,
                                Some((scaling, after_scaling)) => {
                                    let lists: int = if chroma == 3 {
                                        12
                                    } else {
                                        8
                                    };
                                    if scaling && after_scaling + lists > bits.len() {
                                        None
                                    } else {
                                        Some(
                                            SpsHighFields {
                                                chroma_format_idc: chroma as u32,
                                                separate_colour_plane_flag: separate,
                                                bit_depth_luma_minus8: luma as u32,
                                                bit_depth_chroma_minus8: chroma_depth as u32,
                                                qpprime_y_zero_transform_bypass_flag: bypass,
                                                seq_scaling_matrix_present_flag: scaling,
                                            },
                                        )
                                    }
                                },
                            },
                        },
                    },
                },
            }
        },
    }
}

/// A sequence parameter set NAL unit, header byte first: the header is skipped, then come
/// profile_idc (8 bits), six constraint flags and two reserved bits, level_idc (8 bits),
/// seq_parameter_set_id (ue), and for the high profiles the block of `parse_high_spec`.
pub open spec fn parse_sps_spec(payload: Seq<u8>) -> Option<Sps> {
    let bits = bits_of(payload);
    if bits.len() < 32 {
        None
    } else {
        match read_ue_spec(bits, 32) {
            None => None,
            Some((id, p)) => {
                let profile_idc = bits_value(bits, 8, 8) as u8;
                let high = if has_high_fields(profile_idc) {
                    parse_high_spec(bits, p)
                } else {
                    None
                };
                if has_high_fields(profile_idc) && high is None {
                    None
                } else {
                    Some(
                        Sps {
                            profile_idc,
                            constraint_set0_flag: bits[16],
                            constraint_set1_flag: bits[17],
                            constraint_set2_flag: bits[18],
                            constraint_set3_flag: bits[19],
                            constraint_set4_flag: bits[20],
                            constraint_set5_flag: bits[21],
                            reserved_zero_2bits: bits_value(bits, 22, 2) as u8,
                            level_idc: bits_value(bits, 24, 8) as u8,
                            seq_parameter_set_id: id as u32,
                            high,
                        },
                    )
                }
            },
        }
    }
}

impl Sps {
    /// The profile that `profile_idc` names.
    pub fn profile(&self) -> (r: Profile)
        ensures
            r == profile_of(self.profile_idc),
    {
        match self.profile_idc {
            66 => Profile::Baseline,
            77 => Profile::Main,
            88 => Profile::Extended,
            100 => Profile::High,
            idc => Profile::Unrecognized(idc),
        }
    }
}

fn is_high_profile(idc: u8) -> (r: bool)
    ensures
        r == has_high_fields(idc),
{
    idc == 100 || idc == 110 || idc == 122 || idc == 244 || idc == 44 || idc == 83 || idc == 86
        || idc == 118 || idc == 128 || idc == 138 || idc == 139 || idc == 134 || idc == 135
}

fn read_u8(br: &mut BitReader, n: usize) -> (r: Option<u8>)
    requires
        n <= 8,
    ensures
        final(br).bits() == old(br).bits(),
        match crate::bitstream::read_bits_spec(old(br).bits(), old(br).pos(), n as nat) {
            Some((v, p)) => r == Some(v as u8) && final(br).pos() == p,
            None => r is None,
        },
{
    let ghost bits = br.bits();
    let ghost pos = br.pos();
    let v = br.read_bits(n);
    proof {
        lemma_bits_value_bound(bits, pos, n as nat);
        lemma2_to64();
        if n < 8 {
            vstd::arithmetic::power2::lemma_pow2_strictly_increases(n as nat, 8);
        }
    }
    match v {
        Some(x) => Some(x as u8),
        None => None,
    }
}

fn parse_high(br: &mut BitReader) -> (r: Option<SpsHighFields>)
    ensures
        final(br).bits() == old(br).bits(),
        r == parse_high_spec(old(br).bits(), old(br).pos()),
{
    let ghost expected = parse_high_spec(br.bits(), br.pos());
    let chroma_format_idc = br.read_ue()?;
    let separate_colour_plane_flag = if chroma_format_idc == 3 {
        br.read_flag()?
    } else {
        false
    };
    let bit_depth_luma_minus8 = br.read_ue()?;
    let bit_depth_chroma_minus8 = br.read_ue()?;
    let qpprime_y_zero_transform_bypass_flag = br.read_flag()?;
    let seq_scaling_matrix_present_flag = br.read_flag()?;
    if seq_scaling_matrix_present_flag {
        let lists: usize = if chroma_format_idc == 3 {
            12
        } else {
            8
        };
        let ghost bits = br.bits();
        let ghost start = br.pos();
        let mut i: usize = 0;
        while i < lists
            invariant
                i <= lists,
                bits == old(br).bits(),
                expected == parse_high_spec(old(br).bits(), old(br).pos()),
                start + lists > bits.len() ==> expected is None,
                br.bits() == bits,
                br.pos() == start + i,
                0 <= start,
                start + i <= bits.len(),
            decreases lists - i,
        {
            let _seq_scaling_list_present_flag = br.read_flag()?;
            i = i + 1;
        }
    }
    Some(
        SpsHighFields {
            chroma_format_idc,
            separate_colour_plane_flag,
            bit_depth_luma_minus8,
            bit_depth_chroma_minus8,
            qpprime_y_zero_transform_bypass_flag,
            seq_scaling_matrix_present_flag,
        },
    )
}

/// Parses a sequence parameter set NAL unit (header byte included). A read past the end of
/// the payload gives `None`.
pub fn decode_sps(payload: &[u8]) -> (r: Option<Sps>)
    ensures
        r == parse_sps_spec(payload@),
{
    let mut br = BitReader::new(payload);
    let _nal_header = read_u8(&mut br, 8)?;
    let profile_idc = read_u8(&mut br, 8)?;
    let constraint_set0_flag = br.read_flag()?;
    let constraint_set1_flag = br.read_flag()?;
    let constraint_set2_flag = br.read_flag()?;
    let constraint_set3_flag = br.read_flag()?;
    let constraint_set4_flag = br.read_flag()?;
    let constraint_set5_flag = br.read_flag()?;
    let reserved_zero_2bits = read_u8(&mut br, 2)?;
    let level_idc = read_u8(&mut br, 8)?;
    let seq_parameter_set_id = br.read_ue()?;
    let high = if is_high_profile(profile_idc) {
        Some(parse_high(&mut br)?)
    } else {
        None
    };
    Some(
        Sps {
            profile_idc,
            constraint_set0_flag,
            constraint_set1_flag,
            constraint_set2_flag,
            constraint_set3_flag,
            constraint_set4_flag,
            constraint_set5_flag,
            reserved_zero_2bits,
            level_idc,
            seq_parameter_set_id,
            high,
        },
    )
}

} // verus!
