//! Turns RTP payloads into Annex-B framed NAL units, reassembling FU-A fragments.
use crate::bytes::{append, append_from};
use vstd::prelude::*;

verus! {

/// How an RTP payload is handled, by the NAL unit type in its first byte.
#[derive(Debug, Clone, Copy, PartialEq, Eq)]
pub enum NalKind {
    /// Type 0: dropped.
    Unspecified,
    /// Types 1 to 13: the payload is one whole NAL unit.
    SingleUnit,
    /// Types 24 to 27 (STAP-A, STAP-B, MTAP16, MTAP24): recognized, not split.
    Aggregation,
    /// Type 28: a fragment of a NAL unit, without decoding order number.
    FragmentA,
    /// Type 29: a fragment with decoding order number; not reassembled.
    FragmentB,
    /// Any other type: dropped.
    Unrecognized,
}

pub open spec fn kind_of(nal_type: u8) -> NalKind {
    if nal_type == 0 {
        NalKind::Unspecified
    } else if 1 <= nal_type <= 13 {
        NalKind::SingleUnit
    } else if 24 <= nal_type <= 27 {
        NalKind::Aggregation
    } else if nal_type == 28 {
        NalKind::FragmentA
    } else if nal_type == 29 {
        NalKind::FragmentB
    } else {
        NalKind::Unrecognized
    }
}

/// The three-byte Annex-B start code.
pub open spec fn start_code() -> Seq<u8> {
    seq![0u8, 0u8, 1u8]
}

/// The NAL unit type: the low five bits of a NAL header.
pub open spec fn nal_type_of(header: u8) -> u8 {
    header % 32
}

/// The fields of a fragmentation unit header byte.
#[derive(Debug, Clone, Copy, PartialEq, Eq)]
pub struct FuHeader {
    pub start: bool,
    pub end: bool,
    pub reserved: bool,
    /// The type of the NAL unit that the fragments make up.
    pub nal_unit_type: u8,
}

pub open spec fn fu_header_of(b: u8) -> FuHeader {
    FuHeader {
        start: b / 128 == 1,
        end: (b / 64) % 2 == 1,
        reserved: (b / 32) % 2 == 1,
        nal_unit_type: b % 32,
    }
}

/// The header of the reassembled unit: forbidden bit and nal_ref_idc from the FU
/// indicator, the type from the FU header.
pub open spec fn rebuilt_header(indicator: u8, fu: u8) -> u8 {
    ((indicator / 32) * 32 + fu % 32) as u8
}

/// One step of the depacketizer: from the fragment run in progress (if any) and an RTP
/// payload, the unit emitted (if any) and the run in progress afterwards.
pub open spec fn push_spec(run: Option<Seq<u8>>, payload: Seq<u8>) -> (
    Option<Seq<u8>>,
    Option<Seq<u8>>,
) {
    if payload.len() == 0 {
        (None, run)
    } else {
        let kind = kind_of(nal_type_of(payload[0]));
        if kind == NalKind::SingleUnit {
            (Some(start_code() + payload), run)
        } else if kind == NalKind::FragmentA && payload.len() >= 2 {
            let fu = fu_header_of(payload[1]);
            let current = if fu.start {
                Some(start_code().push(rebuilt_header(payload[0], payload[1])))
            } else {
                run
            };
            match current {
                None => (None, None),
                Some(buf) => {
                    let grown = buf + payload.skip(2);
                    if fu.end {
                        (Some(grown), None)
                    } else {
                        (None, Some(grown))
                    }
                },
            }
        } else {
            (None, run)
        }
    }
}

pub open spec fn bytes_view(r: Option<Vec<u8>>) -> Option<Seq<u8>> {
    match r {
        Some(v) => Some(v@),
        None => None,
    }
}

/// The kind of a NAL unit type.
pub fn classify(nal_type: u8) -> (r: NalKind)
    ensures
        r == kind_of(nal_type),
{
    if nal_type == 0 {
        NalKind::Unspecified
    } else if nal_type <= 13 {
        NalKind::SingleUnit
    } else if 24 <= nal_type && nal_type <= 27 {
        NalKind::Aggregation
    } else if nal_type == 28 {
        NalKind::FragmentA
    } else if nal_type == 29 {
        NalKind::FragmentB
    } else {
        NalKind::Unrecognized
    }
}

/// The NAL unit type of a NAL header byte.
pub fn nal_unit_type(header: u8) -> (r: u8)
    ensures
        r == nal_type_of(header),
{
    header % 32
}

/// Splits a fragmentation unit header byte into its fields.
pub fn parse_fu_header(b: u8) -> (r: FuHeader)
    ensures
        r == fu_header_of(b),
{
    FuHeader { start: b / 128 == 1, end: (b / 64) % 2 == 1, reserved: (b / 32) % 2 == 1, nal_unit_type: b % 32 }
}

/// Reassembly state: at most one fragment run is in progress.
pub struct Depacketizer {
    buffer: Vec<u8>,
    in_progress: bool,
}

impl View for Depacketizer {
    /// The Annex-B bytes gathered so far for the run in progress, if there is one.
    type V = Option<Seq<u8>>;

    closed spec fn view(&self) -> Option<Seq<u8>> {
        if self.in_progress {
            Some(self.buffer@)
        } else {
            None
        }
    }
}

impl Depacketizer {
    pub fn new() -> (r: Depacketizer)
        ensures
            r@ is None,
    {
        Depacketizer { buffer: Vec::new(), in_progress: false }
    }

    /// Takes one RTP payload and returns the Annex-B unit it completes, if any: a single
    /// unit at once, a fragmented unit when its last fragment arrives. A fragment with the
    /// start bit drops any unfinished run; a fragment with no run to continue is dropped.
    pub fn push(&mut self, payload: &[u8]) -> (r: Option<Vec<u8>>)
        ensures
            (bytes_view(r), final(self)@) == push_spec(old(self)@, payload@),
    {
        if payload.len() == 0 {
            return None;
        }
        let kind = classify(nal_unit_type(payload[0]));
        match kind {
            NalKind::SingleUnit => {
                let mut out: Vec<u8> = Vec::new();
                out.push(0);
                out.push(0);
                out.push(1);
                append(&mut out, payload);
                assert(out@ == start_code() + payload@);
                Some(out)
            },
            NalKind::FragmentA => {
                if payload.len() < 2 {
                    return None;
                }
                let fu = parse_fu_header(payload[1]);
                if fu.start {
                    let mut fresh: Vec<u8> = Vec::new();
                    fresh.push(0);
                    fresh.push(0);
                    fresh.push(1);
                    fresh.push((payload[0] / 32) * 32 + fu.nal_unit_type);
                    assert(fresh@ == start_code().push(rebuilt_header(payload[0], payload[1])));
                    self.buffer = fresh;
                    self.in_progress = true;
                }
                if !self.in_progress {
                    return None;
                }
                append_from(&mut self.buffer, payload, 2);
                if fu.end {
                    self.in_progress = false;
                    let mut out: Vec<u8> = Vec::new();
                    std::mem::swap(&mut out, &mut self.buffer);
                    Some(out)
                } else {
                    None
                }
            },
            _ => None,
        }
    }
}

/// A single-unit packet (types 1 to 13) comes out as the start code followed by the payload
/// unchanged, and leaves a fragment run in progress as it was.
pub proof fn lemma_single_unit_verbatim(run: Option<Seq<u8>>, payload: Seq<u8>)
    requires
        payload.len() >= 1,
        1 <= nal_type_of(payload[0]) <= 13,
    ensures
        push_spec(run, payload) == (Some(start_code() + payload), run),
{
}

/// A run of three FU-A fragments (start, middle, end) for a unit of type `nal_type` with
/// reference level `ref_idc` comes out, at the end fragment and only there, as the start
/// code, the rebuilt NAL header and the fragments' bytes in order; no run is left open.
pub proof fn lemma_fu_a_reassembly(
    run: Option<Seq<u8>>,
    ref_idc: u8,
    nal_type: u8,
    a: Seq<u8>,
    b: Seq<u8>,
    c: Seq<u8>,
)
    requires
        ref_idc < 4,
        nal_type < 32,
    ensures
        ({
            let indicator = (ref_idc * 32 + 28) as u8;
            let first = seq![indicator, (128 + nal_type) as u8] + a;
            let middle = seq![indicator, nal_type] + b;
            let last = seq![indicator, (64 + nal_type) as u8] + c;
            let (out1, run1) = push_spec(run, first);
            let (out2, run2) = push_spec(run1, middle);
            let (out3, run3) = push_spec(run2, last);
            &&& out1 is None
            &&& out2 is None
            &&& out3 == Some(
                start_code().push((ref_idc * 32 + nal_type) as u8) + a + b + c,
            )
            &&& run3 is None
        }),
{
    let indicator = (ref_idc * 32 + 28) as u8;
    let first = seq![indicator, (128 + nal_type) as u8] + a;
    let middle = seq![indicator, nal_type] + b;
    let last = seq![indicator, (64 + nal_type) as u8] + c;
    assert(first.skip(2) == a);
    assert(middle.skip(2) == b);
    assert(last.skip(2) == c);
    assert(rebuilt_header(indicator, (128 + nal_type) as u8) == (ref_idc * 32 + nal_type) as u8);
}

} // verus!
