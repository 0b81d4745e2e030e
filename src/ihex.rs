//! The record type and its mathematical model.
use vstd::prelude::*;
use crate::types;

verus! {

/// One record of an Intel HEX image.
#[derive(Debug, PartialEq, Eq)]
pub enum IHex {
    /// `length` bytes of memory content, loaded at `offset`.
    Data { bytes: Vec<u8>, length: u8, offset: u16 },
    /// The end of the image.
    EndOfFile,
    /// Segment base for the data records that follow.
    ExtendedSegmentAddress(u16),
    /// Segmented start vector.
    StartSegmentAddress { cs: u16, ip: u16 },
    /// Upper 16 bits of the 32-bit load address.
    ExtendedLinearAddress(u16),
    /// Linear start vector.
    StartLinearAddress(u32),
}

/// Model of an [`IHex`]: the same record with its payload as a sequence.
pub enum IHexView {
    Data { bytes: Seq<u8>, length: u8, offset: u16 },
    EndOfFile,
    ExtendedSegmentAddress(u16),
    StartSegmentAddress { cs: u16, ip: u16 },
    ExtendedLinearAddress(u16),
    StartLinearAddress(u32),
}

impl View for IHex {
    type V = IHexView;

    open spec fn view(&self) -> IHexView {
        match self {
            IHex::Data { bytes, length, offset } => IHexView::Data {
                bytes: bytes@,
                length: *length,
                offset: *offset,
            },
            IHex::EndOfFile => IHexView::EndOfFile,
            IHex::ExtendedSegmentAddress(a) => IHexView::ExtendedSegmentAddress(*a),
            IHex::StartSegmentAddress { cs, ip } => IHexView::StartSegmentAddress {
                cs: *cs,
                ip: *ip,
            },
            IHex::ExtendedLinearAddress(a) => IHexView::ExtendedLinearAddress(*a),
            IHex::StartLinearAddress(a) => IHexView::StartLinearAddress(*a),
        }
    }
}

/// The two bytes of `x`, most significant first.
pub open spec fn be16_bytes(x: u16) -> Seq<u8> {
    seq![(x / 256) as u8, (x % 256) as u8]
}

/// The four bytes of `x`, most significant first.
pub open spec fn be32_bytes(x: u32) -> Seq<u8> {
    seq![(x / 0x100_0000) as u8, ((x / 0x1_0000) % 256) as u8, ((x / 256) % 256) as u8, (x % 256) as u8]
}

/// The 16-bit number whose big-endian bytes are `hi`, `lo`.
pub open spec fn be16_value(hi: u8, lo: u8) -> u16 {
    (hi * 256 + lo) as u16
}

/// The 32-bit number whose big-endian bytes are `b[0..4]`.
pub open spec fn be32_value(b: Seq<u8>) -> u32 {
    (b[0] * 0x100_0000 + b[1] * 0x1_0000 + b[2] * 256 + b[3]) as u32
}

impl IHexView {
    /// The declared length of a data record matches its payload.
    pub open spec fn wf(self) -> bool {
        match self {
            IHexView::Data { bytes, length, .. } => bytes.len() == length,
            _ => true,
        }
    }

    /// The record-type byte, a function of the variant alone.
    pub open spec fn record_type(self) -> u8 {
        match self {
            IHexView::Data { .. } => types::DATA,
            IHexView::EndOfFile => types::END_OF_FILE,
            IHexView::ExtendedSegmentAddress(_) => types::EXTENDED_SEGMENT_ADDRESS,
            IHexView::StartSegmentAddress { .. } => types::START_SEGMENT_ADDRESS,
            IHexView::ExtendedLinearAddress(_) => types::EXTENDED_LINEAR_ADDRESS,
            IHexView::StartLinearAddress(_) => types::START_LINEAR_ADDRESS,
        }
    }

    /// The payload bytes that the record carries on the wire.
    pub open spec fn wire_payload(self) -> Seq<u8> {
        match self {
            IHexView::Data { bytes, .. } => bytes,
            IHexView::EndOfFile => Seq::empty(),
            IHexView::ExtendedSegmentAddress(a) => be16_bytes(a),
            IHexView::StartSegmentAddress { cs, ip } => be16_bytes(cs) + be16_bytes(ip),
            IHexView::ExtendedLinearAddress(a) => be16_bytes(a),
            IHexView::StartLinearAddress(a) => be32_bytes(a),
        }
    }

    /// The load offset field on the wire: zero except for data records.
    pub open spec fn wire_offset(self) -> u16 {
        match self {
            IHexView::Data { offset, .. } => offset,
            _ => 0,
        }
    }
}

impl IHex {
    /// The declared length of a data record matches its payload.
    pub open spec fn wf(&self) -> bool {
        self@.wf()
    }

    /// The record-type byte of this record's variant.
    pub fn record_type(&self) -> (r: u8)
        ensures
            r == self@.record_type(),
    {
        match self {
            Self::Data { .. } => types::DATA,
            Self::EndOfFile => types::END_OF_FILE,
            Self::ExtendedSegmentAddress(_) => types::EXTENDED_SEGMENT_ADDRESS,
            Self::StartSegmentAddress { .. } => types::START_SEGMENT_ADDRESS,
            Self::ExtendedLinearAddress(_) => types::EXTENDED_LINEAR_ADDRESS,
            Self::StartLinearAddress(_) => types::START_LINEAR_ADDRESS,
        }
    }
}

} // verus!
