//! Encoding a record into its text line.
use vstd::prelude::*;
use crate::checksum::{checksum, checksum_of};
use crate::error::EncodeError;
use crate::hex_text::{encode_hex_to, hex_encoded};
use crate::ihex::{be16_bytes, IHex, IHexView};
use crate::parser::MARKER;

verus! {

/// Header and payload of the record `r`, before the checksum.
pub open spec fn frame_body(r: IHexView) -> Seq<u8> {
    seq![r.wire_payload().len() as u8]
        + be16_bytes(r.wire_offset())
        + seq![r.record_type()]
        + r.wire_payload()
}

/// All bytes of the record `r` on the wire, checksum last.
pub open spec fn frame_of(r: IHexView) -> Seq<u8> {
    frame_body(r).push(checksum_of(frame_body(r)))
}

/// The text line of the record `r`: the marker, then two lowercase hex digits
/// per byte of its frame.
pub open spec fn line_of(r: IHexView) -> Seq<u8> {
    seq![MARKER] + hex_encoded(frame_of(r))
}

/// Appends the big-endian bytes of `x` to `v`.
fn push_be16(v: &mut Vec<u8>, x: u16)
    ensures
        final(v)@ == old(v)@ + be16_bytes(x),
{
    v.push((x / 256) as u8);
    v.push((x % 256) as u8);
    assert(final(v)@ =~= old(v)@ + be16_bytes(x));
}

/// Writes the line of a record with type `record_type`, wire offset `offset`
/// and payload `data` to the front of `buffer`.
fn format(record_type: u8, offset: u16, data: &[u8], buffer: &mut [u8]) -> (r: Result<
    usize,
    EncodeError,
>)
    requires
        data@.len() <= 255,
    ensures
        ({
            let body = seq![data@.len() as u8] + be16_bytes(offset) + seq![record_type] + data@;
            let line = seq![MARKER] + hex_encoded(body.push(checksum_of(body)));
            &&& final(buffer)@.len() == old(buffer)@.len()
            &&& r is Err <==> old(buffer)@.len() < line.len()
            &&& r is Err ==> final(buffer)@ == old(buffer)@
            &&& r matches Ok(n) ==> n == line.len() && final(buffer)@ == line + old(buffer)@.subrange(
                n as int,
                old(buffer)@.len() as int,
            )
        }),
{
    let frame_length = data.len() + 5;
    let line_length = 2 * frame_length + 1;
    if buffer.len() < line_length {
        return Err(EncodeError::BufferTooSmall);
    }
    let mut bytes: Vec<u8> = Vec::new();
    bytes.push(data.len() as u8);
    push_be16(&mut bytes, offset);
    bytes.push(record_type);
    let mut i: usize = 0;
    while i < data.len()
        invariant
            i <= data@.len(),
            bytes@ == seq![data@.len() as u8] + be16_bytes(offset) + seq![record_type]
                + data@.subrange(0, i as int),
        decreases data@.len() - i,
    {
        bytes.push(data[i]);
        i = i + 1;
        assert(bytes@ =~= seq![data@.len() as u8] + be16_bytes(offset) + seq![record_type]
            + data@.subrange(0, i as int));
    }
    assert(data@.subrange(0, data@.len() as int) == data@);
    let sum = checksum(bytes.as_slice());
    bytes.push(sum);
    let ghost before = buffer@;
    buffer[0] = MARKER;
    match encode_hex_to(bytes.as_slice(), buffer, 1, line_length) {
        Ok(()) => {
            assert(buffer@ =~= seq![MARKER] + hex_encoded(bytes@) + before.subrange(
                line_length as int,
                before.len() as int,
            ));
            Ok(line_length)
        },
        Err(_) => Err(EncodeError::BufferTooSmall),
    }
}

impl IHex {
    /// Writes the text line of this record to the front of `buffer` and
    /// returns its length; fails, leaving `buffer` as it was, where the line
    /// does not fit.
    pub fn serialize(&self, buffer: &mut [u8]) -> (r: Result<usize, EncodeError>)
        requires
            self.wf(),
        ensures
            final(buffer)@.len() == old(buffer)@.len(),
            r is Err <==> old(buffer)@.len() < line_of(self@).len(),
            r is Err ==> final(buffer)@ == old(buffer)@,
            r matches Ok(n) ==> n == line_of(self@).len() && final(buffer)@ == line_of(self@)
                + old(buffer)@.subrange(n as int, old(buffer)@.len() as int),
    {
        let record_type = self.record_type();
        match self {
            Self::Data { bytes, offset, .. } => format(record_type, *offset, bytes.as_slice(), buffer),
            Self::EndOfFile => {
                let empty: Vec<u8> = Vec::new();
                assert(empty@ =~= self@.wire_payload());
                format(record_type, 0, empty.as_slice(), buffer)
            },
            Self::ExtendedSegmentAddress(address) => {
                let mut v: Vec<u8> = Vec::new();
                push_be16(&mut v, *address);
                assert(v@ =~= self@.wire_payload());
                format(record_type, 0, v.as_slice(), buffer)
            },
            Self::StartSegmentAddress { cs, ip } => {
                let mut v: Vec<u8> = Vec::new();
                push_be16(&mut v, *cs);
                push_be16(&mut v, *ip);
                assert(v@ =~= self@.wire_payload());
                format(record_type, 0, v.as_slice(), buffer)
            },
            Self::ExtendedLinearAddress(address) => {
                let mut v: Vec<u8> = Vec::new();
                push_be16(&mut v, *address);
                assert(v@ =~= self@.wire_payload());
                format(record_type, 0, v.as_slice(), buffer)
            },
            Self::StartLinearAddress(address) => {
                let mut v: Vec<u8> = Vec::new();
                push_be16(&mut v, (*address / 0x1_0000) as u16);
                push_be16(&mut v, (*address % 0x1_0000) as u16);
                assert(v@ =~= self@.wire_payload());
                format(record_type, 0, v.as_slice(), buffer)
            },
        }
    }

    /// The text line of this record, in a buffer of its own.
    pub fn encode(&self) -> (r: Vec<u8>)
        requires
            self.wf(),
        ensures
            r@ == line_of(self@),
    {
        let size = 2 * (self.payload_len() + 5) + 1;
        let mut line: Vec<u8> = vec![0u8; size];
        match self.serialize(line.as_mut_slice()) {
            Ok(_) => {
                assert(line@ =~= line_of(self@));
            },
            Err(_) => {},
        }
        line
    }

    /// The number of payload bytes that this record carries on the wire.
    fn payload_len(&self) -> (n: usize)
        requires
            self.wf(),
        ensures
            n == self@.wire_payload().len(),
            n <= 255,
    {
        match self {
            Self::Data { length, .. } => *length as usize,
            Self::EndOfFile => 0,
            Self::ExtendedSegmentAddress(_) | Self::ExtendedLinearAddress(_) => 2,
            Self::StartSegmentAddress { .. } | Self::StartLinearAddress(_) => 4,
        }
    }
}

} // verus!
