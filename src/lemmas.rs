//! Facts that relate the encoder, the decoder and the checksum.
use vstd::prelude::*;
use crate::checksum::{byte_sum, checksum_of};
use crate::error::ParseError;
use crate::hex_text::{hex_encoded, is_hex_digit, lemma_hex_decode_encoded};
use crate::ihex::{be16_bytes, be16_value, be32_bytes, be32_value, IHexView};
use crate::parser::{parse_frame, parse_spec, record_from, MARKER};
use crate::serializer::{frame_body, frame_of, line_of};

verus! {

proof fn lemma_be16(x: u16)
    ensures
        be16_value(be16_bytes(x)[0], be16_bytes(x)[1]) == x,
{
}

proof fn lemma_be32(x: u32)
    ensures
        be32_value(be32_bytes(x)) == x,
{
}

/// The decoded frame of a well-formed record is split back into its type,
/// wire offset and wire payload.
proof fn lemma_frame_fields(r: IHexView)
    requires
        r.wf(),
    ensures
        parse_frame(frame_of(r)) == record_from(r.record_type(), r.wire_offset(), r.wire_payload()),
{
    let f = frame_of(r);
    let body = frame_body(r);
    let p = r.wire_payload();
    assert(f.drop_last() =~= body);
    assert(f.subrange(4, f.len() - 1) =~= p);
    assert(p.len() <= 255);
    assert(f[0] == p.len() as u8);
    lemma_be16(r.wire_offset());
    assert(f[1] == be16_bytes(r.wire_offset())[0]);
    assert(f[2] == be16_bytes(r.wire_offset())[1]);
    assert(f[3] == r.record_type());
}

/// The record that `record_from` rebuilds from the fields of `r` is `r`.
proof fn lemma_record_from_fields(r: IHexView)
    requires
        r.wf(),
    ensures
        record_from(r.record_type(), r.wire_offset(), r.wire_payload()) == Ok::<IHexView, ParseError>(r),
{
    match r {
        IHexView::ExtendedSegmentAddress(a) => lemma_be16(a),
        IHexView::StartSegmentAddress { cs, ip } => {
            lemma_be16(cs);
            lemma_be16(ip);
            let p = r.wire_payload();
            assert(p[0] == be16_bytes(cs)[0] && p[1] == be16_bytes(cs)[1]);
            assert(p[2] == be16_bytes(ip)[0] && p[3] == be16_bytes(ip)[1]);
        },
        IHexView::ExtendedLinearAddress(a) => lemma_be16(a),
        IHexView::StartLinearAddress(a) => lemma_be32(a),
        _ => {},
    }
}

/// Decoding the line of a well-formed record gives that record back.
pub proof fn lemma_round_trip(r: IHexView)
    requires
        r.wf(),
    ensures
        parse_spec(line_of(r)) == Ok::<IHexView, ParseError>(r),
{
    let f = frame_of(r);
    lemma_hex_decode_encoded(f);
    assert(line_of(r).drop_first() =~= hex_encoded(f));
    lemma_frame_fields(r);
    lemma_record_from_fields(r);
}

/// A line that is empty or does not begin with `:` is rejected as such.
pub proof fn lemma_missing_marker(line: Seq<u8>)
    requires
        line.len() == 0 || line[0] != MARKER,
    ensures
        parse_spec(line) == Err::<IHexView, ParseError>(ParseError::MissingMarker),
{
}

/// A line that begins with `:` followed by an odd number of characters, or by
/// a character that is not a hex digit, is rejected as malformed hex.
pub proof fn lemma_malformed_hex(line: Seq<u8>)
    requires
        line.len() > 0,
        line[0] == MARKER,
        (line.len() - 1) % 2 == 1 || exists|i: int|
            1 <= i < line.len() && !is_hex_digit(#[trigger] line[i]),
    ensures
        parse_spec(line) == Err::<IHexView, ParseError>(ParseError::MalformedHex),
{
    if (line.len() - 1) % 2 != 1 {
        let i = choose|i: int| 1 <= i < line.len() && !is_hex_digit(#[trigger] line[i]);
        assert(line.drop_first()[i - 1] == line[i]);
    }
}

/// Changing one byte of a sequence changes its sum by the difference.
pub proof fn lemma_byte_sum_update(s: Seq<u8>, i: int, v: u8)
    requires
        0 <= i < s.len(),
    ensures
        byte_sum(s.update(i, v)) + s[i] == byte_sum(s) + v,
    decreases s.len(),
{
    let t = s.update(i, v);
    if i == s.len() - 1 {
        assert(t.drop_last() =~= s.drop_last());
    } else {
        assert(t.drop_last() =~= s.drop_last().update(i, v));
        lemma_byte_sum_update(s.drop_last(), i, v);
    }
}

/// Changing one byte of a sequence changes its checksum.
pub proof fn lemma_checksum_detects_change(s: Seq<u8>, i: int, v: u8)
    requires
        0 <= i < s.len(),
        v != s[i],
    ensures
        checksum_of(s.update(i, v)) != checksum_of(s),
{
    lemma_byte_sum_update(s, i, v);
    let a = byte_sum(s);
    let b = byte_sum(s.update(i, v));
    assert(b % 256 != a % 256) by {
        assert(b + s[i] == a + v);
    }
}

/// Replacing any byte but the checksum of a frame that passes the checksum
/// test makes its line fail that test, which reports the checksum computed
/// over the altered bytes and the one on the line.
pub proof fn lemma_tampered_byte(f: Seq<u8>, i: int, v: u8)
    requires
        f.len() >= 5,
        checksum_of(f.drop_last()) == f.last(),
        0 <= i < f.len() - 1,
        v != f[i],
    ensures
        ({
            let g = f.update(i, v);
            parse_spec(seq![MARKER] + hex_encoded(g)) == Err::<IHexView, ParseError>(
                ParseError::BadChecksum(checksum_of(g.drop_last()), g.last()),
            )
        }),
{
    let g = f.update(i, v);
    assert(g.drop_last() =~= f.drop_last().update(i, v));
    lemma_checksum_detects_change(f.drop_last(), i, v);
    lemma_hex_decode_encoded(g);
    assert((seq![MARKER] + hex_encoded(g)).drop_first() =~= hex_encoded(g));
}

/// A line whose frame passes the checksum test but whose length byte differs
/// from the number of payload bytes is rejected as a length mismatch.
pub proof fn lemma_declared_length_mismatch(f: Seq<u8>)
    requires
        f.len() >= 5,
        checksum_of(f.drop_last()) == f.last(),
        f[0] as int != f.len() - 5,
    ensures
        parse_spec(seq![MARKER] + hex_encoded(f)) == Err::<IHexView, ParseError>(
            ParseError::LengthMismatch,
        ),
{
    lemma_hex_decode_encoded(f);
    assert((seq![MARKER] + hex_encoded(f)).drop_first() =~= hex_encoded(f));
}

/// A line whose frame passes the checksum and length tests but whose type
/// byte is above 5 is rejected as an unknown record type.
pub proof fn lemma_unknown_record_type(f: Seq<u8>)
    requires
        f.len() >= 5,
        checksum_of(f.drop_last()) == f.last(),
        f[0] as int == f.len() - 5,
        f[3] >= 6,
    ensures
        parse_spec(seq![MARKER] + hex_encoded(f)) == Err::<IHexView, ParseError>(
            ParseError::UnknownRecordType,
        ),
{
    lemma_hex_decode_encoded(f);
    assert((seq![MARKER] + hex_encoded(f)).drop_first() =~= hex_encoded(f));
}

/// No line whose digits spell more than the largest record (260 bytes:
/// header, 255 payload bytes, checksum) decodes to a record.
pub proof fn lemma_overlong_rejected(line: Seq<u8>)
    requires
        line.len() > 2 * 260 + 1,
    ensures
        parse_spec(line) is Err,
{
}

} // verus!
