//! Decoding one text line into a record.
use vstd::prelude::*;
use vstd::slice::{slice_subrange, slice_to_vec};
use vstd::string::StringSliceAdditionalSpecFns;
use crate::checksum::{checksum, checksum_of};
use crate::error::ParseError;
use crate::hex_text::{decode_hex_to, hex_decoded, is_hex_text};
use crate::ihex::{be16_value, be32_value, IHex, IHexView};
use crate::lines::{lemma_line_end_bounds, line_at, line_end, lines_from, lines_of, lemma_non_blank_skip, non_blank, skip_blank, CARRIAGE_RETURN, LINE_FEED};
use crate::types;

verus! {

/// The record marker `:` that starts every line.
pub const MARKER: u8 = 0x3a;

/// Header (length, two offset bytes, type) plus trailing checksum byte.
pub const FRAME_OVERHEAD: usize = 5;

/// The model of a decoding result.
pub open spec fn result_view(r: Result<IHex, ParseError>) -> Result<IHexView, ParseError> {
    match r {
        Ok(rec) => Ok(rec@),
        Err(e) => Err(e),
    }
}

/// The number of payload bytes that a record of type `tag` (1 to 5) carries.
pub open spec fn address_width(tag: u8) -> nat {
    if tag == types::END_OF_FILE {
        0
    } else if tag == types::START_SEGMENT_ADDRESS || tag == types::START_LINEAR_ADDRESS {
        4
    } else {
        2
    }
}

/// The record of type `tag` at `offset` whose payload is `p`.
pub open spec fn record_from(tag: u8, offset: u16, p: Seq<u8>) -> Result<IHexView, ParseError> {
    if tag == types::DATA {
        Ok(IHexView::Data { bytes: p, length: p.len() as u8, offset })
    } else if tag > types::START_LINEAR_ADDRESS {
        Err(ParseError::UnknownRecordType)
    } else if p.len() != address_width(tag) {
        Err(ParseError::LengthMismatch)
    } else if tag == types::END_OF_FILE {
        Ok(IHexView::EndOfFile)
    } else if tag == types::EXTENDED_SEGMENT_ADDRESS {
        Ok(IHexView::ExtendedSegmentAddress(be16_value(p[0], p[1])))
    } else if tag == types::START_SEGMENT_ADDRESS {
        Ok(IHexView::StartSegmentAddress { cs: be16_value(p[0], p[1]), ip: be16_value(p[2], p[3]) })
    } else if tag == types::EXTENDED_LINEAR_ADDRESS {
        Ok(IHexView::ExtendedLinearAddress(be16_value(p[0], p[1])))
    } else {
        Ok(IHexView::StartLinearAddress(be32_value(p)))
    }
}

/// The record that the decoded bytes `f` of a line stand for: length byte,
/// big-endian offset, type byte, payload, checksum byte.
pub open spec fn parse_frame(f: Seq<u8>) -> Result<IHexView, ParseError> {
    if f.len() == 0 {
        Err(ParseError::LengthMismatch)
    } else if checksum_of(f.drop_last()) != f.last() {
        Err(ParseError::BadChecksum(checksum_of(f.drop_last()), f.last()))
    } else if f.len() < FRAME_OVERHEAD || f[0] as int != f.len() - FRAME_OVERHEAD {
        Err(ParseError::LengthMismatch)
    } else {
        record_from(f[3], be16_value(f[1], f[2]), f.subrange(4, f.len() - 1))
    }
}

/// The record that the text line `line` stands for.
pub open spec fn parse_spec(line: Seq<u8>) -> Result<IHexView, ParseError> {
    if line.len() == 0 || line[0] != MARKER {
        Err(ParseError::MissingMarker)
    } else if !is_hex_text(line.drop_first()) {
        Err(ParseError::MalformedHex)
    } else {
        parse_frame(hex_decoded(line.drop_first()))
    }
}

fn be16_from(hi: u8, lo: u8) -> (r: u16)
    ensures
        r == be16_value(hi, lo),
{
    hi as u16 * 256 + lo as u16
}

impl IHex {
    /// Decodes one line (without its line ending) into a record.
    pub fn parse(line: &[u8]) -> (r: Result<IHex, ParseError>)
        ensures
            result_view(r) == parse_spec(line@),
            r matches Ok(rec) ==> rec.wf(),
    {
        if line.len() == 0 || line[0] != MARKER {
            return Err(ParseError::MissingMarker);
        }
        let body = slice_subrange(line, 1, line.len());
        assert(body@ == line@.drop_first());
        let mut bytes: Vec<u8> = vec![0u8; body.len() / 2];
        if decode_hex_to(body, bytes.as_mut_slice()).is_err() {
            return Err(ParseError::MalformedHex);
        }
        assert(bytes@ == hex_decoded(line@.drop_first()));
        let n = bytes.len();
        if n == 0 {
            return Err(ParseError::LengthMismatch);
        }
        let expected = bytes[n - 1];
        let computed = checksum(slice_subrange(bytes.as_slice(), 0, n - 1));
        assert(bytes@.subrange(0, n - 1) == bytes@.drop_last());
        if computed != expected {
            return Err(ParseError::BadChecksum(computed, expected));
        }
        if n < FRAME_OVERHEAD {
            return Err(ParseError::LengthMismatch);
        }
        let length = bytes[0];
        if length as usize != n - FRAME_OVERHEAD {
            return Err(ParseError::LengthMismatch);
        }
        let offset = be16_from(bytes[1], bytes[2]);
        let record_type = bytes[3];
        let data = slice_subrange(bytes.as_slice(), 4, n - 1);
        if record_type == types::DATA {
            return Ok(IHex::Data { bytes: slice_to_vec(data), length, offset });
        }
        if record_type > types::START_LINEAR_ADDRESS {
            return Err(ParseError::UnknownRecordType);
        }
        let width: usize = if record_type == types::END_OF_FILE {
            0
        } else if record_type == types::START_SEGMENT_ADDRESS || record_type
            == types::START_LINEAR_ADDRESS {
            4
        } else {
            2
        };
        if data.len() != width {
            return Err(ParseError::LengthMismatch);
        }
        if record_type == types::END_OF_FILE {
            Ok(IHex::EndOfFile)
        } else if record_type == types::EXTENDED_SEGMENT_ADDRESS {
            Ok(IHex::ExtendedSegmentAddress(be16_from(data[0], data[1])))
        } else if record_type == types::START_SEGMENT_ADDRESS {
            Ok(
                IHex::StartSegmentAddress {
                    cs: be16_from(data[0], data[1]),
                    ip: be16_from(data[2], data[3]),
                },
            )
        } else if record_type == types::EXTENDED_LINEAR_ADDRESS {
            Ok(IHex::ExtendedLinearAddress(be16_from(data[0], data[1])))
        } else {
            let word = data[0] as u32 * 0x100_0000 + data[1] as u32 * 0x1_0000 + data[2] as u32
                * 256 + data[3] as u32;
            Ok(IHex::StartLinearAddress(word))
        }
    }
}

impl IHex {
    /// Decodes every line of `string` that is not blank, in order.
    pub fn parse_multi(string: &str) -> (r: Vec<Result<IHex, ParseError>>)
        ensures
            r@.len() == non_blank(lines_of(string.spec_bytes())).len(),
            forall|i: int|
                0 <= i < r@.len() ==> result_view(#[trigger] r@[i]) == parse_spec(
                    non_blank(lines_of(string.spec_bytes()))[i],
                ),
    {
        let mut parser = Parser::new(string);
        let ghost all = non_blank(parser.remaining());
        let mut out: Vec<Result<IHex, ParseError>> = Vec::new();
        loop
            invariant
                parser.wf(),
                all == non_blank(lines_of(string.spec_bytes())),
                out@.len() + non_blank(parser.remaining()).len() == all.len(),
                non_blank(parser.remaining()) == all.subrange(out@.len() as int, all.len() as int),
                forall|i: int|
                    0 <= i < out@.len() ==> result_view(#[trigger] out@[i]) == parse_spec(all[i]),
            decreases non_blank(parser.remaining()).len(),
        {
            let ghost before = parser.remaining();
            let ghost k = out@.len() as int;
            proof {
                lemma_non_blank_skip(before);
            }
            match parser.next() {
                Some(result) => {
                    proof {
                        let rest = all.subrange(k, all.len() as int);
                        assert(rest[0] == all[k]);
                        assert(rest[0] == skip_blank(before)[0]);
                        assert(rest.drop_first() =~= all.subrange(k + 1, all.len() as int));
                    }
                    out.push(result);
                    assert(out@[k] == result);
                    assert(non_blank(parser.remaining()) =~= all.subrange(
                        out@.len() as int,
                        all.len() as int,
                    ));
                },
                None => {
                    return out;
                },
            }
        }
    }
}

impl core::str::FromStr for IHex {
    type Err = ParseError;

    fn from_str(s: &str) -> (r: Result<IHex, ParseError>)
        ensures
            result_view(r) == parse_spec(s.spec_bytes()),
    {
        IHex::parse(s.as_bytes())
    }
}

/// Reads the records of a text one line at a time, passing over blank lines.
pub struct Parser<'a> {
    text: &'a [u8],
    pos: usize,
}

impl<'a> Parser<'a> {
    /// The read position lies within the text.
    pub closed spec fn wf(&self) -> bool {
        self.pos <= self.text@.len()
    }

    /// The lines that are still to be read, blank ones included.
    pub closed spec fn remaining(&self) -> Seq<Seq<u8>> {
        lines_from(self.text@, self.pos as int)
    }

    /// A parser over the lines of `s`.
    pub fn new(s: &'a str) -> (r: Self)
        ensures
            r.wf(),
            r.remaining() == lines_of(s.spec_bytes()),
    {
        Parser { text: s.as_bytes(), pos: 0 }
    }

    /// Reads the next line, blank or not.
    fn take_line(&mut self) -> (line: &'a [u8])
        requires
            old(self).wf(),
            old(self).pos < old(self).text@.len(),
        ensures
            final(self).wf(),
            final(self).text == old(self).text,
            final(self).pos > old(self).pos,
            old(self).remaining().len() > 0,
            line@ == old(self).remaining()[0],
            final(self).remaining() == old(self).remaining().drop_first(),
    {
        let start = self.pos;
        let mut end = start;
        while end < self.text.len() && self.text[end] != LINE_FEED
            invariant
                start <= end <= self.text@.len(),
                self.pos == start,
                start < self.text@.len(),
                line_end(self.text@, end as int) == line_end(self.text@, start as int),
            decreases self.text@.len() - end,
        {
            end = end + 1;
        }
        proof {
            lemma_line_end_bounds(self.text@, start as int);
            assert(line_end(self.text@, end as int) == end);
        }
        let stop = if start < end && end < self.text.len() && self.text[end - 1] == CARRIAGE_RETURN {
            end - 1
        } else {
            end
        };
        let line = vstd::slice::slice_subrange(self.text, start, stop);
        self.pos = if end < self.text.len() {
            end + 1
        } else {
            end
        };
        proof {
            let s = self.text@;
            assert(line@ == line_at(s, start as int));
            if end < s.len() {
                assert(lines_from(s, start as int) == seq![line_at(s, start as int)] + lines_from(s, end + 1));
                assert(lines_from(s, start as int).drop_first() =~= lines_from(s, end + 1));
            } else {
                assert(lines_from(s, start as int).drop_first() =~= lines_from(s, end as int));
            }
        }
        line
    }

    /// Reads the next line that is not blank.
    fn next_line(&mut self) -> (line: Option<&'a [u8]>)
        requires
            old(self).wf(),
        ensures
            final(self).wf(),
            skip_blank(old(self).remaining()).len() == 0 ==> line is None && final(self).remaining().len() == 0,
            skip_blank(old(self).remaining()).len() > 0 ==> (line matches Some(l) && l@ == skip_blank(
                old(self).remaining(),
            )[0] && final(self).remaining() == skip_blank(old(self).remaining()).drop_first()),
    {
        while self.pos < self.text.len()
            invariant
                self.wf(),
                skip_blank(self.remaining()) == skip_blank(old(self).remaining()),
            decreases self.text@.len() - self.pos,
        {
            let ghost before = self.remaining();
            let line = self.take_line();
            if line.len() > 0 {
                return Some(line);
            }
            assert(skip_blank(before) == skip_blank(before.drop_first()));
        }
        None
    }

    /// Decodes the next line that is not blank, or gives `None` at the end of
    /// the text.
    pub fn next(&mut self) -> (r: Option<Result<IHex, ParseError>>)
        requires
            old(self).wf(),
        ensures
            final(self).wf(),
            skip_blank(old(self).remaining()).len() == 0 ==> r is None && final(self).remaining().len() == 0,
            skip_blank(old(self).remaining()).len() > 0 ==> (r matches Some(x) && result_view(x)
                == parse_spec(skip_blank(old(self).remaining())[0]) && final(self).remaining()
                == skip_blank(old(self).remaining()).drop_first()),
    {
        match self.next_line() {
            Some(line) => Some(IHex::parse(line)),
            None => None,
        }
    }
}

} // verus!
