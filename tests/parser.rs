use ihex::{IHex, Parser};

#[test]
fn parser_parse_data() {
    let expected = [
        0x61, 0x64, 0x64, 0x72, 0x65, 0x73, 0x73, 0x20, 0x67, 0x61, 0x70,
    ];
    let data = IHex::Data {
        bytes: expected.to_vec(),
        length: expected.len() as u8,
        offset: 0x0010,
    };

    assert_eq!(":0B0010006164647265737320676170A7".parse(), Ok(data));
}

#[test]
fn parser_parse_eof() {
    let eof = IHex::EndOfFile;

    assert_eq!(":00000001FF".parse(), Ok(eof));
}

#[test]
fn parser_parse_extended_segment_address() {
    let esa = IHex::ExtendedSegmentAddress(0x12FE);

    assert_eq!(":0200000212FEEC".parse(), Ok(esa));
}

#[test]
fn parser_parse_start_segment_address() {
    let ssa = IHex::StartSegmentAddress {
        cs: 0x1234,
        ip: 0x3800,
    };

    assert_eq!(":04000003123438007B".parse(), Ok(ssa));
}

#[test]
fn parser_parse_extended_linear_address() {
    let ela = IHex::ExtendedLinearAddress(0xABCD);

    assert_eq!(":02000004ABCD82".parse(), Ok(ela));
}

#[test]
fn parser_parse_start_linear_address() {
    let sla = IHex::StartLinearAddress(0x12345678);

    assert_eq!(":0400000512345678E3".parse(), Ok(sla));
}

#[test]
fn multi_line_parser() {
    let ela = IHex::ExtendedLinearAddress(0xABCD);
    let sla = IHex::StartLinearAddress(0x12345678);

    let mut parser = Parser::new(":02000004ABCD82\r\n\r\n:0400000512345678E3\r\n");

    assert_eq!(parser.next(), Some(Ok(ela)));
    assert_eq!(parser.next(), Some(Ok(sla)));
    assert_eq!(parser.next(), None)
}
