use ihex::checksum::checksum;
use ihex::{EncodeError, IHex, ParseError, Parser};

fn encode(record: &IHex) -> Vec<u8> {
    let mut buffer = [0u8; 0x240];
    let n = record.serialize(&mut buffer).unwrap();
    buffer[..n].to_vec()
}

fn samples() -> Vec<IHex> {
    vec![
        IHex::Data { bytes: vec![], length: 0, offset: 0xFFFF },
        IHex::Data { bytes: vec![0xAB; 255], length: 255, offset: 0x1234 },
        IHex::EndOfFile,
        IHex::ExtendedSegmentAddress(0),
        IHex::StartSegmentAddress { cs: 0xFFFF, ip: 0x0001 },
        IHex::ExtendedLinearAddress(0x8000),
        IHex::StartLinearAddress(0xFFFF_FFFF),
    ]
}

#[test]
fn round_trip_of_each_variant() {
    for record in samples() {
        let line = encode(&record);
        assert_eq!(IHex::parse(&line), Ok(record));
    }
}

#[test]
fn checksum_values() {
    assert_eq!(checksum(&[]), 0);
    assert_eq!(checksum(&[0x01]), 0xFF);
    assert_eq!(checksum(&[0x00, 0x00, 0x00, 0x01]), 0xFF);
    assert_eq!(checksum(&[0x80, 0x80]), 0x00);
    assert_eq!(checksum(&[0x02, 0x00, 0x00, 0x04, 0xAB, 0xCD]), 0x82);
}

#[test]
fn checksum_closes_sum() {
    let mut bytes: Vec<u8> = (0..259u32).map(|i| (i * 7 + 3) as u8).collect();
    let c = checksum(&bytes);
    bytes.push(c);
    let sum = bytes.iter().fold(0u8, |a, &b| a.wrapping_add(b));
    assert_eq!(sum, 0);
    assert_eq!(checksum(&bytes), 0);
}

#[test]
fn missing_marker() {
    assert_eq!(IHex::parse(b""), Err(ParseError::MissingMarker));
    assert_eq!(IHex::parse(b"00000001FF"), Err(ParseError::MissingMarker));
    assert_eq!(IHex::parse(b";00000001FF"), Err(ParseError::MissingMarker));
}

#[test]
fn malformed_hex() {
    assert_eq!(IHex::parse(b":00000001F"), Err(ParseError::MalformedHex));
    assert_eq!(IHex::parse(b":0000000GFF"), Err(ParseError::MalformedHex));
    assert_eq!(IHex::parse(b":00000001FF "), Err(ParseError::MalformedHex));
}

#[test]
fn bad_checksum_reports_both_bytes() {
    assert_eq!(
        IHex::parse(b":00000001FE"),
        Err(ParseError::BadChecksum(0xFF, 0xFE))
    );
    assert_eq!(
        IHex::parse(b":0200000212FFEC"),
        Err(ParseError::BadChecksum(0xEB, 0xEC))
    );
}

#[test]
fn tampering_any_byte_breaks_checksum() {
    let line = b":0400000512345678E3";
    for i in (1..line.len() - 2).step_by(2) {
        let mut tampered = line.to_vec();
        tampered[i] = if tampered[i] == b'9' { b'8' } else { b'9' };
        assert!(matches!(
            IHex::parse(&tampered),
            Err(ParseError::BadChecksum(_, 0xE3))
        ));
    }
}

#[test]
fn length_mismatch() {
    assert_eq!(IHex::parse(b":"), Err(ParseError::LengthMismatch));
    assert_eq!(IHex::parse(b":01000001FE"), Err(ParseError::LengthMismatch));
    assert_eq!(IHex::parse(b":0100000212EB"), Err(ParseError::LengthMismatch));
    assert_eq!(IHex::parse(b":0100000100FE"), Err(ParseError::LengthMismatch));
}

#[test]
fn unknown_record_type() {
    assert_eq!(IHex::parse(b":00000006FA"), Err(ParseError::UnknownRecordType));
    assert_eq!(IHex::parse(b":000000FF01"), Err(ParseError::UnknownRecordType));
}

#[test]
fn decoding_accepts_lowercase_digits() {
    assert_eq!(
        IHex::parse(b":02000004abcd82"),
        Ok(IHex::ExtendedLinearAddress(0xABCD))
    );
}

#[test]
fn record_types_follow_the_variant() {
    let tags: Vec<u8> = samples().iter().map(|r| r.record_type()).collect();
    assert_eq!(tags, vec![0, 0, 1, 2, 3, 4, 5]);
}

#[test]
fn serialize_into_too_small_buffer() {
    let mut buffer = [0x55u8; 10];
    assert_eq!(
        IHex::EndOfFile.serialize(&mut buffer),
        Err(EncodeError::BufferTooSmall)
    );
    assert_eq!(buffer, [0x55u8; 10]);

    let mut exact = [0x55u8; 12];
    assert_eq!(IHex::EndOfFile.serialize(&mut exact), Ok(11));
    assert_eq!(&exact[..11], b":00000001ff");
    assert_eq!(exact[11], 0x55);
}

#[test]
fn largest_data_record_line_length() {
    let record = IHex::Data { bytes: vec![0; 255], length: 255, offset: 0 };
    let mut buffer = vec![0u8; 521];
    assert_eq!(record.serialize(&mut buffer), Ok(521));
    let mut short = vec![0u8; 520];
    assert_eq!(record.serialize(&mut short), Err(EncodeError::BufferTooSmall));
}

#[test]
fn parse_multi_skips_blank_lines() {
    let results = IHex::parse_multi(":00000001FF\n\n\r\n:00000001FE");
    assert_eq!(
        results,
        vec![
            Ok(IHex::EndOfFile),
            Err(ParseError::BadChecksum(0xFF, 0xFE)),
        ]
    );
    assert!(IHex::parse_multi("").is_empty());
    assert!(IHex::parse_multi("\n").is_empty());
    assert_eq!(
        IHex::parse_multi("xyz\n:00000001FF"),
        vec![Err(ParseError::MissingMarker), Ok(IHex::EndOfFile)]
    );
}

#[test]
fn short_frame_checks_checksum_first() {
    assert_eq!(IHex::parse(b":01"), Err(ParseError::BadChecksum(0x00, 0x01)));
    assert_eq!(IHex::parse(b":0000"), Err(ParseError::LengthMismatch));
    assert_eq!(IHex::parse(b":01FE"), Err(ParseError::BadChecksum(0xFF, 0xFE)));
    assert_eq!(IHex::parse(b":01FF"), Err(ParseError::LengthMismatch));
}

#[test]
fn from_str_matches_parse() {
    let lines = [
        ":0b0010006164647265737320676170a7",
        "00000001FF",
        ":0000001FF",
        ":0200000212FFEC",
        ":01000001FE",
        ":00000006FA",
        ":",
        ":01",
    ];
    for line in lines {
        assert_eq!(line.parse::<IHex>(), IHex::parse(line.as_bytes()));
    }
    assert_eq!(
        ":0b0010006164647265737320676170a7".parse::<IHex>(),
        Ok(IHex::Data { bytes: b"address gap".to_vec(), length: 11, offset: 0x0010 })
    );
    assert_eq!("00000001FF".parse::<IHex>(), Err(ParseError::MissingMarker));
    assert_eq!(":0000001FF".parse::<IHex>(), Err(ParseError::MalformedHex));
    assert_eq!(":0200000212FFEC".parse::<IHex>(), Err(ParseError::BadChecksum(0xEB, 0xEC)));
    assert_eq!(":01000001FE".parse::<IHex>(), Err(ParseError::LengthMismatch));
    assert_eq!(":00000006FA".parse::<IHex>(), Err(ParseError::UnknownRecordType));
}

#[test]
fn parser_skips_blank_lines_and_continues_after_errors() {
    let mut parser = Parser::new("\n\r\nxyz\r\n:00000001FF");
    assert_eq!(parser.next(), Some(Err(ParseError::MissingMarker)));
    assert_eq!(parser.next(), Some(Ok(IHex::EndOfFile)));
    assert_eq!(parser.next(), None);
    assert_eq!(parser.next(), None);
}
