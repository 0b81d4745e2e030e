use ihex::IHex;

#[test]
fn serialize_data() {
    let expected = [
        0x61, 0x64, 0x64, 0x72, 0x65, 0x73, 0x73, 0x20, 0x67, 0x61, 0x70,
    ];

    let record = IHex::Data {
        bytes: expected.to_vec(),
        length: expected.len() as u8,
        offset: 0x0010,
    };

    let mut buffer = [0; 0x200];
    let length = record.serialize(&mut buffer).unwrap();

    assert_eq!(&buffer[..length], b":0b0010006164647265737320676170a7");
}

#[test]
fn serialize_eof() {
    let record = IHex::EndOfFile;

    let mut buffer = [0; 0x200];
    let length = record.serialize(&mut buffer).unwrap();

    assert_eq!(&buffer[..length], b":00000001ff");
}

#[test]
fn serialize_extended_segment_address() {
    let record = IHex::ExtendedSegmentAddress(0x12FE);

    let mut buffer = [0; 0x200];
    let length = record.serialize(&mut buffer).unwrap();

    assert_eq!(&buffer[..length], b":0200000212feec");
}

#[test]
fn serialize_start_segment_address() {
    let record = IHex::StartSegmentAddress {
        cs: 0x1234,
        ip: 0x3800,
    };

    let mut buffer = [0; 0x200];
    let length = record.serialize(&mut buffer).unwrap();

    assert_eq!(&buffer[..length], b":04000003123438007b");
}

#[test]
fn serialize_extended_linear_address() {
    let record = IHex::ExtendedLinearAddress(0xABCD);

    let mut buffer = [0; 0x200];
    let length = record.serialize(&mut buffer).unwrap();

    assert_eq!(&buffer[..length], b":02000004abcd82");
}

#[test]
fn serialize_start_linear_address() {
    let record = IHex::StartLinearAddress(0x12345678);

    let mut buffer = [0; 0x200];
    let length = record.serialize(&mut buffer).unwrap();

    assert_eq!(&buffer[..length], b":0400000512345678e3");
}
