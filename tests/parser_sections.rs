use wasmer::parser::{Error, Parser};

#[test]
fn preamble_accepts_magic_and_version_one() {
    let code = vec![0x00, 0x61, 0x73, 0x6d, 0x01, 0x00, 0x00, 0x00];
    let mut parser = Parser::new(&code);
    assert_eq!(parser.module_preamble(), Ok(()));
}

#[test]
fn preamble_rejects_bad_magic_and_version() {
    let code = vec![0x00, 0x61, 0x73, 0x6e, 0x01, 0x00, 0x00, 0x00];
    assert_eq!(Parser::new(&code).module_preamble(), Err(Error::InvalidMagicNumber));
    let code = vec![0x00, 0x61, 0x73, 0x6d, 0x02, 0x00, 0x00, 0x00];
    assert_eq!(Parser::new(&code).module_preamble(), Err(Error::InvalidVersionNumber));
    let code = vec![0x00, 0x61, 0x73, 0x6d, 0x01];
    assert_eq!(Parser::new(&code).module_preamble(), Err(Error::BufferEndReached));
}

#[test]
fn func_type_reads_params_and_result() {
    // (i32, i64) -> f32
    let code = vec![0x02, 0x7f, 0x7e, 0x01, 0x7d];
    let mut parser = Parser::new(&code);
    assert_eq!(parser.func_type(), Ok(()));
    assert!(parser.eat_byte().is_none());
}

#[test]
fn func_type_errors_carry_the_start() {
    let code = vec![0x00, 0x01, 0x02, 0x7f, 0x40];
    let mut parser = Parser::new(&code);
    parser.eat_bytes(2);
    assert_eq!(parser.func_type(), Err((Error::InvalidParamTypeInFunctionType, 2)));
    let code = vec![0x01, 0x7f, 0x02];
    assert_eq!(Parser::new(&code).func_type(), Err((Error::InvalidReturnCountInFunctionType, 0)));
    let code = vec![0x01, 0x7f, 0x01];
    assert_eq!(Parser::new(&code).func_type(), Err((Error::IncompleteFunctionType, 0)));
}

#[test]
fn type_section_reads_its_entries() {
    // payload 7, two entries: () -> i32 and (i32) -> ()
    let code = vec![0x07, 0x02, 0x60, 0x00, 0x01, 0x7f, 0x60, 0x01, 0x7f, 0x00];
    let mut parser = Parser::new(&code);
    assert_eq!(parser.type_section(), Ok(()));
    let code = vec![0x03, 0x02, 0x60, 0x00, 0x00];
    assert_eq!(Parser::new(&code).type_section(), Err((Error::EntriesDoNotMatchEntryCountInTypeSection, 0)));
    let code = vec![0x03, 0x01, 0x50, 0x00, 0x00];
    assert_eq!(Parser::new(&code).type_section(), Err((Error::UnsupportedTypeInTypeSection, 0)));
}

#[test]
fn custom_section_skips_name_and_payload() {
    let code = vec![0x02, 0x03, b'a', b'b', b'c', 0xaa, 0xbb, 0x09];
    let mut parser = Parser::new(&code);
    assert_eq!(parser.custom_section(), Ok(()));
    assert_eq!(parser.eat_byte(), Some(0x09));
    let code = vec![0x05, 0x01, b'a', 0x00];
    assert_eq!(Parser::new(&code).custom_section(), Err((Error::IncompleteCustomSection, 0)));
}

#[test]
fn sections_may_occur_once() {
    let code = vec![0x01, 0x01, 0x00, 0x00, 0x00, 0x00];
    assert_eq!(Parser::new(&code).module_sections(), Ok(()));
    let code = vec![0x00, 0x00, 0x00, 0x00, 0x00, 0x00];
    assert_eq!(Parser::new(&code).module_sections(), Err((Error::SectionAlreadyDefined, 3)));
    let code = vec![0x05, 0x00];
    assert_eq!(Parser::new(&code).module_sections(), Err((Error::UnsupportedSection, 0)));
    let code = vec![0x80];
    assert_eq!(Parser::new(&code).module_sections(), Err((Error::InvalidSectionId, 0)));
}

#[test]
fn varint64_reads_up_to_nine_bytes() {
    let code = vec![0x7f];
    assert_eq!(Parser::new(&code).varint64(), Ok(-1));
    let code = vec![0xff, 0xff, 0xff, 0xff, 0xff, 0xff, 0xff, 0xff, 0x7f];
    assert_eq!(Parser::new(&code).varint64(), Ok(i64::MAX));
    let code = vec![0x80, 0x80, 0x80, 0x80, 0x80, 0x80, 0x80, 0x80, 0x80];
    assert_eq!(Parser::new(&code).varint64(), Err(Error::InvalidVarint64));
    let code = vec![0xe5, 0x8e, 0x26];
    assert_eq!(Parser::new(&code).varint64(), Ok(624485));
}

#[test]
fn varuint32_keeps_the_low_bits() {
    let code = vec![0xe5, 0x8e, 0x26];
    assert_eq!(Parser::new(&code).varuint32(), Ok(624485));
    let code = vec![0xff, 0xff, 0xff, 0xff, 0x7f];
    assert_eq!(Parser::new(&code).varuint32(), Ok(u32::MAX));
}

#[test]
fn value_types_and_import_kinds() {
    let code = vec![0x7f, 0x7c, 0x7b, 0x80];
    let mut parser = Parser::new(&code);
    assert_eq!(parser.value_type(), Ok(-1));
    assert_eq!(parser.value_type(), Ok(-4));
    assert_eq!(parser.value_type(), Err(Error::InvalidValueType));
    assert_eq!(parser.value_type(), Err(Error::InvalidVarint7));
    let code = vec![0x03, 0x05];
    let mut parser = Parser::new(&code);
    assert_eq!(parser.external_kind(), Ok(3));
    assert_eq!(parser.external_kind(), Err(Error::InvalidImportType));
    assert_eq!(parser.external_kind(), Err(Error::BufferEndReached));
}

#[test]
fn little_endian_integers() {
    let code = vec![0x34, 0x12, 0x78, 0x56, 0x34, 0x12];
    let mut parser = Parser::new(&code);
    assert_eq!(parser.uint16(), Ok(0x1234));
    assert_eq!(parser.uint32(), Ok(0x12345678));
    assert_eq!(parser.varuint1(), Err(Error::BufferEndReached));
    let mut parser = Parser::new(&code);
    parser.eat_bytes(3);
    assert_eq!(parser.uint32(), Err(Error::BufferEndReached));
    assert_eq!(parser.uint16(), Ok(0x3456));
}
