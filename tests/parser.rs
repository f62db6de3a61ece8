use dll_exports::bytes::{read_u16, read_u32};
use dll_exports::{
    decode_names, export_name_bytes, parse_exports, rva_to_file_offset, DllParserError,
};

const PE: usize = 0x80;
const OPT: usize = PE + 24;
const DIR_FILE: usize = 0x200;
const ARRAY_FILE: usize = 0x240;
const NAMES_FILE: usize = 0x280;
const SECTION_RVA: u32 = 0x1000;
const LEN: usize = 0x400;

fn put16(b: &mut [u8], at: usize, v: u16) {
    b[at..at + 2].copy_from_slice(&v.to_le_bytes());
}

fn put32(b: &mut [u8], at: usize, v: u32) {
    b[at..at + 4].copy_from_slice(&v.to_le_bytes());
}

fn section_table(is_64: bool) -> usize {
    OPT + if is_64 { 0xF0 } else { 0xE0 }
}

fn descriptor(is_64: bool) -> usize {
    OPT + if is_64 { 112 } else { 96 }
}

/// A one-section image whose export directory lists `names` (raw bytes) in
/// that array order.
fn image(is_64: bool, names: &[&[u8]]) -> Vec<u8> {
    let mut b = vec![0u8; LEN];
    b[0] = b'M';
    b[1] = b'Z';
    put32(&mut b, 0x3C, PE as u32);
    b[PE..PE + 4].copy_from_slice(b"PE\0\0");
    put16(&mut b, PE + 4, if is_64 { 0x8664 } else { 0x14C });
    put16(&mut b, PE + 6, 1);
    put16(&mut b, PE + 20, if is_64 { 0xF0 } else { 0xE0 });
    put16(&mut b, OPT, if is_64 { 0x20B } else { 0x10B });
    put32(&mut b, descriptor(is_64), SECTION_RVA);
    put32(&mut b, descriptor(is_64) + 4, 0x100);
    let s = section_table(is_64);
    b[s..s + 6].copy_from_slice(b".edata");
    put32(&mut b, s + 12, SECTION_RVA);
    put32(&mut b, s + 16, 0x200);
    put32(&mut b, s + 20, DIR_FILE as u32);
    put32(&mut b, DIR_FILE + 24, names.len() as u32);
    put32(&mut b, DIR_FILE + 32, SECTION_RVA + (ARRAY_FILE - DIR_FILE) as u32);
    let mut at = NAMES_FILE;
    for (i, n) in names.iter().enumerate() {
        put32(&mut b, ARRAY_FILE + 4 * i, SECTION_RVA + (at - DIR_FILE) as u32);
        b[at..at + n.len()].copy_from_slice(n);
        at += n.len() + 1;
    }
    b
}

fn names_of(b: &[u8]) -> Vec<String> {
    match parse_exports(b) {
        Ok(v) => v,
        Err(e) => panic!("parse failed: {:?}", e),
    }
}

fn is_invalid(r: Result<Vec<String>, DllParserError>) -> bool {
    matches!(r, Err(DllParserError::InvalidPeFormat))
}

#[test]
fn empty_buffer_is_invalid() {
    assert!(is_invalid(parse_exports(&[])));
}

#[test]
fn buffer_shorter_than_stub_is_invalid() {
    let b = image(true, &[b"Alpha"]);
    assert!(is_invalid(parse_exports(&b[..63])));
    let mut short = vec![0u8; 63];
    short[0] = b'M';
    short[1] = b'Z';
    assert!(is_invalid(parse_exports(&short)));
}

#[test]
fn wrong_stub_magic_is_invalid() {
    let mut b = image(true, &[b"Alpha"]);
    b[0] = b'Z';
    b[1] = b'M';
    assert!(is_invalid(parse_exports(&b)));
    let mut c = image(true, &[b"Alpha"]);
    c[1] = 0;
    assert!(is_invalid(parse_exports(&c)));
}

#[test]
fn wrong_signature_is_invalid() {
    let mut b = image(true, &[b"Alpha"]);
    b[PE + 2] = b'X';
    assert!(is_invalid(parse_exports(&b)));
}

#[test]
fn image_header_pointer_past_end_is_invalid() {
    let mut b = image(true, &[b"Alpha"]);
    put32(&mut b, 0x3C, 0xFFFF_FFF0);
    assert!(is_invalid(parse_exports(&b)));
}

#[test]
fn mismatched_magic_is_invalid() {
    let mut b = image(true, &[b"Alpha"]);
    put16(&mut b, OPT, 0x10B);
    assert!(is_invalid(parse_exports(&b)));
    let mut c = image(false, &[b"Alpha"]);
    put16(&mut c, OPT, 0x20B);
    assert!(is_invalid(parse_exports(&c)));
}

#[test]
fn zero_export_directory_gives_empty_list() {
    let mut b = image(true, &[b"Alpha"]);
    put32(&mut b, descriptor(true), 0);
    put32(&mut b, descriptor(true) + 4, 0);
    assert_eq!(names_of(&b), Vec::<String>::new());
}

#[test]
fn zero_export_size_alone_gives_empty_list() {
    let mut b = image(false, &[b"Alpha"]);
    put32(&mut b, descriptor(false) + 4, 0);
    assert_eq!(names_of(&b), Vec::<String>::new());
}

#[test]
fn export_directory_outside_sections_is_unsupported() {
    let mut b = image(true, &[b"Alpha"]);
    put32(&mut b, descriptor(true), 0x9000);
    assert!(matches!(parse_exports(&b), Err(DllParserError::UnsupportedFormat)));
}

#[test]
fn name_outside_sections_is_unsupported() {
    let mut b = image(true, &[b"Alpha", b"Beta"]);
    put32(&mut b, ARRAY_FILE + 4, 0x50);
    assert!(matches!(parse_exports(&b), Err(DllParserError::UnsupportedFormat)));
}

#[test]
fn no_sections_is_unsupported() {
    let mut b = image(true, &[b"Alpha"]);
    put16(&mut b, PE + 6, 0);
    assert!(matches!(parse_exports(&b), Err(DllParserError::UnsupportedFormat)));
}

#[test]
fn three_names_in_array_order() {
    let b = image(true, &[b"Alpha", b"Beta", b"Gamma"]);
    assert_eq!(names_of(&b), vec!["Alpha", "Beta", "Gamma"]);
}

#[test]
fn unsorted_names_keep_array_order() {
    let b = image(true, &[b"Zeta", b"Alpha"]);
    assert_eq!(names_of(&b), vec!["Zeta", "Alpha"]);
}

#[test]
fn truncated_before_stub_pointer_is_invalid() {
    let b = image(true, &[b"Alpha", b"Beta", b"Gamma"]);
    assert!(is_invalid(parse_exports(&b[..0x3F])));
}

#[test]
fn truncated_before_signature_end_is_invalid() {
    let b = image(true, &[b"Alpha", b"Beta", b"Gamma"]);
    assert!(is_invalid(parse_exports(&b[..PE + 3])));
}

#[test]
fn truncated_before_optional_magic_end_is_invalid() {
    let b = image(true, &[b"Alpha", b"Beta", b"Gamma"]);
    assert!(is_invalid(parse_exports(&b[..OPT + 1])));
}

#[test]
fn truncated_before_export_descriptor_end_is_invalid() {
    let b = image(true, &[b"Alpha", b"Beta", b"Gamma"]);
    assert!(is_invalid(parse_exports(&b[..descriptor(true) + 7])));
}

#[test]
fn truncated_before_section_descriptor_end_is_invalid() {
    let b = image(true, &[b"Alpha", b"Beta", b"Gamma"]);
    assert!(is_invalid(parse_exports(&b[..section_table(true) + 39])));
}

#[test]
fn truncated_before_export_directory_fields_is_invalid() {
    let b = image(true, &[b"Alpha", b"Beta", b"Gamma"]);
    assert!(is_invalid(parse_exports(&b[..DIR_FILE + 35])));
}

#[test]
fn truncated_before_name_pointer_entry_end_is_invalid() {
    let b = image(true, &[b"Alpha", b"Beta", b"Gamma"]);
    assert!(is_invalid(parse_exports(&b[..ARRAY_FILE + 11])));
}

#[test]
fn invalid_text_name_is_skipped() {
    let b = image(true, &[b"Alpha", &[0xFF, 0xFE, b'x'], b"Gamma"]);
    assert_eq!(names_of(&b), vec!["Alpha", "Gamma"]);
}

#[test]
fn parsing_twice_gives_the_same_list() {
    let b = image(true, &[b"Zeta", b"Alpha", b"Mid"]);
    let first = names_of(&b);
    let second = names_of(&b);
    assert_eq!(first, second);
    assert_eq!(first, vec!["Zeta", "Alpha", "Mid"]);
}

#[test]
fn word_sizes_give_the_same_list() {
    let names: &[&[u8]] = &[b"Zeta", b"Alpha", b"Gamma"];
    let b32 = image(false, names);
    let b64 = image(true, names);
    assert_eq!(names_of(&b32), names_of(&b64));
    assert_eq!(names_of(&b32), vec!["Zeta", "Alpha", "Gamma"]);
}

#[test]
fn utf8_names_are_decoded() {
    let b = image(true, &["Grüße".as_bytes(), b"Plain"]);
    assert_eq!(names_of(&b), vec!["Grüße", "Plain"]);
}

#[test]
fn name_running_to_buffer_end_is_kept() {
    let mut b = image(true, &[b"Alpha"]);
    b.truncate(NAMES_FILE + 3);
    assert_eq!(names_of(&b), vec!["Alp"]);
}

#[test]
fn name_offset_past_buffer_end_is_empty() {
    let mut b = image(true, &[b"Alpha"]);
    b.truncate(NAMES_FILE);
    assert_eq!(names_of(&b), vec![""]);
}

#[test]
fn raw_name_bytes_are_kept() {
    let b = image(true, &[b"Alpha", &[0xFF, b'y']]);
    let raw = match export_name_bytes(&b) {
        Ok(r) => r,
        Err(e) => panic!("parse failed: {:?}", e),
    };
    assert_eq!(raw, vec![b"Alpha".to_vec(), vec![0xFF, b'y']]);
}

#[test]
fn decode_names_keeps_valid_text() {
    let raw = vec![b"Ab".to_vec(), vec![0xC3], "é".as_bytes().to_vec(), Vec::new()];
    assert_eq!(decode_names(&raw), vec!["Ab".to_string(), "é".to_string(), String::new()]);
}

#[test]
fn resolver_translates_address() {
    let b = image(true, &[b"Alpha"]);
    let s = section_table(true) as u64;
    assert_eq!(rva_to_file_offset(&b, s, 1, SECTION_RVA + 0x44).ok(), Some(DIR_FILE as u64 + 0x44));
    assert_eq!(rva_to_file_offset(&b, s, 1, SECTION_RVA).ok(), Some(DIR_FILE as u64));
    assert!(matches!(
        rva_to_file_offset(&b, s, 1, SECTION_RVA + 0x200),
        Err(DllParserError::UnsupportedFormat)
    ));
    assert!(matches!(
        rva_to_file_offset(&b, s, 1, SECTION_RVA - 1),
        Err(DllParserError::UnsupportedFormat)
    ));
}

#[test]
fn resolver_first_matching_section_wins() {
    let mut b = image(true, &[b"Alpha"]);
    let s = section_table(true);
    let second = s + 40;
    put32(&mut b, second + 12, SECTION_RVA);
    put32(&mut b, second + 16, 0x200);
    put32(&mut b, second + 20, 0x300);
    assert_eq!(rva_to_file_offset(&b, s as u64, 2, SECTION_RVA + 8).ok(), Some(DIR_FILE as u64 + 8));
    put32(&mut b, s + 16, 4);
    assert_eq!(rva_to_file_offset(&b, s as u64, 2, SECTION_RVA + 8).ok(), Some(0x308));
}

#[test]
fn resolver_short_section_table_is_invalid() {
    let b = image(true, &[b"Alpha"]);
    let s = section_table(true) as u64;
    assert!(matches!(rva_to_file_offset(&b[..s as usize + 39], s, 1, SECTION_RVA), Err(DllParserError::InvalidPeFormat)));
    assert!(matches!(rva_to_file_offset(&b, LEN as u64 - 20, 3, 0x9000), Err(DllParserError::InvalidPeFormat)));
}

#[test]
fn resolver_handles_large_raw_pointer() {
    let mut b = image(true, &[b"Alpha"]);
    let s = section_table(true);
    put32(&mut b, s + 12, 0xFFFF_FF00);
    put32(&mut b, s + 16, 0x100);
    put32(&mut b, s + 20, 0xFFFF_FFFF);
    assert_eq!(rva_to_file_offset(&b, s as u64, 1, 0xFFFF_FFF0).ok(), Some(0x1_0000_00EF));
}

#[test]
fn io_error_converts() {
    let e = DllParserError::from(std::io::Error::new(std::io::ErrorKind::NotFound, "gone"));
    assert!(matches!(e, DllParserError::IoError(ref inner) if inner.kind() == std::io::ErrorKind::NotFound));
}

#[test]
fn little_endian_reads() {
    let b = [0x34u8, 0x12, 0x78, 0x56, 0xFF];
    assert_eq!(read_u16(&b, 0), 0x1234);
    assert_eq!(read_u32(&b, 0), 0x5678_1234);
    assert_eq!(read_u32(&b, 1), 0xFF56_7812);
}
