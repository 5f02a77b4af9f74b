use ld_binning::contig::{find_contig_length, parse_decimal_u64, ContigError, HeaderEntry};

fn contig(length: &str) -> HeaderEntry {
    HeaderEntry::Contig { length: Some(length.as_bytes().to_vec()) }
}

fn parse(text: &str) -> Option<u64> {
    parse_decimal_u64(&text.as_bytes().to_vec())
}

#[test]
fn decimal_numbers_are_read() {
    assert_eq!(parse("0"), Some(0));
    assert_eq!(parse("123"), Some(123));
    assert_eq!(parse("007"), Some(7));
    assert_eq!(parse("+5"), Some(5));
    assert_eq!(parse("248956422"), Some(248_956_422));
    assert_eq!(parse("18446744073709551615"), Some(u64::MAX));
}

#[test]
fn other_texts_are_not_numbers() {
    assert_eq!(parse(""), None);
    assert_eq!(parse("+"), None);
    assert_eq!(parse("-1"), None);
    assert_eq!(parse("++1"), None);
    assert_eq!(parse("12a"), None);
    assert_eq!(parse("1 2"), None);
    assert_eq!(parse(" 12"), None);
    assert_eq!(parse("1.5"), None);
    assert_eq!(parse("18446744073709551616"), None);
    assert_eq!(parse("99999999999999999999999"), None);
    assert_eq!(parse("184467440737095516150x"), None);
}

#[test]
fn parser_agrees_with_the_standard_one() {
    for text in ["0", "+0", "42", "+42", "", "+", "-", "-7", "4 2", "0042", "18446744073709551615", "18446744073709551616", "1e3", "٣"] {
        assert_eq!(parse(text), text.parse::<u64>().ok(), "text {:?}", text);
    }
}

#[test]
fn contig_is_found_by_its_index() {
    let header = vec![HeaderEntry::Other, contig("100"), HeaderEntry::Other, contig("200"), contig("300")];
    assert_eq!(find_contig_length(&header, 0), Ok(100));
    assert_eq!(find_contig_length(&header, 1), Ok(200));
    assert_eq!(find_contig_length(&header, 2), Ok(300));
}

#[test]
fn contig_beyond_the_header_is_not_found() {
    let header = vec![HeaderEntry::Other, contig("100"), contig("200")];
    assert_eq!(find_contig_length(&header, 2), Err(ContigError::ContigNotFound));
    assert_eq!(find_contig_length(&header, u32::MAX), Err(ContigError::ContigNotFound));
    assert_eq!(find_contig_length(&vec![], 0), Err(ContigError::ContigNotFound));
    assert_eq!(find_contig_length(&vec![HeaderEntry::Other], 0), Err(ContigError::ContigNotFound));
}

#[test]
fn contig_without_length_is_an_error() {
    let header = vec![contig("100"), HeaderEntry::Contig { length: None }, contig("300")];
    assert_eq!(find_contig_length(&header, 0), Ok(100));
    assert_eq!(find_contig_length(&header, 1), Err(ContigError::LengthNotFound));
    assert_eq!(find_contig_length(&header, 2), Ok(300));
}

#[test]
fn contig_with_unreadable_length_is_an_error() {
    let header = vec![contig("abc"), contig("100")];
    assert_eq!(find_contig_length(&header, 0), Err(ContigError::LengthUnreadable));
    assert_eq!(find_contig_length(&header, 1), Ok(100));
    let header = vec![contig("100"), contig("long"), HeaderEntry::Other, contig("300")];
    assert_eq!(find_contig_length(&header, 0), Ok(100));
    assert_eq!(find_contig_length(&header, 1), Err(ContigError::LengthUnreadable));
    assert_eq!(find_contig_length(&header, 2), Ok(300));
    assert_eq!(find_contig_length(&header, 3), Err(ContigError::ContigNotFound));
    let header = vec![contig(""), HeaderEntry::Contig { length: None }];
    assert_eq!(find_contig_length(&header, 0), Err(ContigError::LengthUnreadable));
    assert_eq!(find_contig_length(&header, 1), Err(ContigError::LengthNotFound));
    let header = vec![contig("18446744073709551616")];
    assert_eq!(find_contig_length(&header, 0), Err(ContigError::LengthUnreadable));
}
