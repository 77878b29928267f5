use ply_header::{
    DataType, FloatType, FormatType, HeaderError, HeaderKey, HeaderParser, HeaderReader,
    IntegerType, ParseError, ScalarType, SignedIntegerType, UnsignedIntegerType, parse_header,
};

fn lines(ls: &[&str]) -> Vec<String> {
    ls.iter().map(|l| l.to_string()).collect()
}

fn err(line: usize, error: HeaderError) -> ParseError {
    ParseError { line, error }
}

#[test]
fn minimal_header_parses() {
    let h = parse_header(&lines(&[
        "ply\n",
        "format ascii 1.0\n",
        "comment made by test\n",
        "element vertex 8\n",
        "end_header\n",
    ]))
    .unwrap();
    assert_eq!(h.format.format_type, FormatType::Ascii);
    assert_eq!(h.format.version, "1.0");
    assert_eq!(h.comments, vec![" made by test".to_string()]);
    assert_eq!(h.elements.len(), 1);
    assert_eq!(h.elements[0].name, "vertex");
    assert_eq!(h.elements[0].count, 8);
    assert!(h.elements[0].properties.is_empty());
}

#[test]
fn properties_attach_to_the_last_element() {
    let h = parse_header(&lines(&[
        "ply\r\n",
        "format binary_little_endian 1.0\r\n",
        "element vertex 8\r\n",
        "property float x\r\n",
        "property float y\r\n",
        "comment between\r\n",
        "element face 6\r\n",
        "property list uchar int vertex_indices\r\n",
        "end_header\r\n",
        "not part of the header\n",
    ]))
    .unwrap();
    assert_eq!(h.format.format_type, FormatType::BinaryLittleEndian);
    assert_eq!(h.comments, vec![" between".to_string()]);
    assert_eq!(h.elements.len(), 2);
    assert_eq!(h.elements[0].properties.len(), 2);
    assert_eq!(h.elements[0].properties[1].name, "y");
    assert_eq!(
        h.elements[0].properties[0].data_type,
        DataType::Scalar(ScalarType::Float(FloatType::Float))
    );
    assert_eq!(h.elements[1].name, "face");
    assert_eq!(h.elements[1].count, 6);
    assert_eq!(h.elements[1].properties.len(), 1);
    assert_eq!(
        h.elements[1].properties[0].data_type,
        DataType::List(
            UnsignedIntegerType::UChar,
            ScalarType::Integer(IntegerType::Signed(SignedIntegerType::Int))
        )
    );
}

#[test]
fn input_ending_after_format_is_broken() {
    assert_eq!(
        parse_header(&lines(&["ply\n", "format ascii 1.0\n"])),
        Err(err(2, HeaderError::BrokenHeader))
    );
    assert_eq!(parse_header(&lines(&[])), Err(err(0, HeaderError::BrokenHeader)));
}

#[test]
fn format_before_ply_is_out_of_order() {
    assert_eq!(
        parse_header(&lines(&["format ascii 1.0\n", "end_header\n"])),
        Err(err(1, HeaderError::FormatExpected))
    );
}

#[test]
fn grammar_order_errors() {
    assert_eq!(
        parse_header(&lines(&["ply\n", "ply\n"])),
        Err(err(2, HeaderError::PlyExpected))
    );
    assert_eq!(
        parse_header(&lines(&["ply\n", "format ascii 1.0\n", "format ascii 1.0\n"])),
        Err(err(3, HeaderError::FormatExpected))
    );
    assert_eq!(
        parse_header(&lines(&["ply\n", "comment c\n"])),
        Err(err(2, HeaderError::KeywordsExpected))
    );
    assert_eq!(
        parse_header(&lines(&["end_header\n"])),
        Err(err(1, HeaderError::KeywordsExpected))
    );
    assert_eq!(
        parse_header(&lines(&["ply\n", "format ascii 1.0\n", "property float x\n"])),
        Err(err(3, HeaderError::PropertyWithoutElement))
    );
}

#[test]
fn line_errors_carry_their_line_number() {
    assert_eq!(
        parse_header(&lines(&["ply extra\n"])),
        Err(err(1, HeaderError::ExtraCharacters("ply".to_string(), "extra".to_string())))
    );
    assert_eq!(
        parse_header(&lines(&["ply\n", "format ascii 1.0\n", "vertex 8\n"])),
        Err(err(3, HeaderError::InvalidKeyword("vertex".to_string())))
    );
    assert_eq!(
        parse_header(&lines(&["ply\n", "format ascii 1.0\n", "element v x\n"])),
        Err(err(3, HeaderError::InvalidElementCount))
    );
    assert_eq!(
        parse_header(&lines(&["ply\n", "format ascii 1.0\n", "end_header now\n"])),
        Err(err(3, HeaderError::ExtraCharacters("end_header".to_string(), "now".to_string())))
    );
}

#[test]
fn reader_counts_lines() {
    let mut r = HeaderReader::new();
    assert_eq!(r.line_count(), 0);
    assert_eq!(r.read_line(Some("ply\n")), Ok((HeaderKey::Start, "ply", "\n")));
    assert_eq!(r.line_count(), 1);
    assert_eq!(
        r.read_line(Some("bogus\n")),
        Err(err(2, HeaderError::InvalidKeyword("bogus".to_string())))
    );
    assert_eq!(r.read_line(None), Err(err(2, HeaderError::BrokenHeader)));
    assert_eq!(r.line_count(), 2);
}

#[test]
fn parser_fed_line_by_line() {
    let mut p = HeaderParser::new();
    assert_eq!(p.feed_line(Some("ply\n")), Ok(false));
    assert_eq!(p.feed_line(Some("format binary_big_endian 1.0\n")), Ok(false));
    assert_eq!(p.feed_line(Some("element vertex 3\n")), Ok(false));
    assert!(!p.is_done());
    assert_eq!(p.feed_line(Some("end_header\n")), Ok(true));
    assert!(p.is_done());
    let h = p.into_header();
    assert_eq!(h.format.format_type, FormatType::BinaryBigEndian);
    assert_eq!(h.elements[0].count, 3);
}

#[test]
fn error_messages() {
    assert_eq!(HeaderError::BrokenHeader.message(), "broken header");
    assert_eq!(
        HeaderError::ExtraCharacters("format".to_string(), "extra".to_string()).message(),
        "extra characters in \"format\" line: extra"
    );
    assert_eq!(
        HeaderError::InvalidKeyword("vertex".to_string()).message(),
        "invalid keyword in header: vertex"
    );
    assert_eq!(
        HeaderError::KeywordsExpected.message(),
        "\"comment\", \"element\" or \"end_header\" keywords expected"
    );
    assert_eq!(
        HeaderError::InvalidFormatVersion("2.0".to_string()).message(),
        "invalid or unsupported format version: 2.0"
    );
}

#[test]
fn parser_reports_lines_read() {
    let mut p = HeaderParser::new();
    assert_eq!(p.line_count(), 0);
    assert_eq!(p.feed_line(Some("ply\n")), Ok(false));
    assert_eq!(p.line_count(), 1);
    assert_eq!(p.feed_line(None), Err(err(1, HeaderError::BrokenHeader)));
}
