use ply_header::{
    DataType, FloatType, Format, FormatType, HeaderError, HeaderKey, IntegerType, ScalarType,
    SignedIntegerType, UnsignedIntegerType, parse_comment_line, parse_element_line,
    parse_format_line, parse_header_line, parse_property_line,
};

fn format(t: FormatType) -> Format {
    Format { format_type: t, version: "1.0".to_string() }
}

#[test]
fn format_line_cases() {
    assert_eq!(parse_format_line("ascii 1.0"), Ok(format(FormatType::Ascii)));
    assert_eq!(
        parse_format_line(" binary_little_endian 1.0\r\n"),
        Ok(format(FormatType::BinaryLittleEndian))
    );
    assert_eq!(parse_format_line("binary_big_endian 1.0\n"), Ok(format(FormatType::BinaryBigEndian)));
    assert_eq!(
        parse_format_line("ascii 2.0"),
        Err(HeaderError::InvalidFormatVersion("2.0".to_string()))
    );
    assert_eq!(parse_format_line("foo 1.0"), Err(HeaderError::InvalidFormatType("foo".to_string())));
    assert_eq!(parse_format_line("ASCII 1.0"), Err(HeaderError::InvalidFormatType("ASCII".to_string())));
    assert_eq!(parse_format_line("ascii"), Err(HeaderError::FormatVersionNotSpecified));
    assert_eq!(parse_format_line(" \n"), Err(HeaderError::FormatTypeNotSpecified));
    assert_eq!(
        parse_format_line("ascii 1.0 extra"),
        Err(HeaderError::ExtraCharacters("format".to_string(), "extra".to_string()))
    );
}

#[test]
fn element_line_cases() {
    let e = parse_element_line("vertex 8").unwrap();
    assert_eq!(e.name, "vertex");
    assert_eq!(e.count, 8);
    assert!(e.properties.is_empty());
    assert_eq!(parse_element_line("vertex"), Err(HeaderError::ElementCountNotSpecified));
    assert_eq!(parse_element_line("vertex eight"), Err(HeaderError::InvalidElementCount));
    assert_eq!(parse_element_line("vertex -1"), Err(HeaderError::InvalidElementCount));
    assert_eq!(
        parse_element_line("vertex 8 9"),
        Err(HeaderError::ExtraCharacters("element".to_string(), "9".to_string()))
    );
    assert_eq!(parse_element_line(""), Err(HeaderError::ElementNameNotSpecified));
    assert_eq!(parse_element_line("face 18446744073709551615\n").unwrap().count, u64::MAX);
}

#[test]
fn comment_line_keeps_text_verbatim() {
    assert_eq!(parse_comment_line(" made by  test\r\n"), " made by  test");
    assert_eq!(parse_comment_line(""), "");
}

#[test]
fn property_line_cases() {
    let p = parse_property_line("float x\n").unwrap();
    assert_eq!(p.name, "x");
    assert_eq!(p.data_type, DataType::Scalar(ScalarType::Float(FloatType::Float)));
    let p = parse_property_line("uchar red").unwrap();
    assert_eq!(
        p.data_type,
        DataType::Scalar(ScalarType::Integer(IntegerType::Unsigned(UnsignedIntegerType::UChar)))
    );
    let p = parse_property_line("list uchar int vertex_indices\n").unwrap();
    assert_eq!(p.name, "vertex_indices");
    assert_eq!(
        p.data_type,
        DataType::List(
            UnsignedIntegerType::UChar,
            ScalarType::Integer(IntegerType::Signed(SignedIntegerType::Int))
        )
    );
    assert_eq!(parse_property_line(""), Err(HeaderError::PropertyTypeNotSpecified));
    assert_eq!(parse_property_line("list"), Err(HeaderError::PropertyTypeNotSpecified));
    assert_eq!(parse_property_line("list uchar"), Err(HeaderError::PropertyTypeNotSpecified));
    assert_eq!(parse_property_line("list uchar int"), Err(HeaderError::PropertyNameNotSpecified));
    assert_eq!(parse_property_line("float"), Err(HeaderError::PropertyNameNotSpecified));
    assert_eq!(
        parse_property_line("float32 x"),
        Err(HeaderError::InvalidPropertyType("float32".to_string()))
    );
    assert_eq!(
        parse_property_line("list int int idx"),
        Err(HeaderError::InvalidListCountType("int".to_string()))
    );
    assert_eq!(
        parse_property_line("list uchar bogus idx"),
        Err(HeaderError::InvalidPropertyType("bogus".to_string()))
    );
    assert_eq!(
        parse_property_line("float x y"),
        Err(HeaderError::ExtraCharacters("property".to_string(), "y".to_string()))
    );
}

#[test]
fn header_line_splits_at_first_whitespace() {
    assert_eq!(parse_header_line("ply\n"), Ok((HeaderKey::Start, "ply", "\n")));
    assert_eq!(
        parse_header_line("comment  made by test\n"),
        Ok((HeaderKey::Comment, "comment", "  made by test\n"))
    );
    assert_eq!(parse_header_line("end_header"), Ok((HeaderKey::End, "end_header", "")));
    assert_eq!(
        parse_header_line("vertex 1 2\n"),
        Err(HeaderError::InvalidKeyword("vertex".to_string()))
    );
    assert_eq!(parse_header_line(" ply\n"), Err(HeaderError::InvalidKeyword(String::new())));
    assert_eq!(parse_header_line("PLY\n"), Err(HeaderError::InvalidKeyword("PLY".to_string())));
}
