//! Parsers for the text that follows each header keyword.
use vstd::prelude::*;

use crate::error::{HeaderError, HeaderErrorView};
use crate::header::{
    DataType, Element, ElementView, FloatType, Format, FormatType, FormatView, IntegerType,
    Property, PropertyView, ScalarType, SignedIntegerType, UnsignedIntegerType, properties_view,
};
use crate::utils::{
    Words, char_is_ws, chars_of, ensure_empty_iter, next_word_or_err, parse_u64, parsed_u64, trim_line_endings,
    trimmed, word_end, words,
};

verus! {

/// Whether two strings hold the same characters.
pub fn same_text(a: &str, b: &str) -> (r: bool)
    ensures
        r == (a@ == b@),
{
    let x = chars_of(a);
    let y = chars_of(b);
    if x.len() != y.len() {
        return false;
    }
    let mut i: usize = 0;
    while i < x.len()
        invariant
            x@ == a@,
            y@ == b@,
            x@.len() == y@.len(),
            i <= x@.len(),
            forall|k: int| 0 <= k < i ==> x@[k] == y@[k],
        decreases x.len() - i,
    {
        if x[i] != y[i] {
            return false;
        }
        i = i + 1;
    }
    assert(x@ =~= y@);
    true
}

/// The format type that a word names.
pub open spec fn format_type_of(w: Seq<char>) -> Option<FormatType> {
    if w == "ascii"@ {
        Some(FormatType::Ascii)
    } else if w == "binary_little_endian"@ {
        Some(FormatType::BinaryLittleEndian)
    } else if w == "binary_big_endian"@ {
        Some(FormatType::BinaryBigEndian)
    } else {
        None
    }
}

/// The only format version supported.
pub open spec fn supported_version() -> Seq<char> {
    "1.0"@
}

/// What the words after `format` declare.
pub open spec fn format_line(rest: Seq<char>) -> Result<FormatView, HeaderErrorView> {
    let w = words(rest);
    if w.len() == 0 {
        Err(HeaderErrorView::FormatTypeNotSpecified)
    } else if format_type_of(w[0]) is None {
        Err(HeaderErrorView::InvalidFormatType(w[0]))
    } else if w.len() == 1 {
        Err(HeaderErrorView::FormatVersionNotSpecified)
    } else if w[1] != supported_version() {
        Err(HeaderErrorView::InvalidFormatVersion(w[1]))
    } else if w.len() > 2 {
        Err(HeaderErrorView::ExtraCharacters("format"@, w[2]))
    } else {
        Ok(FormatView { format_type: format_type_of(w[0])->0, version: w[1] })
    }
}

fn format_type_from(w: &str) -> (r: Option<FormatType>)
    ensures
        r == format_type_of(w@),
{
    if same_text(w, "ascii") {
        Some(FormatType::Ascii)
    } else if same_text(w, "binary_little_endian") {
        Some(FormatType::BinaryLittleEndian)
    } else if same_text(w, "binary_big_endian") {
        Some(FormatType::BinaryBigEndian)
    } else {
        None
    }
}

/// Parses the text after `format`: a format type, then the version `1.0`.
pub fn parse_format_line(line: &str) -> (r: Result<Format, HeaderError>)
    ensures
        match r {
            Ok(f) => format_line(line@) == Ok::<FormatView, HeaderErrorView>(f@),
            Err(e) => format_line(line@) == Err::<FormatView, HeaderErrorView>(e@),
        },
{
    let mut iter = Words::new(line);
    let type_word = next_word_or_err(&mut iter, HeaderError::FormatTypeNotSpecified)?;
    let format_type = match format_type_from(type_word) {
        Some(t) => t,
        None => {
            return Err(HeaderError::InvalidFormatType(type_word.to_owned()));
        },
    };
    let version = next_word_or_err(&mut iter, HeaderError::FormatVersionNotSpecified)?;
    if !same_text(version, "1.0") {
        return Err(HeaderError::InvalidFormatVersion(version.to_owned()));
    }
    ensure_empty_iter(&mut iter, "format")?;
    Ok(Format { format_type, version: version.to_owned() })
}

/// A comment is the text after `comment`, verbatim but for its line ending.
pub open spec fn comment_line(rest: Seq<char>) -> Seq<char> {
    trimmed(rest)
}

/// Parses the text after `comment`: it is kept as it stands, without its
/// line ending.
pub fn parse_comment_line(comment_line: &str) -> (r: String)
    ensures
        r@ == trimmed(comment_line@),
{
    trim_line_endings(comment_line).to_owned()
}

/// What the words after `element` declare: a name and a count, and as yet
/// no properties.
pub open spec fn element_line(rest: Seq<char>) -> Result<ElementView, HeaderErrorView> {
    let w = words(rest);
    if w.len() == 0 {
        Err(HeaderErrorView::ElementNameNotSpecified)
    } else if w.len() == 1 {
        Err(HeaderErrorView::ElementCountNotSpecified)
    } else if parsed_u64(w[1]) is None {
        Err(HeaderErrorView::InvalidElementCount)
    } else if w.len() > 2 {
        Err(HeaderErrorView::ExtraCharacters("element"@, w[2]))
    } else {
        Ok(ElementView { name: w[0], count: parsed_u64(w[1])->0, properties: seq![] })
    }
}

/// Parses the text after `element`: a name, then a count of records.
pub fn parse_element_line(line: &str) -> (r: Result<Element, HeaderError>)
    ensures
        match r {
            Ok(e) => element_line(line@) == Ok::<ElementView, HeaderErrorView>(e@),
            Err(e) => element_line(line@) == Err::<ElementView, HeaderErrorView>(e@),
        },
{
    let mut iter = Words::new(line);
    let name = next_word_or_err(&mut iter, HeaderError::ElementNameNotSpecified)?;
    let count_word = next_word_or_err(&mut iter, HeaderError::ElementCountNotSpecified)?;
    let count = match parse_u64(count_word) {
        Some(c) => c,
        None => {
            return Err(HeaderError::InvalidElementCount);
        },
    };
    ensure_empty_iter(&mut iter, "element")?;
    let properties: Vec<Property> = Vec::new();
    let r = Element { name: name.to_owned(), count, properties };
    assert(properties_view(r.properties@) =~= seq![]);
    Ok(r)
}

/// The scalar type that a word names.
pub open spec fn scalar_type_of(w: Seq<char>) -> Option<ScalarType> {
    if w == "char"@ {
        Some(ScalarType::Integer(IntegerType::Signed(SignedIntegerType::Char)))
    } else if w == "uchar"@ {
        Some(ScalarType::Integer(IntegerType::Unsigned(UnsignedIntegerType::UChar)))
    } else if w == "short"@ {
        Some(ScalarType::Integer(IntegerType::Signed(SignedIntegerType::Short)))
    } else if w == "ushort"@ {
        Some(ScalarType::Integer(IntegerType::Unsigned(UnsignedIntegerType::UShort)))
    } else if w == "int"@ {
        Some(ScalarType::Integer(IntegerType::Signed(SignedIntegerType::Int)))
    } else if w == "uint"@ {
        Some(ScalarType::Integer(IntegerType::Unsigned(UnsignedIntegerType::UInt)))
    } else if w == "float"@ {
        Some(ScalarType::Float(FloatType::Float))
    } else if w == "double"@ {
        Some(ScalarType::Float(FloatType::Double))
    } else {
        None
    }
}

fn scalar_type_from(w: &str) -> (r: Option<ScalarType>)
    ensures
        r == scalar_type_of(w@),
{
    if same_text(w, "char") {
        Some(ScalarType::Integer(IntegerType::Signed(SignedIntegerType::Char)))
    } else if same_text(w, "uchar") {
        Some(ScalarType::Integer(IntegerType::Unsigned(UnsignedIntegerType::UChar)))
    } else if same_text(w, "short") {
        Some(ScalarType::Integer(IntegerType::Signed(SignedIntegerType::Short)))
    } else if same_text(w, "ushort") {
        Some(ScalarType::Integer(IntegerType::Unsigned(UnsignedIntegerType::UShort)))
    } else if same_text(w, "int") {
        Some(ScalarType::Integer(IntegerType::Signed(SignedIntegerType::Int)))
    } else if same_text(w, "uint") {
        Some(ScalarType::Integer(IntegerType::Unsigned(UnsignedIntegerType::UInt)))
    } else if same_text(w, "float") {
        Some(ScalarType::Float(FloatType::Float))
    } else if same_text(w, "double") {
        Some(ScalarType::Float(FloatType::Double))
    } else {
        None
    }
}

/// What the words after `property` declare: `<scalar-type> <name>`, or
/// `list <count-type> <item-type> <name>` where the count type is unsigned.
pub open spec fn property_line(rest: Seq<char>) -> Result<PropertyView, HeaderErrorView> {
    let w = words(rest);
    if w.len() == 0 {
        Err(HeaderErrorView::PropertyTypeNotSpecified)
    } else if w[0] == "list"@ {
        if w.len() == 1 {
            Err(HeaderErrorView::PropertyTypeNotSpecified)
        } else if scalar_type_of(w[1]) is None {
            Err(HeaderErrorView::InvalidPropertyType(w[1]))
        } else if !(scalar_type_of(w[1])->0 matches ScalarType::Integer(IntegerType::Unsigned(_))) {
            Err(HeaderErrorView::InvalidListCountType(w[1]))
        } else if w.len() == 2 {
            Err(HeaderErrorView::PropertyTypeNotSpecified)
        } else if scalar_type_of(w[2]) is None {
            Err(HeaderErrorView::InvalidPropertyType(w[2]))
        } else if w.len() == 3 {
            Err(HeaderErrorView::PropertyNameNotSpecified)
        } else if w.len() > 4 {
            Err(HeaderErrorView::ExtraCharacters("property"@, w[4]))
        } else {
            let count_type = match scalar_type_of(w[1])->0 {
                ScalarType::Integer(IntegerType::Unsigned(u)) => u,
                _ => UnsignedIntegerType::UInt,
            };
            Ok(
                PropertyView {
                    data_type: DataType::List(count_type, scalar_type_of(w[2])->0),
                    name: w[3],
                },
            )
        }
    } else if scalar_type_of(w[0]) is None {
        Err(HeaderErrorView::InvalidPropertyType(w[0]))
    } else if w.len() == 1 {
        Err(HeaderErrorView::PropertyNameNotSpecified)
    } else if w.len() > 2 {
        Err(HeaderErrorView::ExtraCharacters("property"@, w[2]))
    } else {
        Ok(PropertyView { data_type: DataType::Scalar(scalar_type_of(w[0])->0), name: w[1] })
    }
}

/// Parses the text after `property`: a scalar type and a name, or `list`,
/// an unsigned count type, an item type and a name.
pub fn parse_property_line(line: &str) -> (r: Result<Property, HeaderError>)
    ensures
        match r {
            Ok(p) => property_line(line@) == Ok::<PropertyView, HeaderErrorView>(p@),
            Err(e) => property_line(line@) == Err::<PropertyView, HeaderErrorView>(e@),
        },
{
    let mut iter = Words::new(line);
    let first = next_word_or_err(&mut iter, HeaderError::PropertyTypeNotSpecified)?;
    let data_type = if same_text(first, "list") {
        let count_word = next_word_or_err(&mut iter, HeaderError::PropertyTypeNotSpecified)?;
        let count_type = match scalar_type_from(count_word) {
            None => {
                return Err(HeaderError::InvalidPropertyType(count_word.to_owned()));
            },
            Some(ScalarType::Integer(IntegerType::Unsigned(u))) => u,
            Some(_) => {
                return Err(HeaderError::InvalidListCountType(count_word.to_owned()));
            },
        };
        let item_word = next_word_or_err(&mut iter, HeaderError::PropertyTypeNotSpecified)?;
        let item_type = match scalar_type_from(item_word) {
            None => {
                return Err(HeaderError::InvalidPropertyType(item_word.to_owned()));
            },
            Some(t) => t,
        };
        DataType::List(count_type, item_type)
    } else {
        match scalar_type_from(first) {
            None => {
                return Err(HeaderError::InvalidPropertyType(first.to_owned()));
            },
            Some(t) => DataType::Scalar(t),
        }
    };
    let name = next_word_or_err(&mut iter, HeaderError::PropertyNameNotSpecified)?;
    ensure_empty_iter(&mut iter, "property")?;
    Ok(Property { data_type, name: name.to_owned() })
}

/// The keyword that a header line names.
#[derive(Clone, Copy, Debug, PartialEq, Eq, Structural)]
pub enum HeaderKey {
    /// Before the first line: no keyword read yet.
    Initial,
    Start,
    Format,
    Comment,
    Element,
    Property,
    End,
}

/// The first word of a line: all up to its first whitespace character.
pub open spec fn keyword_of(line: Seq<char>) -> Seq<char> {
    line.take(word_end(line, 0))
}

/// The rest of a line from its first whitespace character on (nothing,
/// where it has none).
pub open spec fn remainder_of(line: Seq<char>) -> Seq<char> {
    line.skip(word_end(line, 0))
}

/// The header keyword that a word is.
pub open spec fn key_of(w: Seq<char>) -> Option<HeaderKey> {
    if w == "ply"@ {
        Some(HeaderKey::Start)
    } else if w == "format"@ {
        Some(HeaderKey::Format)
    } else if w == "comment"@ {
        Some(HeaderKey::Comment)
    } else if w == "element"@ {
        Some(HeaderKey::Element)
    } else if w == "property"@ {
        Some(HeaderKey::Property)
    } else if w == "end_header"@ {
        Some(HeaderKey::End)
    } else {
        None
    }
}

/// The keyword of a line, where it is one.
pub open spec fn line_key(line: Seq<char>) -> Option<HeaderKey> {
    key_of(keyword_of(line))
}

/// A header line split where its first word ends: its keyword, the
/// keyword's text, and the rest of the line.
pub type HeaderLine<'a> = (HeaderKey, &'a str, &'a str);

/// Splits a line into its keyword and the rest, and classifies the keyword.
pub fn parse_header_line<'a>(line: &'a str) -> (r: Result<HeaderLine<'a>, HeaderError>)
    ensures
        match r {
            Ok((key, keyword, value)) => line_key(line@) == Some(key) && keyword@ == keyword_of(
                line@,
            ) && value@ == remainder_of(line@),
            Err(e) => line_key(line@) is None && e@ == HeaderErrorView::InvalidKeyword(
                keyword_of(line@),
            ),
        },
{
    let cs = chars_of(line);
    let mut k: usize = 0;
    while k < cs.len() && !char_is_ws(cs[k])
        invariant
            cs@ == line@,
            k <= cs@.len(),
            word_end(cs@, 0) == word_end(cs@, k as int),
        decreases cs.len() - k,
    {
        k = k + 1;
    }
    assert(word_end(cs@, k as int) == k);
    let keyword = line.substring_char(0, k);
    let value = line.substring_char(k, cs.len());
    assert(value@ =~= remainder_of(line@));
    let key = if same_text(keyword, "ply") {
        HeaderKey::Start
    } else if same_text(keyword, "format") {
        HeaderKey::Format
    } else if same_text(keyword, "comment") {
        HeaderKey::Comment
    } else if same_text(keyword, "element") {
        HeaderKey::Element
    } else if same_text(keyword, "property") {
        HeaderKey::Property
    } else if same_text(keyword, "end_header") {
        HeaderKey::End
    } else {
        return Err(HeaderError::InvalidKeyword(keyword.to_owned()));
    };
    Ok((key, keyword, value))
}

} // verus!
