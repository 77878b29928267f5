//! Errors of header parsing.
use vstd::prelude::*;
use vstd::string::StringExecFns;

verus! {

/// Why a header was refused.
#[derive(Clone, Debug, PartialEq, Eq)]
pub enum HeaderError {
    /// The input ended before the `end_header` line.
    BrokenHeader,
    /// A line starts with a word that is no header keyword.
    InvalidKeyword(String),
    /// A `ply` line anywhere but first.
    PlyExpected,
    /// A `format` line anywhere but right after the `ply` line.
    FormatExpected,
    /// A `comment`, `element`, `property` or `end_header` line before the format line.
    KeywordsExpected,
    /// A line holds more words than its keyword takes: the keyword, then the first extra word.
    ExtraCharacters(String, String),
    FormatTypeNotSpecified,
    InvalidFormatType(String),
    FormatVersionNotSpecified,
    InvalidFormatVersion(String),
    ElementNameNotSpecified,
    ElementCountNotSpecified,
    InvalidElementCount,
    PropertyTypeNotSpecified,
    InvalidPropertyType(String),
    /// The count of a list property has a type that is not an unsigned integer.
    InvalidListCountType(String),
    PropertyNameNotSpecified,
    /// A `property` line before any `element` line.
    PropertyWithoutElement,
}

/// A `HeaderError` with its texts as character sequences.
pub ghost enum HeaderErrorView {
    BrokenHeader,
    InvalidKeyword(Seq<char>),
    PlyExpected,
    FormatExpected,
    KeywordsExpected,
    ExtraCharacters(Seq<char>, Seq<char>),
    FormatTypeNotSpecified,
    InvalidFormatType(Seq<char>),
    FormatVersionNotSpecified,
    InvalidFormatVersion(Seq<char>),
    ElementNameNotSpecified,
    ElementCountNotSpecified,
    InvalidElementCount,
    PropertyTypeNotSpecified,
    InvalidPropertyType(Seq<char>),
    InvalidListCountType(Seq<char>),
    PropertyNameNotSpecified,
    PropertyWithoutElement,
}

impl View for HeaderError {
    type V = HeaderErrorView;

    open spec fn view(&self) -> HeaderErrorView {
        match self {
            HeaderError::BrokenHeader => HeaderErrorView::BrokenHeader,
            HeaderError::InvalidKeyword(k) => HeaderErrorView::InvalidKeyword(k@),
            HeaderError::PlyExpected => HeaderErrorView::PlyExpected,
            HeaderError::FormatExpected => HeaderErrorView::FormatExpected,
            HeaderError::KeywordsExpected => HeaderErrorView::KeywordsExpected,
            HeaderError::ExtraCharacters(k, x) => HeaderErrorView::ExtraCharacters(k@, x@),
            HeaderError::FormatTypeNotSpecified => HeaderErrorView::FormatTypeNotSpecified,
            HeaderError::InvalidFormatType(t) => HeaderErrorView::InvalidFormatType(t@),
            HeaderError::FormatVersionNotSpecified => HeaderErrorView::FormatVersionNotSpecified,
            HeaderError::InvalidFormatVersion(v) => HeaderErrorView::InvalidFormatVersion(v@),
            HeaderError::ElementNameNotSpecified => HeaderErrorView::ElementNameNotSpecified,
            HeaderError::ElementCountNotSpecified => HeaderErrorView::ElementCountNotSpecified,
            HeaderError::InvalidElementCount => HeaderErrorView::InvalidElementCount,
            HeaderError::PropertyTypeNotSpecified => HeaderErrorView::PropertyTypeNotSpecified,
            HeaderError::InvalidPropertyType(t) => HeaderErrorView::InvalidPropertyType(t@),
            HeaderError::InvalidListCountType(t) => HeaderErrorView::InvalidListCountType(t@),
            HeaderError::PropertyNameNotSpecified => HeaderErrorView::PropertyNameNotSpecified,
            HeaderError::PropertyWithoutElement => HeaderErrorView::PropertyWithoutElement,
        }
    }
}

/// The text that describes an error.
pub open spec fn message_of(e: HeaderErrorView) -> Seq<char> {
    match e {
        HeaderErrorView::BrokenHeader => "broken header"@,
        HeaderErrorView::InvalidKeyword(k) => "invalid keyword in header: "@ + k,
        HeaderErrorView::PlyExpected => "\"ply\" keyword expected"@,
        HeaderErrorView::FormatExpected => "\"format\" keyword expected"@,
        HeaderErrorView::KeywordsExpected => "\"comment\", \"element\" or \"end_header\" keywords expected"@,
        HeaderErrorView::ExtraCharacters(k, x) => "extra characters in \""@ + k + "\" line: "@ + x,
        HeaderErrorView::FormatTypeNotSpecified => "format type not specified"@,
        HeaderErrorView::InvalidFormatType(t) => "invalid format type specified: "@ + t,
        HeaderErrorView::FormatVersionNotSpecified => "format version not specified"@,
        HeaderErrorView::InvalidFormatVersion(v) => "invalid or unsupported format version: "@ + v,
        HeaderErrorView::ElementNameNotSpecified => "element name not specified"@,
        HeaderErrorView::ElementCountNotSpecified => "element count not specified"@,
        HeaderErrorView::InvalidElementCount => "invalid element count (unsigned integer expected)"@,
        HeaderErrorView::PropertyTypeNotSpecified => "property type not specified"@,
        HeaderErrorView::InvalidPropertyType(t) => "invalid property type: "@ + t,
        HeaderErrorView::InvalidListCountType(t) => "invalid list count type (unsigned integer type expected): "@ + t,
        HeaderErrorView::PropertyNameNotSpecified => "property name not specified"@,
        HeaderErrorView::PropertyWithoutElement => "property declared before any element"@,
    }
}

impl HeaderError {
    /// Describes the error in words.
    pub fn message(&self) -> (r: String)
        ensures
            r@ == message_of(self@),
    {
        match self {
            HeaderError::BrokenHeader => "broken header".to_owned(),
            HeaderError::InvalidKeyword(k) => "invalid keyword in header: ".to_owned().concat(k.as_str()),
            HeaderError::PlyExpected => "\"ply\" keyword expected".to_owned(),
            HeaderError::FormatExpected => "\"format\" keyword expected".to_owned(),
            HeaderError::KeywordsExpected => "\"comment\", \"element\" or \"end_header\" keywords expected".to_owned(),
            HeaderError::ExtraCharacters(k, x) => {
                let r = "extra characters in \"".to_owned().concat(k.as_str()).concat("\" line: ").concat(x.as_str());
                r
            },
            HeaderError::FormatTypeNotSpecified => "format type not specified".to_owned(),
            HeaderError::InvalidFormatType(t) => "invalid format type specified: ".to_owned().concat(t.as_str()),
            HeaderError::FormatVersionNotSpecified => "format version not specified".to_owned(),
            HeaderError::InvalidFormatVersion(v) => "invalid or unsupported format version: ".to_owned().concat(v.as_str()),
            HeaderError::ElementNameNotSpecified => "element name not specified".to_owned(),
            HeaderError::ElementCountNotSpecified => "element count not specified".to_owned(),
            HeaderError::InvalidElementCount => "invalid element count (unsigned integer expected)".to_owned(),
            HeaderError::PropertyTypeNotSpecified => "property type not specified".to_owned(),
            HeaderError::InvalidPropertyType(t) => "invalid property type: ".to_owned().concat(t.as_str()),
            HeaderError::InvalidListCountType(t) => "invalid list count type (unsigned integer type expected): ".to_owned().concat(t.as_str()),
            HeaderError::PropertyNameNotSpecified => "property name not specified".to_owned(),
            HeaderError::PropertyWithoutElement => "property declared before any element".to_owned(),
        }
    }
}

} // verus!
