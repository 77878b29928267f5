//! Reader for the header of PLY (Polygon File Format) files: a line-by-line
//! grammar that checks the order of header keywords and builds the declared
//! format, comments, elements and properties.
pub mod error;
pub mod header;
pub mod lines;
pub mod reader;
pub mod utils;

pub use error::HeaderError;
pub use header::{
    DataType, Element, FloatType, Format, FormatType, Header, IntegerType, Property, ScalarType,
    SignedIntegerType, UnsignedIntegerType,
};
pub use lines::{
    HeaderKey, HeaderLine, parse_comment_line, parse_element_line, parse_format_line,
    parse_header_line, parse_property_line,
};
pub use reader::{HeaderParser, HeaderReader, ParseError, parse_header};
pub use utils::{
    Words, ensure_empty, ensure_empty_iter, next_word_or_err, parse_u64, trim_line_endings,
};
