//! The header's data model: format, element and property declarations.
use vstd::prelude::*;

verus! {

/// How the body of the file is encoded.
#[derive(Clone, Copy, Debug, PartialEq, Eq, Structural)]
pub enum FormatType {
    Ascii,
    BinaryLittleEndian,
    BinaryBigEndian,
}

/// The format declaration: encoding and version.
#[derive(Clone, Debug, PartialEq, Eq)]
pub struct Format {
    pub format_type: FormatType,
    pub version: String,
}

pub ghost struct FormatView {
    pub format_type: FormatType,
    pub version: Seq<char>,
}

impl View for Format {
    type V = FormatView;

    open spec fn view(&self) -> FormatView {
        FormatView { format_type: self.format_type, version: self.version@ }
    }
}

#[derive(Clone, Copy, Debug, PartialEq, Eq, Structural)]
pub enum SignedIntegerType {
    Char,
    Short,
    Int,
}

#[derive(Clone, Copy, Debug, PartialEq, Eq, Structural)]
pub enum UnsignedIntegerType {
    UChar,
    UShort,
    UInt,
}

#[derive(Clone, Copy, Debug, PartialEq, Eq, Structural)]
pub enum IntegerType {
    Signed(SignedIntegerType),
    Unsigned(UnsignedIntegerType),
}

#[derive(Clone, Copy, Debug, PartialEq, Eq, Structural)]
pub enum FloatType {
    Float,
    Double,
}

#[derive(Clone, Copy, Debug, PartialEq, Eq, Structural)]
pub enum ScalarType {
    Integer(IntegerType),
    Float(FloatType),
}

/// The type of a property: a scalar, or a list of scalars whose length is
/// stored as an unsigned integer.
#[derive(Clone, Copy, Debug, PartialEq, Eq, Structural)]
pub enum DataType {
    Scalar(ScalarType),
    List(UnsignedIntegerType, ScalarType),
}

/// A named, typed field of an element's records.
#[derive(Clone, Debug, PartialEq, Eq)]
pub struct Property {
    pub data_type: DataType,
    pub name: String,
}

pub ghost struct PropertyView {
    pub data_type: DataType,
    pub name: Seq<char>,
}

impl View for Property {
    type V = PropertyView;

    open spec fn view(&self) -> PropertyView {
        PropertyView { data_type: self.data_type, name: self.name@ }
    }
}

/// A record type of the body: its name, how many records there are, and
/// the fields of each.
#[derive(Clone, Debug, PartialEq, Eq)]
pub struct Element {
    pub name: String,
    pub count: u64,
    pub properties: Vec<Property>,
}

pub ghost struct ElementView {
    pub name: Seq<char>,
    pub count: u64,
    pub properties: Seq<PropertyView>,
}

pub open spec fn properties_view(ps: Seq<Property>) -> Seq<PropertyView> {
    ps.map_values(|p: Property| p@)
}

impl View for Element {
    type V = ElementView;

    open spec fn view(&self) -> ElementView {
        ElementView {
            name: self.name@,
            count: self.count,
            properties: properties_view(self.properties@),
        }
    }
}

/// A whole header: the format, the comments and the elements, in file order.
#[derive(Clone, Debug, PartialEq, Eq)]
pub struct Header {
    pub format: Format,
    pub comments: Vec<String>,
    pub elements: Vec<Element>,
}

pub ghost struct HeaderView {
    pub format: FormatView,
    pub comments: Seq<Seq<char>>,
    pub elements: Seq<ElementView>,
}

pub open spec fn texts_view(ts: Seq<String>) -> Seq<Seq<char>> {
    ts.map_values(|t: String| t@)
}

pub open spec fn elements_view(es: Seq<Element>) -> Seq<ElementView> {
    es.map_values(|e: Element| e@)
}

impl View for Header {
    type V = HeaderView;

    open spec fn view(&self) -> HeaderView {
        HeaderView {
            format: self.format@,
            comments: texts_view(self.comments@),
            elements: elements_view(self.elements@),
        }
    }
}

} // verus!
