//! The mesh loader: a depth-tracked state machine over a restricted two-level
//! XML schema, and the buffer layout that packs the parsed attribute and
//! index streams into 16-byte-aligned byte buffers with replayable render
//! commands.

use vstd::prelude::*;

use crate::events::{doc_events, doc_reader_new, doc_reader_next, reader_events, MarkupEvent,
    MarkupEventV};
use crate::layout::{pack_blocks, spec_offsets, spec_packed};
use crate::text::{parse_bool_str, parse_i32_str, parse_u32_str, spec_parse_bool, spec_parse_i32,
    spec_parse_u32, str_eq};
use crate::values::{IdxValuesV, IndexSize, IndicesValues, ValuesV, VertexAttributeValues,
    parse_attribute_values, parse_indices_values, spec_parse_attribute_values,
    spec_parse_indices_values};
use crate::vertex_attributes::{DataType, VertexAttribute};

verus! {

/// Everything that can go wrong while reading a mesh description.
///
/// Each variant is produced at exactly one point of detection and surfaces
/// unchanged from `Mesh::new`; nothing is downgraded to a default value.
#[derive(Debug, Clone, PartialEq, Eq)]
pub enum MeshError {
    /// A file could not be opened or read; carries the caller's description.
    IOError(String),
    /// An integer token that does not parse as the expected integer kind.
    ParseDataError(String),
    /// A float token that does not parse as a float.
    ParseFloatDataError(String),
    /// A declared kind the value store does not support.
    UnimplementedDataFormat(DataType),
    /// A `type` token outside the attribute-type grammar.
    UnknownDataType(String),
    /// A required XML attribute that the element does not carry.
    NonExistingAttribute(String),
    /// An XML attribute value that does not parse as the expected type.
    ParseAttributeDataError(String),
    /// An attribute `index` above 16.
    InvalidVertexAttributeLocation(u32),
    /// An attribute `size` outside the accepted component-count range.
    InvalidVertexAttributeSize(i32),
    /// An `integral` value that is neither `true` nor `false`.
    ParseBoolDataError(String),
    /// A `cmd` token outside the primitive grammar.
    UnknownPrimitive(String),
    /// An `arrays` command whose `start` is negative.
    InvalidArrayStart(i32),
    /// An `arrays` command whose `end` is not positive.
    InvalidArrayCount(i32),
    /// A command element that is neither `indices` nor `arrays`.
    InvalidCommandAttribute(String),
    /// The document's root element is not `mesh`.
    MeshRootNotFound(String),
    /// A mesh whose first child element is not an `attribute`.
    NoVertexAttributes(String),
    /// A `source` element outside a `vao` element.
    SourceTagNotInVaoTag(String),
    /// An attribute whose element count differs from the first attribute's;
    /// carries the offending attribute's position.
    VertexAttributesArrayWithDifferentSize(usize, String),
    /// A `vao` source location that no attribute declares.
    VaoSourceInvalidIndex(u32, String, String),
    /// An attribute both `integral` and normalized.
    IntegralNormalizedError,
    /// An `integral` attribute of floating-point kind.
    IntegralFloatingError,
}

/// The mathematical image of a `MeshError`, with strings as their character
/// sequences.
pub enum MeshErrorV {
    IOError(Seq<char>),
    ParseDataError(Seq<char>),
    ParseFloatDataError(Seq<char>),
    UnimplementedDataFormat(DataType),
    UnknownDataType(Seq<char>),
    NonExistingAttribute(Seq<char>),
    ParseAttributeDataError(Seq<char>),
    InvalidVertexAttributeLocation(u32),
    InvalidVertexAttributeSize(i32),
    ParseBoolDataError(Seq<char>),
    UnknownPrimitive(Seq<char>),
    InvalidArrayStart(i32),
    InvalidArrayCount(i32),
    InvalidCommandAttribute(Seq<char>),
    MeshRootNotFound(Seq<char>),
    NoVertexAttributes(Seq<char>),
    SourceTagNotInVaoTag(Seq<char>),
    VertexAttributesArrayWithDifferentSize(int, Seq<char>),
    VaoSourceInvalidIndex(u32, Seq<char>, Seq<char>),
    IntegralNormalizedError,
    IntegralFloatingError,
}

impl View for MeshError {
    type V = MeshErrorV;

    open spec fn view(&self) -> MeshErrorV {
        match self {
            MeshError::IOError(s) => MeshErrorV::IOError(s@),
            MeshError::ParseDataError(s) => MeshErrorV::ParseDataError(s@),
            MeshError::ParseFloatDataError(s) => MeshErrorV::ParseFloatDataError(s@),
            MeshError::UnimplementedDataFormat(d) => MeshErrorV::UnimplementedDataFormat(*d),
            MeshError::UnknownDataType(s) => MeshErrorV::UnknownDataType(s@),
            MeshError::NonExistingAttribute(s) => MeshErrorV::NonExistingAttribute(s@),
            MeshError::ParseAttributeDataError(s) => MeshErrorV::ParseAttributeDataError(s@),
            MeshError::InvalidVertexAttributeLocation(n) => MeshErrorV::InvalidVertexAttributeLocation(*n),
            MeshError::InvalidVertexAttributeSize(n) => MeshErrorV::InvalidVertexAttributeSize(*n),
            MeshError::ParseBoolDataError(s) => MeshErrorV::ParseBoolDataError(s@),
            MeshError::UnknownPrimitive(s) => MeshErrorV::UnknownPrimitive(s@),
            MeshError::InvalidArrayStart(n) => MeshErrorV::InvalidArrayStart(*n),
            MeshError::InvalidArrayCount(n) => MeshErrorV::InvalidArrayCount(*n),
            MeshError::InvalidCommandAttribute(s) => MeshErrorV::InvalidCommandAttribute(s@),
            MeshError::MeshRootNotFound(s) => MeshErrorV::MeshRootNotFound(s@),
            MeshError::NoVertexAttributes(s) => MeshErrorV::NoVertexAttributes(s@),
            MeshError::SourceTagNotInVaoTag(s) => MeshErrorV::SourceTagNotInVaoTag(s@),
            MeshError::VertexAttributesArrayWithDifferentSize(i, s) => MeshErrorV::VertexAttributesArrayWithDifferentSize(*i as int, s@),
            MeshError::VaoSourceInvalidIndex(n, v, s) => MeshErrorV::VaoSourceInvalidIndex(*n, v@, s@),
            MeshError::IntegralNormalizedError => MeshErrorV::IntegralNormalizedError,
            MeshError::IntegralFloatingError => MeshErrorV::IntegralFloatingError,
        }
    }
}

// ---------------------------------------------------------------------------
// Token grammars
// ---------------------------------------------------------------------------
/// The topology a draw call gives its vertices.
#[derive(Clone, Copy, Debug, PartialEq, Eq, Structural)]
pub enum Primitive {
    Lines,
    Triangles,
    TriangleStrip,
    TriangleFan,
    LineStrip,
    LineLoop,
    Points,
}

/// The attribute-type grammar: each token names a scalar kind and whether
/// fetched integers are normalized.
pub open spec fn spec_parse_data_type(s: Seq<char>) -> Result<(DataType, bool), MeshErrorV> {
    if s == "float"@ {
        Ok((DataType::Float, false))
    } else if s == "half"@ {
        Ok((DataType::Fixed, false))
    } else if s == "int"@ {
        Ok((DataType::Int, false))
    } else if s == "uint"@ {
        Ok((DataType::UnsignedInt, false))
    } else if s == "norm-int"@ {
        Ok((DataType::Int, true))
    } else if s == "norm-uint"@ {
        Ok((DataType::UnsignedInt, true))
    } else if s == "short"@ {
        Ok((DataType::Short, false))
    } else if s == "ushort"@ {
        Ok((DataType::UnsignedShort, false))
    } else if s == "norm-short"@ {
        Ok((DataType::Short, true))
    } else if s == "norm-ushort"@ {
        Ok((DataType::UnsignedShort, true))
    } else if s == "byte"@ {
        Ok((DataType::Byte, false))
    } else if s == "ubyte"@ {
        Ok((DataType::UnsignedByte, false))
    } else if s == "norm-byte"@ {
        Ok((DataType::Byte, true))
    } else if s == "norm-ubyte"@ {
        Ok((DataType::UnsignedByte, true))
    } else {
        Err(MeshErrorV::UnknownDataType(s))
    }
}

/// Maps an attribute `type` token to its scalar kind and normalized flag;
/// an unknown token is rejected, never defaulted.
pub fn parse_data_type(s: &str) -> (r: Result<(DataType, bool), MeshError>)
    ensures
        match spec_parse_data_type(s@) {
            Ok(v) => r is Ok && r->Ok_0 == v,
            Err(e) => r is Err && r->Err_0@ == e,
        },
{
    if str_eq(s, "float") {
        Ok((DataType::Float, false))
    } else if str_eq(s, "half") {
        Ok((DataType::Fixed, false))
    } else if str_eq(s, "int") {
        Ok((DataType::Int, false))
    } else if str_eq(s, "uint") {
        Ok((DataType::UnsignedInt, false))
    } else if str_eq(s, "norm-int") {
        Ok((DataType::Int, true))
    } else if str_eq(s, "norm-uint") {
        Ok((DataType::UnsignedInt, true))
    } else if str_eq(s, "short") {
        Ok((DataType::Short, false))
    } else if str_eq(s, "ushort") {
        Ok((DataType::UnsignedShort, false))
    } else if str_eq(s, "norm-short") {
        Ok((DataType::Short, true))
    } else if str_eq(s, "norm-ushort") {
        Ok((DataType::UnsignedShort, true))
    } else if str_eq(s, "byte") {
        Ok((DataType::Byte, false))
    } else if str_eq(s, "ubyte") {
        Ok((DataType::UnsignedByte, false))
    } else if str_eq(s, "norm-byte") {
        Ok((DataType::Byte, true))
    } else if str_eq(s, "norm-ubyte") {
        Ok((DataType::UnsignedByte, true))
    } else {
        Err(MeshError::UnknownDataType(s.to_owned()))
    }
}

/// The index-type grammar: the `norm-*` forms are accepted, though the flag
/// they imply means nothing for indices.
pub open spec fn spec_parse_index_type(s: Seq<char>) -> Result<(IndexSize, bool), MeshErrorV> {
    if s == "uint"@ {
        Ok((IndexSize::UnsignedInt, false))
    } else if s == "norm-uint"@ {
        Ok((IndexSize::UnsignedInt, true))
    } else if s == "ushort"@ {
        Ok((IndexSize::UnsignedShort, false))
    } else if s == "norm-ushort"@ {
        Ok((IndexSize::UnsignedShort, true))
    } else if s == "ubyte"@ {
        Ok((IndexSize::UnsignedByte, false))
    } else if s == "norm-ubyte"@ {
        Ok((IndexSize::UnsignedByte, true))
    } else {
        Err(MeshErrorV::UnknownDataType(s))
    }
}

pub fn parse_index_type(s: &str) -> (r: Result<(IndexSize, bool), MeshError>)
    ensures
        match spec_parse_index_type(s@) {
            Ok(v) => r is Ok && r->Ok_0 == v,
            Err(e) => r is Err && r->Err_0@ == e,
        },
{
    if str_eq(s, "uint") {
        Ok((IndexSize::UnsignedInt, false))
    } else if str_eq(s, "norm-uint") {
        Ok((IndexSize::UnsignedInt, true))
    } else if str_eq(s, "ushort") {
        Ok((IndexSize::UnsignedShort, false))
    } else if str_eq(s, "norm-ushort") {
        Ok((IndexSize::UnsignedShort, true))
    } else if str_eq(s, "ubyte") {
        Ok((IndexSize::UnsignedByte, false))
    } else if str_eq(s, "norm-ubyte") {
        Ok((IndexSize::UnsignedByte, true))
    } else {
        Err(MeshError::UnknownDataType(s.to_owned()))
    }
}

/// The primitive-name grammar.
pub open spec fn spec_parse_primitive(s: Seq<char>) -> Result<Primitive, MeshErrorV> {
    if s == "lines"@ {
        Ok(Primitive::Lines)
    } else if s == "triangles"@ {
        Ok(Primitive::Triangles)
    } else if s == "tri-strip"@ {
        Ok(Primitive::TriangleStrip)
    } else if s == "tri-fan"@ {
        Ok(Primitive::TriangleFan)
    } else if s == "line-strip"@ {
        Ok(Primitive::LineStrip)
    } else if s == "line-loop"@ {
        Ok(Primitive::LineLoop)
    } else if s == "points"@ {
        Ok(Primitive::Points)
    } else {
        Err(MeshErrorV::UnknownPrimitive(s))
    }
}

pub fn parse_primitive(s: &str) -> (r: Result<Primitive, MeshError>)
    ensures
        match spec_parse_primitive(s@) {
            Ok(v) => r is Ok && r->Ok_0 == v,
            Err(e) => r is Err && r->Err_0@ == e,
        },
{
    if str_eq(s, "lines") {
        Ok(Primitive::Lines)
    } else if str_eq(s, "triangles") {
        Ok(Primitive::Triangles)
    } else if str_eq(s, "tri-strip") {
        Ok(Primitive::TriangleStrip)
    } else if str_eq(s, "tri-fan") {
        Ok(Primitive::TriangleFan)
    } else if str_eq(s, "line-strip") {
        Ok(Primitive::LineStrip)
    } else if str_eq(s, "line-loop") {
        Ok(Primitive::LineLoop)
    } else if str_eq(s, "points") {
        Ok(Primitive::Points)
    } else {
        Err(MeshError::UnknownPrimitive(s.to_owned()))
    }
}

// ---------------------------------------------------------------------------
// XML attribute lookup
// ---------------------------------------------------------------------------
/// The value of the first XML attribute named `name`; a missing required
/// attribute is an error, never a default.
pub open spec fn spec_find_attribute(attrs: Seq<(Seq<char>, Seq<char>)>, name: Seq<char>) -> Result<
    Seq<char>,
    MeshErrorV,
>
    decreases attrs.len(),
{
    if attrs.len() == 0 {
        Err(MeshErrorV::NonExistingAttribute(name))
    } else if attrs[0].0 == name {
        Ok(attrs[0].1)
    } else {
        spec_find_attribute(attrs.skip(1), name)
    }
}

pub fn find_attribute(attributes: &Vec<(String, String)>, name: &str) -> (r: Result<
    String,
    MeshError,
>)
    ensures
        match spec_find_attribute(
            attributes@.map_values(|p: (String, String)| (p.0@, p.1@)),
            name@,
        ) {
            Ok(v) => r is Ok && r->Ok_0@ == v,
            Err(e) => r is Err && r->Err_0@ == e,
        },
{
    let ghost aseq = attributes@.map_values(|p: (String, String)| (p.0@, p.1@));
    proof {
        assert(aseq.skip(0) =~= aseq);
    }
    let mut i: usize = 0;
    while i < attributes.len()
        invariant
            i <= attributes@.len(),
            aseq == attributes@.map_values(|p: (String, String)| (p.0@, p.1@)),
            spec_find_attribute(aseq.skip(i as int), name@) == spec_find_attribute(aseq, name@),
        decreases attributes@.len() - i,
    {
        proof {
            assert(aseq[i as int] == (attributes@[i as int].0@, attributes@[i as int].1@));
            assert(aseq.skip(i as int).len() > 0);
            assert(aseq.skip(i as int)[0] == aseq[i as int]);
            assert(aseq.skip(i as int).skip(1) =~= aseq.skip(i + 1));
        }
        if str_eq(attributes[i].0.as_str(), name) {
            return Ok(attributes[i].1.clone());
        }
        i += 1;
    }
    proof {
        assert(aseq.skip(attributes@.len() as int) =~= Seq::<(Seq<char>, Seq<char>)>::empty());
    }
    Err(MeshError::NonExistingAttribute(name.to_owned()))
}

/// `find_attribute`, then an unsigned decimal parse of the value.
pub open spec fn spec_find_attribute_u32(
    attrs: Seq<(Seq<char>, Seq<char>)>,
    name: Seq<char>,
) -> Result<u32, MeshErrorV> {
    match spec_find_attribute(attrs, name) {
        Ok(v) => match spec_parse_u32(v) {
            Some(x) => Ok(x),
            None => Err(MeshErrorV::ParseAttributeDataError(v)),
        },
        Err(e) => Err(e),
    }
}

pub fn find_attribute_parse_u32(attributes: &Vec<(String, String)>, name: &str) -> (r: Result<
    u32,
    MeshError,
>)
    ensures
        match spec_find_attribute_u32(
            attributes@.map_values(|p: (String, String)| (p.0@, p.1@)),
            name@,
        ) {
            Ok(v) => r is Ok && r->Ok_0 == v,
            Err(e) => r is Err && r->Err_0@ == e,
        },
{
    match find_attribute(attributes, name) {
        Ok(v) => match parse_u32_str(v.as_str()) {
            Some(x) => Ok(x),
            None => Err(MeshError::ParseAttributeDataError(v)),
        },
        Err(e) => Err(e),
    }
}

/// `find_attribute`, then a signed decimal parse of the value.
pub open spec fn spec_find_attribute_i32(
    attrs: Seq<(Seq<char>, Seq<char>)>,
    name: Seq<char>,
) -> Result<i32, MeshErrorV> {
    match spec_find_attribute(attrs, name) {
        Ok(v) => match spec_parse_i32(v) {
            Some(x) => Ok(x),
            None => Err(MeshErrorV::ParseAttributeDataError(v)),
        },
        Err(e) => Err(e),
    }
}

pub fn find_attribute_parse_i32(attributes: &Vec<(String, String)>, name: &str) -> (r: Result<
    i32,
    MeshError,
>)
    ensures
        match spec_find_attribute_i32(
            attributes@.map_values(|p: (String, String)| (p.0@, p.1@)),
            name@,
        ) {
            Ok(v) => r is Ok && r->Ok_0 == v,
            Err(e) => r is Err && r->Err_0@ == e,
        },
{
    match find_attribute(attributes, name) {
        Ok(v) => match parse_i32_str(v.as_str()) {
            Some(x) => Ok(x),
            None => Err(MeshError::ParseAttributeDataError(v)),
        },
        Err(e) => Err(e),
    }
}

// ---------------------------------------------------------------------------
// Attribute descriptors
// ---------------------------------------------------------------------------
/// One parsed vertex attribute stream: its bind location, its shape, and its
/// data.
#[derive(Debug, Clone, PartialEq)]
pub struct Attribute {
    pub index: u32,
    pub vertex_attribute: VertexAttribute,
    pub data: VertexAttributeValues,
}

/// The mathematical image of an `Attribute`.
pub struct AttributeV {
    pub index: u32,
    pub vertex_attribute: VertexAttribute,
    pub data: ValuesV,
}

impl View for Attribute {
    type V = AttributeV;

    open spec fn view(&self) -> AttributeV {
        AttributeV { index: self.index, vertex_attribute: self.vertex_attribute, data: self.data@ }
    }
}

impl AttributeV {
    /// A parsed attribute is well shaped: its location is at most 16, its
    /// component count lies in the accepted range, and its store holds the
    /// declared kind.
    pub open spec fn wf(self) -> bool {
        &&& self.index <= 16
        &&& 1 <= self.vertex_attribute.components <= 5
        &&& self.data.kind() == self.vertex_attribute.data_type
    }

    /// How many whole elements the stream holds.
    pub open spec fn num_elements(self) -> int
        recommends
            self.vertex_attribute.components >= 1,
    {
        self.data.len() as int / self.vertex_attribute.components as int
    }

    /// The stream's total byte size: one scalar per component per element.
    pub open spec fn byte_size(self) -> nat {
        self.data.len() * self.vertex_attribute.data_type.spec_size()
    }
}

/// The integral/normalized/floating conflict rules on an `attribute`
/// element's optional `integral` flag.
pub open spec fn spec_integral_check(
    attrs: Seq<(Seq<char>, Seq<char>)>,
    data_type: DataType,
    normalized: bool,
) -> Result<(), MeshErrorV> {
    match spec_find_attribute(attrs, "integral"@) {
        Ok(v) => match spec_parse_bool(v) {
            Some(is_integral) => if normalized && is_integral {
                Err(MeshErrorV::IntegralNormalizedError)
            } else if data_type.spec_is_floating_point() && is_integral {
                Err(MeshErrorV::IntegralFloatingError)
            } else {
                Ok(())
            },
            None => Err(MeshErrorV::ParseBoolDataError(v)),
        },
        Err(_) => Ok(()),
    }
}

/// Builds one attribute from an `attribute` element's XML attributes and its
/// text content.
pub open spec fn spec_attribute_new(attrs: Seq<(Seq<char>, Seq<char>)>, data: Seq<char>) -> Result<
    AttributeV,
    MeshErrorV,
> {
    match spec_find_attribute_u32(attrs, "index"@) {
        Err(e) => Err(e),
        Ok(index) => if index > 16 {
            Err(MeshErrorV::InvalidVertexAttributeLocation(index))
        } else {
            match spec_find_attribute_i32(attrs, "size"@) {
                Err(e) => Err(e),
                Ok(size) => if !(1 <= size <= 5) {
                    Err(MeshErrorV::InvalidVertexAttributeSize(size))
                } else {
                    match spec_find_attribute(attrs, "type"@) {
                        Err(e) => Err(e),
                        Ok(type_token) => match spec_parse_data_type(type_token) {
                            Err(e) => Err(e),
                            Ok((data_type, normalized)) => match spec_integral_check(
                                attrs,
                                data_type,
                                normalized,
                            ) {
                                Err(e) => Err(e),
                                Ok(_) => match spec_parse_attribute_values(data_type, data) {
                                    Err(e) => Err(e),
                                    Ok(values) => Ok(
                                        AttributeV {
                                            index,
                                            vertex_attribute: VertexAttribute {
                                                components: size,
                                                data_type,
                                                normalized,
                                            },
                                            data: values,
                                        },
                                    ),
                                },
                            },
                        },
                    }
                },
            }
        },
    }
}

/// A built attribute is well shaped.
pub proof fn lemma_attribute_new_wf(attrs: Seq<(Seq<char>, Seq<char>)>, data: Seq<char>)
    ensures
        spec_attribute_new(attrs, data) matches Ok(a) ==> a.wf(),
{
    if spec_attribute_new(attrs, data) is Ok {
        let a = spec_attribute_new(attrs, data)->Ok_0;
        let dt = a.vertex_attribute.data_type;
        let empty = ValuesV::empty_of(dt)->Ok_0;
        assert(empty.kind() == dt);
        empty.lemma_parse_all_kind(crate::text::split_ws(data));
    }
}

impl Attribute {
    /// Reads `index`, `size`, `type` and the optional `integral` flag, then
    /// parses the element text by the resolved kind.
    pub fn new(attributes: &Vec<(String, String)>, string_data: &str) -> (r: Result<
        Self,
        MeshError,
    >)
        ensures
            match spec_attribute_new(
                attributes@.map_values(|p: (String, String)| (p.0@, p.1@)),
                string_data@,
            ) {
                Ok(a) => r is Ok && r->Ok_0@ == a,
                Err(e) => r is Err && r->Err_0@ == e,
            },
    {
        let index = match find_attribute_parse_u32(attributes, "index") {
            Ok(v) => v,
            Err(e) => {
                return Err(e);
            },
        };
        if index > 16 {
            return Err(MeshError::InvalidVertexAttributeLocation(index));
        }
        let size = match find_attribute_parse_i32(attributes, "size") {
            Ok(v) => v,
            Err(e) => {
                return Err(e);
            },
        };
        if !(1 <= size && size <= 5) {
            return Err(MeshError::InvalidVertexAttributeSize(size));
        }
        let type_token = match find_attribute(attributes, "type") {
            Ok(v) => v,
            Err(e) => {
                return Err(e);
            },
        };
        let (data_type, normalized) = match parse_data_type(type_token.as_str()) {
            Ok(v) => v,
            Err(e) => {
                return Err(e);
            },
        };
        match find_attribute(attributes, "integral") {
            Ok(v) => match parse_bool_str(v.as_str()) {
                Some(is_integral) => {
                    if normalized && is_integral {
                        return Err(MeshError::IntegralNormalizedError);
                    }
                    if data_type.is_floating_point() && is_integral {
                        return Err(MeshError::IntegralFloatingError);
                    }
                },
                None => {
                    return Err(MeshError::ParseBoolDataError(v));
                },
            },
            Err(_) => {},
        }
        let vertex_attribute = VertexAttribute::new(size, data_type, normalized);
        let data = match parse_attribute_values(data_type, string_data) {
            Ok(v) => v,
            Err(e) => {
                return Err(e);
            },
        };
        Ok(Attribute { index, vertex_attribute, data })
    }

    /// How many whole elements the stream holds.
    pub fn num_elements(&self) -> (r: usize)
        requires
            1 <= self.vertex_attribute.components,
        ensures
            r == self@.num_elements(),
    {
        self.data.len() / (self.vertex_attribute.components as usize)
    }

    /// The stream's total byte size.
    pub fn byte_size(&self) -> (r: usize)
        requires
            self@.byte_size() <= usize::MAX,
        ensures
            r == self@.byte_size(),
    {
        self.data.len() * self.vertex_attribute.data_type.size()
    }
}

// ---------------------------------------------------------------------------
// Index descriptors
// ---------------------------------------------------------------------------
/// One parsed index stream: its width and its data.
#[derive(Debug, Clone, PartialEq)]
pub struct IndicesData {
    pub index_size: IndexSize,
    pub data: IndicesValues,
}

/// The mathematical image of an `IndicesData`.
pub struct IndicesV {
    pub index_size: IndexSize,
    pub data: IdxValuesV,
}

impl View for IndicesData {
    type V = IndicesV;

    open spec fn view(&self) -> IndicesV {
        IndicesV { index_size: self.index_size, data: self.data@ }
    }
}

impl IndicesV {
    pub open spec fn wf(self) -> bool {
        self.data.width() == self.index_size
    }

    /// The stream's total byte size.
    pub open spec fn byte_size(self) -> nat {
        self.data.len() * self.index_size.spec_size()
    }
}

/// Builds one index stream from an `indices` element's XML attributes and
/// its text content.
pub open spec fn spec_indices_new(attrs: Seq<(Seq<char>, Seq<char>)>, data: Seq<char>) -> Result<
    IndicesV,
    MeshErrorV,
> {
    match spec_find_attribute(attrs, "type"@) {
        Err(e) => Err(e),
        Ok(type_token) => match spec_parse_index_type(type_token) {
            Err(e) => Err(e),
            Ok((index_size, _)) => match spec_parse_indices_values(index_size, data) {
                Err(e) => Err(e),
                Ok(values) => Ok(IndicesV { index_size, data: values }),
            },
        },
    }
}

impl IndicesData {
    pub fn new(attributes: &Vec<(String, String)>, string_data: &str) -> (r: Result<
        Self,
        MeshError,
    >)
        ensures
            match spec_indices_new(
                attributes@.map_values(|p: (String, String)| (p.0@, p.1@)),
                string_data@,
            ) {
                Ok(d) => r is Ok && r->Ok_0@ == d,
                Err(e) => r is Err && r->Err_0@ == e,
            },
    {
        let type_token = match find_attribute(attributes, "type") {
            Ok(v) => v,
            Err(e) => {
                return Err(e);
            },
        };
        let (index_size, _normalized) = match parse_index_type(type_token.as_str()) {
            Ok(v) => v,
            Err(e) => {
                return Err(e);
            },
        };
        let data = match parse_indices_values(index_size, string_data) {
            Ok(v) => v,
            Err(e) => {
                return Err(e);
            },
        };
        Ok(IndicesData { index_size, data })
    }

    pub fn byte_size(&self) -> (r: usize)
        requires
            self@.byte_size() <= usize::MAX,
        ensures
            r == self@.byte_size(),
    {
        self.data.len() * self.index_size.size()
    }
}

// ---------------------------------------------------------------------------
// Render commands
// ---------------------------------------------------------------------------
/// One replayable draw: an indexed draw whose byte offset is filled in at
/// layout time, or an array draw fully known at parse time.
#[derive(Debug, Clone, PartialEq)]
pub enum RenderCommand {
    Indexed {
        indexes: IndicesData,
        primitive: Primitive,
        count: usize,
        index_size: IndexSize,
        offset: usize,
        primitive_restart: Option<u32>,
    },
    Array { primitive: Primitive, start: i32, end: i32 },
}

/// The mathematical image of a `RenderCommand`.
pub enum RenderCommandV {
    Indexed {
        indexes: IndicesV,
        primitive: Primitive,
        count: nat,
        index_size: IndexSize,
        offset: nat,
        primitive_restart: Option<u32>,
    },
    Array { primitive: Primitive, start: i32, end: i32 },
}

impl View for RenderCommand {
    type V = RenderCommandV;

    open spec fn view(&self) -> RenderCommandV {
        match self {
            RenderCommand::Indexed {
                indexes,
                primitive,
                count,
                index_size,
                offset,
                primitive_restart,
            } => RenderCommandV::Indexed {
                indexes: indexes@,
                primitive: *primitive,
                count: *count as nat,
                index_size: *index_size,
                offset: *offset as nat,
                primitive_restart: *primitive_restart,
            },
            RenderCommand::Array { primitive, start, end } => RenderCommandV::Array {
                primitive: *primitive,
                start: *start,
                end: *end,
            },
        }
    }
}

/// Builds an array-draw command from an `arrays` element's XML attributes.
pub open spec fn spec_command_arrays(attrs: Seq<(Seq<char>, Seq<char>)>) -> Result<
    RenderCommandV,
    MeshErrorV,
> {
    match spec_find_attribute(attrs, "cmd"@) {
        Err(e) => Err(e),
        Ok(prim_token) => match spec_parse_primitive(prim_token) {
            Err(e) => Err(e),
            Ok(primitive) => match spec_find_attribute_i32(attrs, "start"@) {
                Err(e) => Err(e),
                Ok(start) => if start < 0 {
                    Err(MeshErrorV::InvalidArrayStart(start))
                } else {
                    match spec_find_attribute_i32(attrs, "end"@) {
                        Err(e) => Err(e),
                        Ok(end) => if end <= 0 {
                            Err(MeshErrorV::InvalidArrayCount(end))
                        } else {
                            Ok(RenderCommandV::Array { primitive, start, end })
                        },
                    }
                },
            },
        },
    }
}

/// The optional primitive-restart index: absent, or any value that does not
/// read as an unsigned integer, means none.
pub open spec fn spec_restart_of(attrs: Seq<(Seq<char>, Seq<char>)>) -> Option<u32> {
    match spec_find_attribute(attrs, "prim-restart"@) {
        Ok(v) => spec_parse_u32(v),
        Err(_) => None,
    }
}

/// Builds an indexed-draw command, in placeholder form: its byte offset
/// stays 0 until layout runs.
pub open spec fn spec_command_indices(attrs: Seq<(Seq<char>, Seq<char>)>, idx: IndicesV) -> Result<
    RenderCommandV,
    MeshErrorV,
> {
    match spec_find_attribute(attrs, "cmd"@) {
        Err(e) => Err(e),
        Ok(prim_token) => match spec_parse_primitive(prim_token) {
            Err(e) => Err(e),
            Ok(primitive) => Ok(
                RenderCommandV::Indexed {
                    primitive,
                    primitive_restart: spec_restart_of(attrs),
                    count: idx.data.len(),
                    index_size: idx.index_size,
                    offset: 0,
                    indexes: idx,
                },
            ),
        },
    }
}

impl RenderCommand {
    pub fn arrays(attributes: &Vec<(String, String)>) -> (r: Result<Self, MeshError>)
        ensures
            match spec_command_arrays(attributes@.map_values(|p: (String, String)| (p.0@, p.1@))) {
                Ok(c) => r is Ok && r->Ok_0@ == c,
                Err(e) => r is Err && r->Err_0@ == e,
            },
    {
        let prim_token = match find_attribute(attributes, "cmd") {
            Ok(v) => v,
            Err(e) => {
                return Err(e);
            },
        };
        let primitive = match parse_primitive(prim_token.as_str()) {
            Ok(v) => v,
            Err(e) => {
                return Err(e);
            },
        };
        let start = match find_attribute_parse_i32(attributes, "start") {
            Ok(v) => v,
            Err(e) => {
                return Err(e);
            },
        };
        if start < 0 {
            return Err(MeshError::InvalidArrayStart(start));
        }
        let end = match find_attribute_parse_i32(attributes, "end") {
            Ok(v) => v,
            Err(e) => {
                return Err(e);
            },
        };
        if end <= 0 {
            return Err(MeshError::InvalidArrayCount(end));
        }
        Ok(RenderCommand::Array { primitive, start, end })
    }

    pub fn indices(attributes: &Vec<(String, String)>, indexes: IndicesData) -> (r: Result<
        Self,
        MeshError,
    >)
        ensures
            match spec_command_indices(
                attributes@.map_values(|p: (String, String)| (p.0@, p.1@)),
                indexes@,
            ) {
                Ok(c) => r is Ok && r->Ok_0@ == c,
                Err(e) => r is Err && r->Err_0@ == e,
            },
    {
        let prim_token = match find_attribute(attributes, "cmd") {
            Ok(v) => v,
            Err(e) => {
                return Err(e);
            },
        };
        let primitive = match parse_primitive(prim_token.as_str()) {
            Ok(v) => v,
            Err(e) => {
                return Err(e);
            },
        };
        let primitive_restart = match find_attribute(attributes, "prim-restart") {
            Ok(v) => parse_u32_str(v.as_str()),
            Err(_) => None,
        };
        // count and index width come from the data now; the byte offset is
        // filled in once layout runs
        let count = indexes.data.len();
        let index_size = indexes.index_size;
        Ok(
            RenderCommand::Indexed {
                primitive,
                primitive_restart,
                count,
                index_size,
                offset: 0,
                indexes,
            },
        )
    }
}

// ---------------------------------------------------------------------------
// Named vertex-array objects
// ---------------------------------------------------------------------------
/// The attribute locations that one `vao` element's `source` children name,
/// read in order; attributes of the children other than `attrib` are passed
/// over.
pub open spec fn spec_collect_sources(attrs: Seq<(Seq<char>, Seq<char>)>) -> Result<
    Seq<u32>,
    MeshErrorV,
>
    decreases attrs.len(),
{
    if attrs.len() == 0 {
        Ok(Seq::empty())
    } else if attrs[0].0 != "attrib"@ {
        spec_collect_sources(attrs.skip(1))
    } else {
        match spec_parse_u32(attrs[0].1) {
            None => Err(MeshErrorV::ParseDataError(attrs[0].1)),
            Some(x) => match spec_collect_sources(attrs.skip(1)) {
                Ok(rest) => Ok(seq![x] + rest),
                Err(e) => Err(e),
            },
        }
    }
}

/// Builds one named-VAO entry: the `vao` element's name and the attribute
/// locations its `source` children reference.
pub open spec fn spec_process_vao(
    vao_attrs: Seq<(Seq<char>, Seq<char>)>,
    source_attrs: Seq<(Seq<char>, Seq<char>)>,
) -> Result<(Seq<char>, Seq<u32>), MeshErrorV> {
    match spec_find_attribute(vao_attrs, "name"@) {
        Err(e) => Err(e),
        Ok(name) => match spec_collect_sources(source_attrs) {
            Err(e) => Err(e),
            Ok(locations) => Ok((name, locations)),
        },
    }
}

pub fn process_vao(
    vao_attributes: &Vec<(String, String)>,
    source_attributes: &Vec<(String, String)>,
) -> (r: Result<(String, Vec<u32>), MeshError>)
    ensures
        match spec_process_vao(
            vao_attributes@.map_values(|p: (String, String)| (p.0@, p.1@)),
            source_attributes@.map_values(|p: (String, String)| (p.0@, p.1@)),
        ) {
            Ok(v) => r is Ok && r->Ok_0.0@ == v.0 && r->Ok_0.1@ == v.1,
            Err(e) => r is Err && r->Err_0@ == e,
        },
{
    let name = match find_attribute(vao_attributes, "name") {
        Ok(v) => v,
        Err(e) => {
            return Err(e);
        },
    };
    let ghost sseq = source_attributes@.map_values(|p: (String, String)| (p.0@, p.1@));
    let ghost vseq = vao_attributes@.map_values(|p: (String, String)| (p.0@, p.1@));
    proof {
        assert(sseq.skip(0) =~= sseq);
    }
    let mut attributes: Vec<u32> = Vec::new();
    let mut i: usize = 0;
    while i < source_attributes.len()
        invariant
            i <= source_attributes@.len(),
            sseq == source_attributes@.map_values(|p: (String, String)| (p.0@, p.1@)),
            vseq == vao_attributes@.map_values(|p: (String, String)| (p.0@, p.1@)),
            spec_find_attribute(vseq, "name"@) == Ok::<Seq<char>, MeshErrorV>(name@),
            spec_collect_sources(sseq) == (match spec_collect_sources(sseq.skip(i as int)) {
                Ok(rest) => Ok(attributes@ + rest),
                Err(e) => Err::<Seq<u32>, MeshErrorV>(e),
            }),
        decreases source_attributes@.len() - i,
    {
        proof {
            assert(sseq[i as int] == (source_attributes@[i as int].0@, source_attributes@[i as int].1@));
            assert(sseq.skip(i as int).len() > 0);
            assert(sseq.skip(i as int)[0] == sseq[i as int]);
            assert(sseq.skip(i as int).skip(1) =~= sseq.skip(i + 1));
        }
        if str_eq(source_attributes[i].0.as_str(), "attrib") {
            match parse_u32_str(source_attributes[i].1.as_str()) {
                Some(x) => {
                    let ghost old_attrs = attributes@;
                    attributes.push(x);
                    proof {
                        assert(attributes@ =~= old_attrs + seq![x]);
                        if spec_collect_sources(sseq.skip(i + 1)) is Ok {
                            let rest = spec_collect_sources(sseq.skip(i + 1))->Ok_0;
                            assert(old_attrs + (seq![x] + rest) =~= (old_attrs + seq![x]) + rest);
                        }
                    }
                },
                None => {
                    proof {
                        assert(spec_collect_sources(sseq.skip(i as int)) == Err::<
                            Seq<u32>,
                            MeshErrorV,
                        >(MeshErrorV::ParseDataError(sseq[i as int].1)));
                    }
                    return Err(MeshError::ParseDataError(source_attributes[i].1.clone()));
                },
            }
        }
        i += 1;
    }
    proof {
        assert(sseq.skip(source_attributes@.len() as int) =~= Seq::<(Seq<char>, Seq<char>)>::empty());
        if spec_collect_sources(sseq) is Ok {
            assert(attributes@ + Seq::<u32>::empty() =~= attributes@);
        }
    }
    Ok((name, attributes))
}

// ---------------------------------------------------------------------------
// The structural parser
// ---------------------------------------------------------------------------
/// Where in the two-level schema the parser stands, with the data that
/// position needs.
pub enum ParserState {
    Initial,
    JustPassedMeshRoot,
    InAttributeTag { attributes: Vec<(String, String)> },
    InVaoTag { vao_attributes: Vec<(String, String)>, sources_attributes: Vec<(String, String)> },
    InIndicesTag { attributes: Vec<(String, String)> },
}

/// The mathematical image of a `ParserState`.
pub enum ParserStateV {
    Initial,
    JustPassedMeshRoot,
    InAttributeTag { attributes: Seq<(Seq<char>, Seq<char>)> },
    InVaoTag {
        vao_attributes: Seq<(Seq<char>, Seq<char>)>,
        sources_attributes: Seq<(Seq<char>, Seq<char>)>,
    },
    InIndicesTag { attributes: Seq<(Seq<char>, Seq<char>)> },
}

impl View for ParserState {
    type V = ParserStateV;

    open spec fn view(&self) -> ParserStateV {
        match self {
            ParserState::Initial => ParserStateV::Initial,
            ParserState::JustPassedMeshRoot => ParserStateV::JustPassedMeshRoot,
            ParserState::InAttributeTag { attributes } => ParserStateV::InAttributeTag {
                attributes: attributes@.map_values(|p: (String, String)| (p.0@, p.1@)),
            },
            ParserState::InVaoTag { vao_attributes, sources_attributes } => ParserStateV::InVaoTag {
                vao_attributes: vao_attributes@.map_values(|p: (String, String)| (p.0@, p.1@)),
                sources_attributes: sources_attributes@.map_values(
                    |p: (String, String)| (p.0@, p.1@),
                ),
            },
            ParserState::InIndicesTag { attributes } => ParserStateV::InIndicesTag {
                attributes: attributes@.map_values(|p: (String, String)| (p.0@, p.1@)),
            },
        }
    }
}

/// The whole parse in flight: document nesting depth (0 is the document
/// root), the schema position, and everything accumulated so far, in
/// document order.
pub struct ParseStateV {
    pub depth: int,
    pub state: ParserStateV,
    pub attribs: Seq<AttributeV>,
    pub named_vao_list: Seq<(Seq<char>, Seq<u32>)>,
    pub commands: Seq<RenderCommandV>,
}

pub open spec fn spec_initial_state() -> ParseStateV {
    ParseStateV {
        depth: 0,
        state: ParserStateV::Initial,
        attribs: Seq::empty(),
        named_vao_list: Seq::empty(),
        commands: Seq::empty(),
    }
}

/// One event applied to the parse. The depth bookkeeping saturates at the
/// machine's integer bounds; within them it mirrors plain increments.
pub open spec fn spec_parse_step(st: ParseStateV, ev: MarkupEventV, path: Seq<char>) -> Result<
    ParseStateV,
    MeshErrorV,
> {
    match ev {
        MarkupEventV::Open { name, attrs } => {
            let next_depth: int = if st.depth == i64::MAX {
                st.depth
            } else {
                st.depth + 1
            };
            if st.depth == 0 {
                if name != "mesh"@ {
                    Err(MeshErrorV::MeshRootNotFound(path))
                } else {
                    Ok(
                        ParseStateV {
                            depth: next_depth,
                            state: ParserStateV::JustPassedMeshRoot,
                            ..st
                        },
                    )
                }
            } else if st.depth == 1 {
                if st.state is JustPassedMeshRoot && name != "attribute"@ {
                    Err(MeshErrorV::NoVertexAttributes(path))
                } else if name == "attribute"@ {
                    Ok(
                        ParseStateV {
                            depth: next_depth,
                            state: ParserStateV::InAttributeTag { attributes: attrs },
                            ..st
                        },
                    )
                } else if name == "vao"@ {
                    Ok(
                        ParseStateV {
                            depth: next_depth,
                            state: ParserStateV::InVaoTag {
                                vao_attributes: attrs,
                                sources_attributes: Seq::empty(),
                            },
                            ..st
                        },
                    )
                } else if name == "arrays"@ {
                    match spec_command_arrays(attrs) {
                        Ok(c) => Ok(
                            ParseStateV {
                                depth: next_depth,
                                state: ParserStateV::Initial,
                                commands: st.commands.push(c),
                                ..st
                            },
                        ),
                        Err(e) => Err(e),
                    }
                } else if name == "indices"@ {
                    Ok(
                        ParseStateV {
                            depth: next_depth,
                            state: ParserStateV::InIndicesTag { attributes: attrs },
                            ..st
                        },
                    )
                } else {
                    Ok(ParseStateV { depth: next_depth, state: ParserStateV::Initial, ..st })
                }
            } else if st.depth == 2 {
                if name == "source"@ {
                    match st.state {
                        ParserStateV::InVaoTag { vao_attributes, sources_attributes } => Ok(
                            ParseStateV {
                                depth: next_depth,
                                state: ParserStateV::InVaoTag {
                                    vao_attributes,
                                    sources_attributes: sources_attributes + attrs,
                                },
                                ..st
                            },
                        ),
                        _ => Err(MeshErrorV::SourceTagNotInVaoTag(path)),
                    }
                } else {
                    Ok(ParseStateV { depth: next_depth, ..st })
                }
            } else {
                Ok(ParseStateV { depth: next_depth, ..st })
            }
        },
        MarkupEventV::Text(data) => match st.state {
            ParserStateV::InAttributeTag { attributes } => match spec_attribute_new(
                attributes,
                data,
            ) {
                Ok(a) => Ok(
                    ParseStateV {
                        state: ParserStateV::Initial,
                        attribs: st.attribs.push(a),
                        ..st
                    },
                ),
                Err(e) => Err(e),
            },
            ParserStateV::InIndicesTag { attributes } => match spec_indices_new(attributes, data) {
                Ok(d) => match spec_command_indices(attributes, d) {
                    Ok(c) => Ok(
                        ParseStateV {
                            state: ParserStateV::Initial,
                            commands: st.commands.push(c),
                            ..st
                        },
                    ),
                    Err(e) => Err(e),
                },
                Err(e) => Err(e),
            },
            _ => Ok(st),
        },
        MarkupEventV::Close => {
            let next_depth: int = if st.depth == i64::MIN {
                st.depth
            } else {
                st.depth - 1
            };
            if st.depth <= 2 {
                match st.state {
                    ParserStateV::InVaoTag { vao_attributes, sources_attributes } => {
                        match spec_process_vao(vao_attributes, sources_attributes) {
                            Ok(nv) => Ok(
                                ParseStateV {
                                    depth: next_depth,
                                    state: ParserStateV::Initial,
                                    named_vao_list: st.named_vao_list.push(nv),
                                    ..st
                                },
                            ),
                            Err(e) => Err(e),
                        }
                    },
                    _ => Ok(ParseStateV { depth: next_depth, ..st }),
                }
            } else {
                Ok(ParseStateV { depth: next_depth, ..st })
            }
        },
        MarkupEventV::Other => Ok(st),
        MarkupEventV::End => Ok(st),
    }
}

/// The whole event stream applied in order; the first error aborts, and the
/// end of the document ends parsing whatever the state and depth are.
pub open spec fn spec_parse_events(
    st: ParseStateV,
    evs: Seq<MarkupEventV>,
    path: Seq<char>,
) -> Result<ParseStateV, MeshErrorV>
    decreases evs.len(),
{
    if evs.len() == 0 {
        Ok(st)
    } else if evs[0] is End {
        Ok(st)
    } else {
        match spec_parse_step(st, evs[0], path) {
            Ok(st2) => spec_parse_events(st2, evs.skip(1), path),
            Err(e) => Err(e),
        }
    }
}

/// The flat intermediate representation one document parses to.
#[derive(Debug, Clone, PartialEq)]
pub struct ParsedData {
    pub attribs: Vec<Attribute>,
    pub named_vao_list: Vec<(String, Vec<u32>)>,
    pub commands: Vec<RenderCommand>,
}

/// The mathematical image of a `ParsedData`.
pub struct ParsedDataV {
    pub attribs: Seq<AttributeV>,
    pub named_vao_list: Seq<(Seq<char>, Seq<u32>)>,
    pub commands: Seq<RenderCommandV>,
}

impl View for ParsedData {
    type V = ParsedDataV;

    open spec fn view(&self) -> ParsedDataV {
        ParsedDataV {
            attribs: self.attribs@.map_values(|a: Attribute| a@),
            named_vao_list: self.named_vao_list@.map_values(
                |p: (String, Vec<u32>)| (p.0@, p.1@),
            ),
            commands: self.commands@.map_values(|c: RenderCommand| c@),
        }
    }
}

/// What the document's markup events parse to.
pub open spec fn spec_parse_xml(evs: Seq<MarkupEventV>, path: Seq<char>) -> Result<
    ParsedDataV,
    MeshErrorV,
> {
    match spec_parse_events(spec_initial_state(), evs, path) {
        Ok(st) => Ok(
            ParsedDataV {
                attribs: st.attribs,
                named_vao_list: st.named_vao_list,
                commands: st.commands,
            },
        ),
        Err(e) => Err(e),
    }
}

/// The complete mesh: everything the loader hands on for drawing, laid out
/// and finalized.
#[derive(Debug)]
pub struct Mesh {
    attribs: Vec<Attribute>,
    attribute_offsets: Vec<usize>,
    attribute_buffer: Vec<u8>,
    named_vaos: Vec<NamedVaoLayout>,
    index_buffer: Vec<u8>,
    commands: Vec<RenderCommand>,
}

/// One named vertex-array object, resolved: the positions (into the mesh's
/// attribute list) of the attributes it binds, in source order.
#[derive(Debug, Clone, PartialEq)]
pub struct NamedVaoLayout {
    pub name: String,
    pub attributes: Vec<usize>,
}

impl Mesh {
    /// Streams the document and yields the flat intermediate representation,
    /// failing fast on the first malformed input.
    #[verifier::loop_isolation(false)]
    #[verifier::rlimit(60)]
    pub fn parse_xml(source: &str, path: &str) -> (r: Result<ParsedData, MeshError>)
        ensures
            match spec_parse_xml(doc_events(source@), path@) {
                Ok(pd) => r is Ok && r->Ok_0@ == pd,
                Err(e) => r is Err && r->Err_0@ == e,
            },
    {
        let mut reader = doc_reader_new(source);
        let mut depth: i64 = 0;
        let mut state = ParserState::Initial;
        let mut attribs: Vec<Attribute> = Vec::new();
        let mut named_vao_list: Vec<(String, Vec<u32>)> = Vec::new();
        let mut commands: Vec<RenderCommand> = Vec::new();
        proof {
            assert(attribs@.map_values(|a: Attribute| a@) =~= Seq::<AttributeV>::empty());
            assert(named_vao_list@.map_values(|p: (String, Vec<u32>)| (p.0@, p.1@)) =~= Seq::<
                (Seq<char>, Seq<u32>),
            >::empty());
            assert(commands@.map_values(|c: RenderCommand| c@) =~= Seq::<RenderCommandV>::empty());
        }
        loop
            invariant
                spec_parse_events(
                    ParseStateV {
                        depth: depth as int,
                        state: state@,
                        attribs: attribs@.map_values(|a: Attribute| a@),
                        named_vao_list: named_vao_list@.map_values(
                            |p: (String, Vec<u32>)| (p.0@, p.1@),
                        ),
                        commands: commands@.map_values(|c: RenderCommand| c@),
                    },
                    reader_events(reader),
                    path@,
                ) == spec_parse_events(spec_initial_state(), doc_events(source@), path@),
            decreases reader_events(reader).len(),
        {
            let ghost st_pre = ParseStateV {
                depth: depth as int,
                state: state@,
                attribs: attribs@.map_values(|a: Attribute| a@),
                named_vao_list: named_vao_list@.map_values(|p: (String, Vec<u32>)| (p.0@, p.1@)),
                commands: commands@.map_values(|c: RenderCommand| c@),
            };
            let ghost evs_pre = reader_events(reader);
            let ev = doc_reader_next(&mut reader);
            let ghost evv = ev@;
            proof {
                if evs_pre.len() > 0 {
                    assert(evv == evs_pre[0]);
                    assert(reader_events(reader) == evs_pre.skip(1));
                }
            }
            match ev {
                MarkupEvent::End => {
                    proof {
                        assert(spec_parse_events(st_pre, evs_pre, path@) == Ok::<
                            ParseStateV,
                            MeshErrorV,
                        >(st_pre));
                    }
                    return Ok(ParsedData { attribs, named_vao_list, commands });
                },
                MarkupEvent::Open { name, attrs } => {
                    proof {
                        assert(evv == (MarkupEventV::Open {
                            name: name@,
                            attrs: attrs@.map_values(|p: (String, String)| (p.0@, p.1@)),
                        }));
                    }
                    let ghost attrsv = attrs@.map_values(|p: (String, String)| (p.0@, p.1@));
                    let next_depth: i64 = if depth == i64::MAX {
                        depth
                    } else {
                        depth + 1
                    };
                    if depth == 0 {
                        if !str_eq(name.as_str(), "mesh") {
                            let e = MeshError::MeshRootNotFound(path.to_owned());
                            proof {
                                assert(spec_parse_step(st_pre, evv, path@) == Err::<
                                    ParseStateV,
                                    MeshErrorV,
                                >(e@));
                            }
                            return Err(e);
                        }
                        state = ParserState::JustPassedMeshRoot;
                    } else if depth == 1 {
                        let is_attribute = str_eq(name.as_str(), "attribute");
                        let was_root_pending = match &state {
                            ParserState::JustPassedMeshRoot => true,
                            _ => false,
                        };
                        if was_root_pending && !is_attribute {
                            let e = MeshError::NoVertexAttributes(path.to_owned());
                            proof {
                                assert(spec_parse_step(st_pre, evv, path@) == Err::<
                                    ParseStateV,
                                    MeshErrorV,
                                >(e@));
                            }
                            return Err(e);
                        }
                        if is_attribute {
                            state = ParserState::InAttributeTag { attributes: attrs };
                        } else if str_eq(name.as_str(), "vao") {
                            let empty_sources: Vec<(String, String)> = Vec::new();
                            proof {
                                assert(empty_sources@.map_values(
                                    |p: (String, String)| (p.0@, p.1@),
                                ) =~= Seq::<(Seq<char>, Seq<char>)>::empty());
                            }
                            state = ParserState::InVaoTag {
                                vao_attributes: attrs,
                                sources_attributes: empty_sources,
                            };
                        } else if str_eq(name.as_str(), "arrays") {
                            match RenderCommand::arrays(&attrs) {
                                Ok(c) => {
                                    let ghost old_cmds = commands@;
                                    let ghost cv = c@;
                                    commands.push(c);
                                    proof {
                                        assert(commands@.map_values(|c: RenderCommand| c@)
                                            =~= old_cmds.map_values(|c: RenderCommand| c@).push(
                                            cv,
                                        ));
                                    }
                                    state = ParserState::Initial;
                                },
                                Err(e) => {
                                    proof {
                                        assert(spec_parse_step(st_pre, evv, path@) == Err::<
                                            ParseStateV,
                                            MeshErrorV,
                                        >(e@));
                                    }
                                    return Err(e);
                                },
                            }
                        } else if str_eq(name.as_str(), "indices") {
                            state = ParserState::InIndicesTag { attributes: attrs };
                        } else {
                            state = ParserState::Initial;
                        }
                    } else if depth == 2 {
                        if str_eq(name.as_str(), "source") {
                            match state {
                                ParserState::InVaoTag {
                                    vao_attributes,
                                    mut sources_attributes,
                                } => {
                                    let ghost old_sa = sources_attributes@;
                                    let mut incoming = attrs;
                                    sources_attributes.append(&mut incoming);
                                    proof {
                                        assert(sources_attributes@.map_values(
                                            |p: (String, String)| (p.0@, p.1@),
                                        ) =~= old_sa.map_values(|p: (String, String)| (p.0@, p.1@))
                                            + attrsv);
                                    }
                                    state = ParserState::InVaoTag {
                                        vao_attributes,
                                        sources_attributes,
                                    };
                                },
                                _ => {
                                    let e = MeshError::SourceTagNotInVaoTag(path.to_owned());
                                    proof {
                                        assert(spec_parse_step(st_pre, evv, path@) == Err::<
                                            ParseStateV,
                                            MeshErrorV,
                                        >(e@));
                                    }
                                    return Err(e);
                                },
                            }
                        }
                    }
                    depth = next_depth;
                    proof {
                        let st_now = ParseStateV {
                            depth: depth as int,
                            state: state@,
                            attribs: attribs@.map_values(|a: Attribute| a@),
                            named_vao_list: named_vao_list@.map_values(
                                |p: (String, Vec<u32>)| (p.0@, p.1@),
                            ),
                            commands: commands@.map_values(|c: RenderCommand| c@),
                        };
                        assert(spec_parse_step(st_pre, evv, path@) == Ok::<
                            ParseStateV,
                            MeshErrorV,
                        >(st_now));
                    }
                },
                MarkupEvent::Text(data) => {
                    proof {
                        assert(evv == MarkupEventV::Text(data@));
                    }
                    state = match state {
                        ParserState::InAttributeTag { attributes } => {
                            match Attribute::new(&attributes, data.as_str()) {
                                Ok(a) => {
                                    let ghost old_attribs = attribs@;
                                    let ghost av = a@;
                                    attribs.push(a);
                                    proof {
                                        assert(attribs@.map_values(|a: Attribute| a@)
                                            =~= old_attribs.map_values(|a: Attribute| a@).push(
                                            av,
                                        ));
                                    }
                                    ParserState::Initial
                                },
                                Err(e) => {
                                    proof {
                                        assert(spec_parse_step(st_pre, evv, path@) == Err::<
                                            ParseStateV,
                                            MeshErrorV,
                                        >(e@));
                                    }
                                    return Err(e);
                                },
                            }
                        },
                        ParserState::InIndicesTag { attributes } => {
                            match IndicesData::new(&attributes, data.as_str()) {
                                Ok(d) => match RenderCommand::indices(&attributes, d) {
                                    Ok(c) => {
                                        let ghost old_cmds = commands@;
                                        let ghost cv = c@;
                                        commands.push(c);
                                        proof {
                                            assert(commands@.map_values(|c: RenderCommand| c@)
                                                =~= old_cmds.map_values(
                                                |c: RenderCommand| c@,
                                            ).push(cv));
                                        }
                                        ParserState::Initial
                                    },
                                    Err(e) => {
                                        proof {
                                            assert(spec_parse_step(st_pre, evv, path@) == Err::<
                                                ParseStateV,
                                                MeshErrorV,
                                            >(e@));
                                        }
                                        return Err(e);
                                    },
                                },
                                Err(e) => {
                                    proof {
                                        assert(spec_parse_step(st_pre, evv, path@) == Err::<
                                            ParseStateV,
                                            MeshErrorV,
                                        >(e@));
                                    }
                                    return Err(e);
                                },
                            }
                        },
                        other => other,
                    };
                    proof {
                        let st_now = ParseStateV {
                            depth: depth as int,
                            state: state@,
                            attribs: attribs@.map_values(|a: Attribute| a@),
                            named_vao_list: named_vao_list@.map_values(
                                |p: (String, Vec<u32>)| (p.0@, p.1@),
                            ),
                            commands: commands@.map_values(|c: RenderCommand| c@),
                        };
                        assert(spec_parse_step(st_pre, evv, path@) == Ok::<
                            ParseStateV,
                            MeshErrorV,
                        >(st_now));
                    }
                },
                MarkupEvent::Close => {
                    proof {
                        assert(evv == MarkupEventV::Close);
                    }
                    // a `source` child also closes at this depth; only the
                    // `vao` element's own closure finalizes the entry
                    if depth <= 2 {
                        state = match state {
                            ParserState::InVaoTag { vao_attributes, sources_attributes } => {
                                match process_vao(&vao_attributes, &sources_attributes) {
                                    Ok(nv) => {
                                        let ghost old_named = named_vao_list@;
                                        let ghost nv0 = nv.0@;
                                        let ghost nv1 = nv.1@;
                                        named_vao_list.push(nv);
                                        proof {
                                            assert(named_vao_list@.map_values(
                                                |p: (String, Vec<u32>)| (p.0@, p.1@),
                                            ) =~= old_named.map_values(
                                                |p: (String, Vec<u32>)| (p.0@, p.1@),
                                            ).push((nv0, nv1)));
                                        }
                                        ParserState::Initial
                                    },
                                    Err(e) => {
                                        proof {
                                            assert(spec_parse_step(st_pre, evv, path@) == Err::<
                                                ParseStateV,
                                                MeshErrorV,
                                            >(e@));
                                        }
                                        return Err(e);
                                    },
                                }
                            },
                            other => other,
                        };
                    }
                    depth = if depth == i64::MIN {
                        depth
                    } else {
                        depth - 1
                    };
                    proof {
                        let st_now = ParseStateV {
                            depth: depth as int,
                            state: state@,
                            attribs: attribs@.map_values(|a: Attribute| a@),
                            named_vao_list: named_vao_list@.map_values(
                                |p: (String, Vec<u32>)| (p.0@, p.1@),
                            ),
                            commands: commands@.map_values(|c: RenderCommand| c@),
                        };
                        assert(spec_parse_step(st_pre, evv, path@) == Ok::<
                            ParseStateV,
                            MeshErrorV,
                        >(st_now));
                    }
                },
                MarkupEvent::Other => {
                    proof {
                        assert(evv == MarkupEventV::Other);
                        assert(spec_parse_step(st_pre, evv, path@) == Ok::<
                            ParseStateV,
                            MeshErrorV,
                        >(st_pre));
                    }
                },
            }
        }
    }
}

/// The position of the first attribute declaring location `loc`.
fn find_position(attribs: &Vec<Attribute>, loc: u32) -> (r: Option<usize>)
    ensures
        ({
            let aseq = attribs@.map_values(|a: Attribute| a@);
            match r {
                Some(p) => spec_resolve_position(aseq, loc, 0) == Some(p as int) && p
                    < attribs@.len(),
                None => spec_resolve_position(aseq, loc, 0) is None,
            }
        }),
{
    let ghost aseq = attribs@.map_values(|a: Attribute| a@);
    let mut i: usize = 0;
    while i < attribs.len()
        invariant
            i <= attribs@.len(),
            aseq == attribs@.map_values(|a: Attribute| a@),
            spec_resolve_position(aseq, loc, i as int) == spec_resolve_position(aseq, loc, 0),
        decreases attribs@.len() - i,
    {
        proof {
            assert(aseq[i as int] == attribs@[i as int]@);
        }
        if attribs[i].index == loc {
            return Some(i);
        }
        i += 1;
    }
    None
}

/// The position of the first resolved VAO with this name.
fn find_vao_slot(vaos: &Vec<NamedVaoLayout>, name: &str) -> (r: Option<usize>)
    ensures
        ({
            let vseq = vaos@.map_values(|v: NamedVaoLayout| v@);
            match r {
                Some(p) => spec_vao_slot(vseq, name@, 0) == Some(p as int) && p < vaos@.len(),
                None => spec_vao_slot(vseq, name@, 0) is None,
            }
        }),
{
    let ghost vseq = vaos@.map_values(|v: NamedVaoLayout| v@);
    let mut i: usize = 0;
    while i < vaos.len()
        invariant
            i <= vaos@.len(),
            vseq == vaos@.map_values(|v: NamedVaoLayout| v@),
            spec_vao_slot(vseq, name@, i as int) == spec_vao_slot(vseq, name@, 0),
        decreases vaos@.len() - i,
    {
        proof {
            assert(vseq[i as int] == vaos@[i as int]@);
        }
        if str_eq(vaos[i].name.as_str(), name) {
            return Some(i);
        }
        i += 1;
    }
    None
}

impl Mesh {
    /// Parses the document, checks that every attribute stream holds the
    /// same number of elements, packs the attribute and index streams into
    /// their two byte buffers, resolves every named VAO against the
    /// attribute list, and fills each indexed command with its layout
    /// offset.
    #[verifier::loop_isolation(false)]
    #[verifier::rlimit(100)]
    pub fn new(source: &str, path: &str) -> (r: Result<Mesh, MeshError>)
        ensures
            match spec_mesh_new(doc_events(source@), path@) {
                Ok(m) => r is Ok && r->Ok_0@ == m && m.wf(),
                Err(e) => r is Err && r->Err_0@ == e,
            },
    {
        let parsed = match Mesh::parse_xml(source, path) {
            Ok(p) => p,
            Err(e) => {
                return Err(e);
            },
        };
        let ghost pd = parsed@;
        proof {
            lemma_parse_xml_wf(doc_events(source@), path@);
            lemma_mesh_new_wf(doc_events(source@), path@);
        }
        // checking that the vertex attribute streams all hold the same
        // number of elements
        if parsed.attribs.len() > 0 {
            let num_elements = parsed.attribs[0].num_elements();
            let mut i: usize = 0;
            while i < parsed.attribs.len()
                invariant
                    i <= pd.attribs.len(),
                    num_elements == pd.attribs[0].num_elements(),
                    spec_size_check(pd.attribs, i as int) == spec_size_check(pd.attribs, 0),
                decreases pd.attribs.len() - i,
            {
                proof {
                    assert(pd.attribs[i as int] == parsed.attribs@[i as int]@);
                    assert(pd.attribs[i as int].wf());
                }
                if parsed.attribs[i].num_elements() != num_elements {
                    return Err(
                        MeshError::VertexAttributesArrayWithDifferentSize(i, path.to_owned()),
                    );
                }
                i += 1;
            }
        }
        assert(spec_size_check(pd.attribs, 0) is None);
        // resolve every named VAO against the attribute list
        let ghost vlist = pd.named_vao_list;
        let mut named_vaos: Vec<NamedVaoLayout> = Vec::new();
        proof {
            assert(vlist.skip(0) =~= vlist);
            assert(named_vaos@.map_values(|v: NamedVaoLayout| v@) =~= Seq::<NamedVaoV>::empty());
        }
        let mut vi: usize = 0;
        while vi < parsed.named_vao_list.len()
            invariant
                vi <= vlist.len(),
                spec_resolve_vaos(
                    pd.attribs,
                    vlist.skip(vi as int),
                    named_vaos@.map_values(|v: NamedVaoLayout| v@),
                    path@,
                ) == spec_resolve_vaos(pd.attribs, vlist, Seq::empty(), path@),
            decreases vlist.len() - vi,
        {
            proof {
                assert(vlist[vi as int] == (
                    parsed.named_vao_list@[vi as int].0@,
                    parsed.named_vao_list@[vi as int].1@,
                ));
                assert(vlist.skip(vi as int).len() > 0);
                assert(vlist.skip(vi as int)[0] == vlist[vi as int]);
                assert(vlist.skip(vi as int).skip(1) =~= vlist.skip(vi + 1));
            }
            let source_list = &parsed.named_vao_list[vi].1;
            let ghost lseq = source_list@;
            let mut positions: Vec<usize> = Vec::new();
            proof {
                assert(lseq.skip(0) =~= lseq);
                assert(positions@.map_values(|x: usize| x as int) =~= Seq::<int>::empty());
            }
            let mut j: usize = 0;
            while j < source_list.len()
                invariant
                    j <= lseq.len(),
                    lseq == parsed.named_vao_list@[vi as int].1@,
                    vi < vlist.len(),
                    spec_resolve_sources(pd.attribs, lseq, vlist[vi as int].0, path@) == (
                    match spec_resolve_sources(
                        pd.attribs,
                        lseq.skip(j as int),
                        vlist[vi as int].0,
                        path@,
                    ) {
                        Ok(rest) => Ok::<Seq<int>, MeshErrorV>(
                            positions@.map_values(|x: usize| x as int) + rest,
                        ),
                        Err(e) => Err::<Seq<int>, MeshErrorV>(e),
                    }),
                decreases lseq.len() - j,
            {
                proof {
                    assert(lseq.skip(j as int).len() > 0);
                    assert(lseq.skip(j as int)[0] == lseq[j as int]);
                    assert(lseq.skip(j as int).skip(1) =~= lseq.skip(j + 1));
                }
                match find_position(&parsed.attribs, source_list[j]) {
                    Some(p) => {
                        let ghost old_positions = positions@;
                        positions.push(p);
                        proof {
                            assert(positions@.map_values(|x: usize| x as int)
                                =~= old_positions.map_values(|x: usize| x as int) + seq![p as int]);
                            if spec_resolve_sources(
                                pd.attribs,
                                lseq.skip(j + 1),
                                vlist[vi as int].0,
                                path@,
                            ) is Ok {
                                let rest = spec_resolve_sources(
                                    pd.attribs,
                                    lseq.skip(j + 1),
                                    vlist[vi as int].0,
                                    path@,
                                )->Ok_0;
                                assert(old_positions.map_values(|x: usize| x as int) + (seq![
                                    p as int,
                                ] + rest) =~= (old_positions.map_values(|x: usize| x as int)
                                    + seq![p as int]) + rest);
                            }
                        }
                    },
                    None => {
                        return Err(
                            MeshError::VaoSourceInvalidIndex(
                                source_list[j],
                                parsed.named_vao_list[vi].0.clone(),
                                path.to_owned(),
                            ),
                        );
                    },
                }
                j += 1;
            }
            proof {
                assert(lseq.skip(lseq.len() as int) =~= Seq::<u32>::empty());
                assert(positions@.map_values(|x: usize| x as int) + Seq::<int>::empty()
                    =~= positions@.map_values(|x: usize| x as int));
                assert(spec_resolve_sources(pd.attribs, vlist[vi as int].1, vlist[vi as int].0, path@)
                    == Ok::<Seq<int>, MeshErrorV>(positions@.map_values(|x: usize| x as int)));
            }
            let nv = NamedVaoLayout {
                name: parsed.named_vao_list[vi].0.clone(),
                attributes: positions,
            };
            let ghost nvv = nv@;
            let ghost old_vaos = named_vaos@;
            match find_vao_slot(&named_vaos, nv.name.as_str()) {
                Some(slot) => {
                    named_vaos.remove(slot);
                    named_vaos.insert(slot, nv);
                    proof {
                        assert(named_vaos@ =~= old_vaos.update(slot as int, nv));
                        assert(named_vaos@.map_values(|v: NamedVaoLayout| v@)
                            =~= old_vaos.map_values(|v: NamedVaoLayout| v@).update(
                            slot as int,
                            nvv,
                        ));
                    }
                },
                None => {
                    named_vaos.push(nv);
                    proof {
                        assert(named_vaos@.map_values(|v: NamedVaoLayout| v@)
                            =~= old_vaos.map_values(|v: NamedVaoLayout| v@).push(nvv));
                    }
                },
            }
            proof {
                let accmap_old = old_vaos.map_values(|v: NamedVaoLayout| v@);
                let accmap_new = named_vaos@.map_values(|v: NamedVaoLayout| v@);
                assert(nvv.name == vlist[vi as int].0);
                assert(spec_resolve_sources(
                    pd.attribs,
                    vlist[vi as int].1,
                    vlist[vi as int].0,
                    path@,
                ) == Ok::<Seq<int>, MeshErrorV>(nvv.attributes));
                assert(accmap_new == spec_upsert_vao(accmap_old, nvv));
                assert(spec_resolve_vaos(pd.attribs, vlist.skip(vi as int), accmap_old, path@)
                    == spec_resolve_vaos(pd.attribs, vlist.skip(vi + 1), accmap_new, path@));
            }
            vi += 1;
        }
        proof {
            assert(vlist.skip(vlist.len() as int) =~= Seq::<(Seq<char>, Seq<u32>)>::empty());
        }
        // pack the attribute streams
        let mut ablocks: Vec<Vec<u8>> = Vec::new();
        proof {
            assert(ablocks@.map_values(|b: Vec<u8>| b@) =~= spec_attr_blocks(pd.attribs).take(0));
        }
        let mut ai: usize = 0;
        while ai < parsed.attribs.len()
            invariant
                ai <= pd.attribs.len(),
                ablocks@.map_values(|b: Vec<u8>| b@) == spec_attr_blocks(pd.attribs).take(
                    ai as int,
                ),
            decreases pd.attribs.len() - ai,
        {
            proof {
                assert(pd.attribs[ai as int] == parsed.attribs@[ai as int]@);
            }
            let ghost old_blocks = ablocks@;
            let bytes = parsed.attribs[ai].data.get_bytes();
            ablocks.push(bytes);
            proof {
                assert(ablocks@.map_values(|b: Vec<u8>| b@) =~= spec_attr_blocks(
                    pd.attribs,
                ).take(ai + 1));
            }
            ai += 1;
        }
        proof {
            assert(spec_attr_blocks(pd.attribs).take(pd.attribs.len() as int) =~= spec_attr_blocks(
                pd.attribs,
            ));
        }
        let (attribute_offsets, attribute_buffer) = pack_blocks(&ablocks);
        // pack the index streams
        let idx_list = parsed.indices();
        let mut iblocks: Vec<Vec<u8>> = Vec::new();
        proof {
            assert(iblocks@.map_values(|b: Vec<u8>| b@) =~= spec_idx_blocks(pd.commands).take(0));
        }
        let mut ki: usize = 0;
        while ki < idx_list.len()
            invariant
                ki <= idx_list@.len(),
                idx_list@.map_values(|d: &IndicesData| d@) == spec_indices_of(pd.commands),
                iblocks@.map_values(|b: Vec<u8>| b@) == spec_idx_blocks(pd.commands).take(
                    ki as int,
                ),
            decreases idx_list@.len() - ki,
        {
            proof {
                assert(spec_indices_of(pd.commands)[ki as int] == idx_list@[ki as int]@);
            }
            let bytes = idx_list[ki].data.get_bytes();
            iblocks.push(bytes);
            proof {
                assert(iblocks@.map_values(|b: Vec<u8>| b@) =~= spec_idx_blocks(
                    pd.commands,
                ).take(ki + 1));
            }
            ki += 1;
        }
        proof {
            assert(spec_idx_blocks(pd.commands).take(spec_idx_blocks(pd.commands).len() as int)
                =~= spec_idx_blocks(pd.commands));
        }
        let (index_offsets, index_buffer) = pack_blocks(&iblocks);
        let ghost ioffs = index_offsets@.map_values(|x: usize| x as nat);
        // fill in the indexed commands' offsets, in document order
        let ParsedData { attribs, named_vao_list: _, commands } = parsed;
        let mut commands = commands;
        let mut out_cmds: Vec<RenderCommand> = Vec::new();
        let mut n: usize = 0;
        proof {
            lemma_packed_props_offsets_len(spec_idx_blocks(pd.commands));
            assert(out_cmds@.map_values(|c: RenderCommand| c@) =~= Seq::<RenderCommandV>::empty());
            assert(spec_indices_of(commands@.map_values(|c: RenderCommand| c@)).len()
                == spec_idx_blocks(pd.commands).len());
        }
        while commands.len() > 0
            invariant
                out_cmds@.map_values(|c: RenderCommand| c@) + spec_backfill_from(
                    commands@.map_values(|c: RenderCommand| c@),
                    ioffs,
                    n as int,
                ) == spec_backfill_from(pd.commands, ioffs, 0),
                n + spec_indices_of(commands@.map_values(|c: RenderCommand| c@)).len()
                    == ioffs.len(),
            decreases commands@.len(),
        {
            let ghost cs_pre = commands@.map_values(|c: RenderCommand| c@);
            let ghost out_pre = out_cmds@.map_values(|c: RenderCommand| c@);
            let c = commands.remove(0);
            let ghost cv = c@;
            proof {
                assert(cv == cs_pre[0]);
                assert(commands@.map_values(|c: RenderCommand| c@) =~= cs_pre.skip(1));
            }
            match c {
                RenderCommand::Indexed {
                    indexes,
                    primitive,
                    count,
                    index_size,
                    offset: _,
                    primitive_restart,
                } => {
                    proof {
                        assert(spec_indices_of(cs_pre).len() >= 1);
                        assert(n < ioffs.len());
                    }
                    let off = index_offsets[n];
                    let filled = RenderCommand::Indexed {
                        indexes,
                        primitive,
                        count,
                        index_size,
                        offset: off,
                        primitive_restart,
                    };
                    let ghost fv = filled@;
                    out_cmds.push(filled);
                    proof {
                        assert(out_cmds@.map_values(|c: RenderCommand| c@) =~= out_pre.push(fv));
                        assert(spec_backfill_from(cs_pre, ioffs, n as int) == seq![fv]
                            + spec_backfill_from(cs_pre.skip(1), ioffs, n + 1));
                        assert(out_pre + (seq![fv] + spec_backfill_from(
                            cs_pre.skip(1),
                            ioffs,
                            n + 1,
                        )) =~= out_pre.push(fv) + spec_backfill_from(cs_pre.skip(1), ioffs, n + 1));
                    }
                    n += 1;
                },
                RenderCommand::Array { primitive, start, end } => {
                    let kept = RenderCommand::Array { primitive, start, end };
                    let ghost fv = kept@;
                    out_cmds.push(kept);
                    proof {
                        assert(fv == cv);
                        assert(out_cmds@.map_values(|c: RenderCommand| c@) =~= out_pre.push(fv));
                        assert(spec_backfill_from(cs_pre, ioffs, n as int) == seq![fv]
                            + spec_backfill_from(cs_pre.skip(1), ioffs, n as int));
                        assert(out_pre + (seq![fv] + spec_backfill_from(
                            cs_pre.skip(1),
                            ioffs,
                            n as int,
                        )) =~= out_pre.push(fv) + spec_backfill_from(
                            cs_pre.skip(1),
                            ioffs,
                            n as int,
                        ));
                    }
                },
            }
        }
        proof {
            assert(commands@.map_values(|c: RenderCommand| c@) =~= Seq::<RenderCommandV>::empty());
            assert(out_cmds@.map_values(|c: RenderCommand| c@) + Seq::<RenderCommandV>::empty()
                =~= out_cmds@.map_values(|c: RenderCommand| c@));
        }
        let mesh = Mesh {
            attribs,
            attribute_offsets,
            attribute_buffer,
            named_vaos,
            index_buffer,
            commands: out_cmds,
        };
        proof {
            let m = spec_assemble(pd, path@)->Ok_0;
            assert(mesh@.attribs == m.attribs);
            assert(mesh@.attribute_offsets == m.attribute_offsets);
            assert(mesh@.attribute_buffer == m.attribute_buffer);
            assert(mesh@.named_vaos == m.named_vaos);
            assert(mesh@.index_buffer == m.index_buffer);
            assert(mesh@.commands == m.commands);
        }
        Ok(mesh)
    }
}

/// The offset list is exactly one offset per block.
pub proof fn lemma_packed_props_offsets_len(blocks: Seq<Seq<u8>>)
    ensures
        spec_offsets(blocks).len() == blocks.len(),
{
    crate::layout::lemma_packed_props(blocks);
}

// ---------------------------------------------------------------------------
// Replay
// ---------------------------------------------------------------------------
/// One draw call as the graphics device takes it: an indexed draw into the
/// shared index buffer, or an array draw over a vertex range.
#[derive(Clone, Copy, Debug, PartialEq, Eq, Structural)]
pub enum DrawCall {
    Elements { primitive: Primitive, count: usize, index_size: IndexSize, offset: usize },
    Arrays { primitive: Primitive, start: i32, end: i32 },
}

/// The mathematical image of a `DrawCall`.
pub enum DrawCallV {
    Elements { primitive: Primitive, count: nat, index_size: IndexSize, offset: nat },
    Arrays { primitive: Primitive, start: i32, end: i32 },
}

impl View for DrawCall {
    type V = DrawCallV;

    open spec fn view(&self) -> DrawCallV {
        match self {
            DrawCall::Elements { primitive, count, index_size, offset } => DrawCallV::Elements {
                primitive: *primitive,
                count: *count as nat,
                index_size: *index_size,
                offset: *offset as nat,
            },
            DrawCall::Arrays { primitive, start, end } => DrawCallV::Arrays {
                primitive: *primitive,
                start: *start,
                end: *end,
            },
        }
    }
}

/// The draw a finalized command issues.
pub open spec fn spec_draw_call(c: RenderCommandV) -> DrawCallV {
    match c {
        RenderCommandV::Indexed { primitive, count, index_size, offset, .. } => {
            DrawCallV::Elements { primitive, count, index_size, offset }
        },
        RenderCommandV::Array { primitive, start, end } => DrawCallV::Arrays {
            primitive,
            start,
            end,
        },
    }
}

impl Mesh {
    /// The replay of every render command, in document order — the same
    /// list on every call, with nothing about the mesh changed by it.
    pub fn render(&self) -> (calls: Vec<DrawCall>)
        ensures
            calls@.map_values(|d: DrawCall| d@) == self@.commands.map_values(
                |c: RenderCommandV| spec_draw_call(c),
            ),
    {
        let ghost target = self@.commands.map_values(|c: RenderCommandV| spec_draw_call(c));
        let mut calls: Vec<DrawCall> = Vec::new();
        proof {
            assert(calls@.map_values(|d: DrawCall| d@) =~= target.take(0));
        }
        let mut i: usize = 0;
        while i < self.commands.len()
            invariant
                i <= self.commands@.len(),
                target == self@.commands.map_values(|c: RenderCommandV| spec_draw_call(c)),
                target.len() == self.commands@.len(),
                calls@.map_values(|d: DrawCall| d@) == target.take(i as int),
            decreases self.commands@.len() - i,
        {
            proof {
                assert(self@.commands[i as int] == self.commands@[i as int]@);
            }
            let call = match &self.commands[i] {
                RenderCommand::Indexed { primitive, count, index_size, offset, .. } => {
                    DrawCall::Elements {
                        primitive: *primitive,
                        count: *count,
                        index_size: *index_size,
                        offset: *offset,
                    }
                },
                RenderCommand::Array { primitive, start, end } => DrawCall::Arrays {
                    primitive: *primitive,
                    start: *start,
                    end: *end,
                },
            };
            proof {
                assert(call@ == spec_draw_call(self@.commands[i as int]));
                assert(call@ == target[i as int]);
            }
            let ghost old_calls = calls@;
            calls.push(call);
            proof {
                assert(calls@.map_values(|d: DrawCall| d@) =~= old_calls.map_values(
                    |d: DrawCall| d@,
                ).push(call@));
                assert(target.take(i + 1) =~= target.take(i as int).push(target[i as int]));
            }
            i += 1;
        }
        proof {
            assert(target.take(target.len() as int) =~= target);
        }
        calls
    }

    /// The replay for a named sub-VAO: the same full command list — a named
    /// subset constrains which attributes are active, not which commands run.
    /// A name that no VAO carries draws nothing, deliberately without error.
    pub fn render_mesh(&self, mesh_name: &str) -> (r: Option<Vec<DrawCall>>)
        ensures
            match r {
                Some(calls) => spec_vao_slot(self@.named_vaos, mesh_name@, 0) is Some
                    && calls@.map_values(|d: DrawCall| d@) == self@.commands.map_values(
                    |c: RenderCommandV| spec_draw_call(c),
                ),
                None => spec_vao_slot(self@.named_vaos, mesh_name@, 0) is None,
            },
    {
        match find_vao_slot(&self.named_vaos, mesh_name) {
            Some(_) => Some(self.render()),
            None => None,
        }
    }

    /// The parsed attribute streams, in document order.
    pub fn attributes(&self) -> (r: &Vec<Attribute>)
        ensures
            r@.map_values(|a: Attribute| a@) == self@.attribs,
    {
        &self.attribs
    }

    /// Each attribute stream's byte offset in the attribute buffer.
    pub fn attribute_offsets(&self) -> (r: &Vec<usize>)
        ensures
            r@.map_values(|x: usize| x as nat) == self@.attribute_offsets,
    {
        &self.attribute_offsets
    }

    /// The packed attribute byte buffer.
    pub fn attribute_buffer(&self) -> (r: &Vec<u8>)
        ensures
            r@ == self@.attribute_buffer,
    {
        &self.attribute_buffer
    }

    /// The packed index byte buffer; empty when no command is indexed.
    pub fn index_buffer(&self) -> (r: &Vec<u8>)
        ensures
            r@ == self@.index_buffer,
    {
        &self.index_buffer
    }

    /// The finalized render commands, in document order.
    pub fn commands(&self) -> (r: &Vec<RenderCommand>)
        ensures
            r@.map_values(|c: RenderCommand| c@) == self@.commands,
    {
        &self.commands
    }

    /// The resolved named vertex-array objects.
    pub fn named_vaos(&self) -> (r: &Vec<NamedVaoLayout>)
        ensures
            r@.map_values(|v: NamedVaoLayout| v@) == self@.named_vaos,
    {
        &self.named_vaos
    }
}

// ---------------------------------------------------------------------------
// The layout's laws
// ---------------------------------------------------------------------------
/// The running byte cursor after all blocks were placed: each block rounds
/// the cursor up to a multiple of 16 and then advances it by its size.
pub open spec fn spec_padded_size(blocks: Seq<Seq<u8>>) -> nat
    decreases blocks.len(),
{
    if blocks.len() == 0 {
        0
    } else {
        crate::layout::spec_align16(spec_padded_size(blocks.drop_last())) + blocks.last().len()
    }
}

/// The packed buffer is exactly as large as the sum of the padded sizes.
pub proof fn lemma_packed_size(blocks: Seq<Seq<u8>>)
    ensures
        spec_packed(blocks).len() == spec_padded_size(blocks),
    decreases blocks.len(),
{
    if blocks.len() > 0 {
        lemma_packed_size(blocks.drop_last());
    }
}

/// Round-trip byte layout, and the alignment invariant: in a well-formed
/// mesh the attribute buffer is exactly the sum of the attributes' padded
/// byte sizes, every computed offset — attribute and index alike — is a
/// multiple of 16, and reading the buffer back at an attribute's offset for
/// its byte size reproduces that attribute's parsed bytes; likewise each
/// index stream in the index buffer.
pub proof fn lemma_mesh_layout_round_trip(m: MeshV)
    requires
        m.wf(),
    ensures
        m.attribute_offsets.len() == m.attribs.len(),
        m.attribute_buffer.len() == spec_padded_size(spec_attr_blocks(m.attribs)),
        forall|i: int|
            0 <= i < m.attribs.len() ==> (#[trigger] m.attribute_offsets[i]) % 16 == 0,
        forall|i: int|
            0 <= i < m.attribs.len() ==> m.attribute_offsets[i] + (
            #[trigger] m.attribs[i]).byte_size() <= m.attribute_buffer.len(),
        forall|i: int|
            0 <= i < m.attribs.len() ==> m.attribute_buffer.subrange(
                m.attribute_offsets[i] as int,
                m.attribute_offsets[i] + (#[trigger] m.attribs[i]).byte_size() as int,
            ) == m.attribs[i].data.bytes(),
        m.index_buffer.len() == spec_padded_size(spec_idx_blocks(m.commands)),
        forall|k: int|
            0 <= k < spec_idx_blocks(m.commands).len() ==> (#[trigger] spec_offsets(
                spec_idx_blocks(m.commands),
            )[k]) % 16 == 0,
        forall|k: int|
            0 <= k < spec_idx_blocks(m.commands).len() ==> m.index_buffer.subrange(
                spec_offsets(spec_idx_blocks(m.commands))[k] as int,
                spec_offsets(spec_idx_blocks(m.commands))[k] + (#[trigger] spec_idx_blocks(
                    m.commands,
                )[k]).len() as int,
            ) == spec_idx_blocks(m.commands)[k],
{
    let ablocks = spec_attr_blocks(m.attribs);
    crate::layout::lemma_packed_props(ablocks);
    lemma_packed_size(ablocks);
    let iblocks = spec_idx_blocks(m.commands);
    crate::layout::lemma_packed_props(iblocks);
    lemma_packed_size(iblocks);
    assert forall|i: int| 0 <= i < m.attribs.len() implies m.attribute_offsets[i] + (
    #[trigger] m.attribs[i]).byte_size() <= m.attribute_buffer.len() && m.attribute_buffer.subrange(
        m.attribute_offsets[i] as int,
        m.attribute_offsets[i] + m.attribs[i].byte_size() as int,
    ) == m.attribs[i].data.bytes() by {
        assert(ablocks[i] == m.attribs[i].data.bytes());
        m.attribs[i].data.lemma_bytes_len();
        assert(m.attribs[i].data.bytes().len() == m.attribs[i].byte_size());
    }
}

/// The commands a mesh replays are the parsed commands, in document order:
/// layout fills each indexed command's byte offset and changes nothing else,
/// so `render` issues them exactly as the source document gave them.
pub proof fn lemma_commands_in_document_order(evs: Seq<MarkupEventV>, path: Seq<char>)
    ensures
        spec_mesh_new(evs, path) matches Ok(m) ==> {
            let pd = spec_parse_xml(evs, path)->Ok_0;
            &&& spec_parse_xml(evs, path) is Ok
            &&& m.commands.len() == pd.commands.len()
            &&& forall|i: int|
                0 <= i < pd.commands.len() ==> spec_clear_offset(#[trigger] m.commands[i])
                    == spec_clear_offset(pd.commands[i])
        },
{
    if spec_mesh_new(evs, path) is Ok {
        let pd = spec_parse_xml(evs, path)->Ok_0;
        let iblocks = spec_idx_blocks(pd.commands);
        lemma_backfill_order(pd.commands, spec_offsets(iblocks), 0);
    }
}

/// A command with its layout offset put back in placeholder form.
pub open spec fn spec_clear_offset(c: RenderCommandV) -> RenderCommandV {
    match c {
        RenderCommandV::Indexed {
            indexes,
            primitive,
            count,
            index_size,
            offset,
            primitive_restart,
        } => RenderCommandV::Indexed {
            indexes,
            primitive,
            count,
            index_size,
            offset: 0,
            primitive_restart,
        },
        RenderCommandV::Array { .. } => c,
    }
}

/// Backfilling keeps every command in place and only sets offsets.
pub proof fn lemma_backfill_order(cmds: Seq<RenderCommandV>, offsets: Seq<nat>, n: int)
    ensures
        spec_backfill_from(cmds, offsets, n).len() == cmds.len(),
        forall|i: int|
            0 <= i < cmds.len() ==> spec_clear_offset(
                #[trigger] spec_backfill_from(cmds, offsets, n)[i],
            ) == spec_clear_offset(cmds[i]),
    decreases cmds.len(),
{
    if cmds.len() > 0 {
        let out = spec_backfill_from(cmds, offsets, n);
        match cmds[0] {
            RenderCommandV::Indexed { .. } => {
                lemma_backfill_order(cmds.skip(1), offsets, n + 1);
                assert(out.skip(1) =~= spec_backfill_from(cmds.skip(1), offsets, n + 1));
            },
            RenderCommandV::Array { .. } => {
                lemma_backfill_order(cmds.skip(1), offsets, n);
                assert(out.skip(1) =~= spec_backfill_from(cmds.skip(1), offsets, n));
            },
        }
        assert forall|i: int| 0 <= i < cmds.len() implies spec_clear_offset(
            #[trigger] out[i],
        ) == spec_clear_offset(cmds[i]) by {
            if i > 0 {
                assert(out[i] == out.skip(1)[i - 1]);
                assert(cmds[i] == cmds.skip(1)[i - 1]);
            }
        }
    }
}

/// A named VAO referencing a location that no attribute declares fails the
/// load with the error that names the location, the VAO and the file path;
/// nothing of the mesh survives such a failure.
pub proof fn lemma_unresolved_vao_rejected(evs: Seq<MarkupEventV>, path: Seq<char>)
    ensures
        spec_parse_xml(evs, path) matches Ok(pd) ==> ((spec_size_check(pd.attribs, 0) is None
            && spec_resolve_vaos(pd.attribs, pd.named_vao_list, Seq::empty(), path) is Err)
            ==> spec_mesh_new(evs, path) == Err::<MeshV, MeshErrorV>(
            spec_resolve_vaos(pd.attribs, pd.named_vao_list, Seq::empty(), path)->Err_0,
        )),
{
}

/// A mesh whose attribute streams disagree on their element count is
/// rejected with the offending attribute's position, and no mesh — so no
/// buffer — comes out of the load.
pub proof fn lemma_different_size_rejected(evs: Seq<MarkupEventV>, path: Seq<char>)
    ensures
        spec_parse_xml(evs, path) matches Ok(pd) ==> spec_size_check(pd.attribs, 0) matches Some(
            i,
        ) ==> spec_mesh_new(evs, path) == Err::<MeshV, MeshErrorV>(
            MeshErrorV::VertexAttributesArrayWithDifferentSize(i, path),
        ),
{
}

/// The index streams of the indexed commands, in document order.
pub open spec fn spec_indices_of(cmds: Seq<RenderCommandV>) -> Seq<IndicesV>
    decreases cmds.len(),
{
    if cmds.len() == 0 {
        Seq::empty()
    } else {
        let rest = spec_indices_of(cmds.skip(1));
        match cmds[0] {
            RenderCommandV::Indexed { indexes, .. } => seq![indexes] + rest,
            RenderCommandV::Array { .. } => rest,
        }
    }
}

/// The mathematical image of a `NamedVaoLayout`.
pub struct NamedVaoV {
    pub name: Seq<char>,
    pub attributes: Seq<int>,
}

impl View for NamedVaoLayout {
    type V = NamedVaoV;

    open spec fn view(&self) -> NamedVaoV {
        NamedVaoV {
            name: self.name@,
            attributes: self.attributes@.map_values(|x: usize| x as int),
        }
    }
}

/// The mathematical image of a `Mesh`.
pub struct MeshV {
    pub attribs: Seq<AttributeV>,
    pub attribute_offsets: Seq<nat>,
    pub attribute_buffer: Seq<u8>,
    pub named_vaos: Seq<NamedVaoV>,
    pub index_buffer: Seq<u8>,
    pub commands: Seq<RenderCommandV>,
}

impl View for Mesh {
    type V = MeshV;

    closed spec fn view(&self) -> MeshV {
        MeshV {
            attribs: self.attribs@.map_values(|a: Attribute| a@),
            attribute_offsets: self.attribute_offsets@.map_values(|x: usize| x as nat),
            attribute_buffer: self.attribute_buffer@,
            named_vaos: self.named_vaos@.map_values(|v: NamedVaoLayout| v@),
            index_buffer: self.index_buffer@,
            commands: self.commands@.map_values(|c: RenderCommand| c@),
        }
    }
}

// ---------------------------------------------------------------------------
// Buffer layout and assembly
// ---------------------------------------------------------------------------
/// Each attribute stream's raw bytes, in attribute order.
pub open spec fn spec_attr_blocks(attribs: Seq<AttributeV>) -> Seq<Seq<u8>> {
    attribs.map_values(|a: AttributeV| a.data.bytes())
}

/// Each index stream's raw bytes, in document order of the indexed commands.
pub open spec fn spec_idx_blocks(cmds: Seq<RenderCommandV>) -> Seq<Seq<u8>> {
    spec_indices_of(cmds).map_values(|d: IndicesV| d.data.bytes())
}

/// The position of the first attribute from `i` on whose element count
/// differs from the first attribute's.
pub open spec fn spec_size_check(attribs: Seq<AttributeV>, i: int) -> Option<int>
    decreases attribs.len() - i,
    when 0 <= i <= attribs.len()
{
    if i >= attribs.len() {
        None
    } else if attribs[i].num_elements() != attribs[0].num_elements() {
        Some(i)
    } else {
        spec_size_check(attribs, i + 1)
    }
}

/// The position of the first attribute from `i` on that declares location
/// `loc`.
pub open spec fn spec_resolve_position(attribs: Seq<AttributeV>, loc: u32, i: int) -> Option<int>
    decreases attribs.len() - i,
    when 0 <= i <= attribs.len()
{
    if i >= attribs.len() {
        None
    } else if attribs[i].index == loc {
        Some(i)
    } else {
        spec_resolve_position(attribs, loc, i + 1)
    }
}

/// Resolves every referenced location of one named VAO to the position of
/// the attribute that declares it; the first unresolved reference is a
/// terminal, name-bearing error.
pub open spec fn spec_resolve_sources(
    attribs: Seq<AttributeV>,
    locs: Seq<u32>,
    name: Seq<char>,
    path: Seq<char>,
) -> Result<Seq<int>, MeshErrorV>
    decreases locs.len(),
{
    if locs.len() == 0 {
        Ok(Seq::empty())
    } else {
        match spec_resolve_position(attribs, locs[0], 0) {
            None => Err(MeshErrorV::VaoSourceInvalidIndex(locs[0], name, path)),
            Some(p) => match spec_resolve_sources(attribs, locs.skip(1), name, path) {
                Ok(rest) => Ok(seq![p] + rest),
                Err(e) => Err(e),
            },
        }
    }
}

/// The position of the first resolved VAO named `name`, from `i` on.
pub open spec fn spec_vao_slot(vaos: Seq<NamedVaoV>, name: Seq<char>, i: int) -> Option<int>
    decreases vaos.len() - i,
    when 0 <= i <= vaos.len()
{
    if i >= vaos.len() {
        None
    } else if vaos[i].name == name {
        Some(i)
    } else {
        spec_vao_slot(vaos, name, i + 1)
    }
}

/// Adds a resolved VAO: a later entry with an already-present name replaces
/// the earlier one, as insertion into a name-keyed map would.
pub open spec fn spec_upsert_vao(vaos: Seq<NamedVaoV>, nv: NamedVaoV) -> Seq<NamedVaoV> {
    match spec_vao_slot(vaos, nv.name, 0) {
        Some(j) => vaos.update(j, nv),
        None => vaos.push(nv),
    }
}

/// Resolves the parsed named-VAO list, in document order, against the
/// attribute list.
pub open spec fn spec_resolve_vaos(
    attribs: Seq<AttributeV>,
    list: Seq<(Seq<char>, Seq<u32>)>,
    acc: Seq<NamedVaoV>,
    path: Seq<char>,
) -> Result<Seq<NamedVaoV>, MeshErrorV>
    decreases list.len(),
{
    if list.len() == 0 {
        Ok(acc)
    } else {
        match spec_resolve_sources(attribs, list[0].1, list[0].0, path) {
            Err(e) => Err(e),
            Ok(positions) => spec_resolve_vaos(
                attribs,
                list.skip(1),
                spec_upsert_vao(acc, NamedVaoV { name: list[0].0, attributes: positions }),
                path,
            ),
        }
    }
}

/// Fills each indexed command, in document order, with its layout offset;
/// the `n`-th indexed command receives the `n`-th offset.
pub open spec fn spec_backfill_from(
    cmds: Seq<RenderCommandV>,
    offsets: Seq<nat>,
    n: int,
) -> Seq<RenderCommandV>
    decreases cmds.len(),
{
    if cmds.len() == 0 {
        Seq::empty()
    } else {
        match cmds[0] {
            RenderCommandV::Indexed {
                indexes,
                primitive,
                count,
                index_size,
                offset,
                primitive_restart,
            } => seq![
                RenderCommandV::Indexed {
                    indexes,
                    primitive,
                    count,
                    index_size,
                    offset: offsets[n],
                    primitive_restart,
                },
            ] + spec_backfill_from(cmds.skip(1), offsets, n + 1),
            RenderCommandV::Array { .. } => seq![cmds[0]] + spec_backfill_from(
                cmds.skip(1),
                offsets,
                n,
            ),
        }
    }
}

impl RenderCommandV {
    /// What holds of every command straight out of the parser: an indexed
    /// command's count and width come from its own stream, whose store holds
    /// the declared width.
    pub open spec fn parsed_wf(self) -> bool {
        match self {
            RenderCommandV::Indexed { indexes, count, index_size, .. } => {
                &&& count == indexes.data.len()
                &&& index_size == indexes.index_size
                &&& indexes.wf()
            },
            RenderCommandV::Array { .. } => true,
        }
    }
}

/// Every indexed command carries its own stream's count and width and the
/// `n`-th layout offset.
pub open spec fn cmds_finalized(cmds: Seq<RenderCommandV>, offsets: Seq<nat>, n: int) -> bool
    decreases cmds.len(),
{
    if cmds.len() == 0 {
        true
    } else {
        match cmds[0] {
            RenderCommandV::Indexed { indexes, count, index_size, offset, .. } => {
                &&& count == indexes.data.len()
                &&& index_size == indexes.index_size
                &&& indexes.wf()
                &&& offset == offsets[n]
                &&& cmds_finalized(cmds.skip(1), offsets, n + 1)
            },
            RenderCommandV::Array { .. } => cmds_finalized(cmds.skip(1), offsets, n),
        }
    }
}

impl MeshV {
    /// A laid-out mesh is well formed: its attributes are well shaped, its
    /// offsets and buffers are exactly the 16-byte-aligned packing of its
    /// attribute and index streams, and every indexed command was finalized
    /// from its stream and the layout.
    pub open spec fn wf(self) -> bool {
        &&& forall|i: int| 0 <= i < self.attribs.len() ==> (#[trigger] self.attribs[i]).wf()
        &&& self.attribute_offsets == spec_offsets(spec_attr_blocks(self.attribs))
        &&& self.attribute_buffer == spec_packed(spec_attr_blocks(self.attribs))
        &&& self.index_buffer == spec_packed(spec_idx_blocks(self.commands))
        &&& cmds_finalized(self.commands, spec_offsets(spec_idx_blocks(self.commands)), 0)
    }
}

/// Turns the parsed representation into a laid-out mesh: the cross-attribute
/// element-count check, the packing of both byte spaces, the resolution of
/// every named VAO, and the backfill of every indexed command.
pub open spec fn spec_assemble(pd: ParsedDataV, path: Seq<char>) -> Result<MeshV, MeshErrorV> {
    match spec_size_check(pd.attribs, 0) {
        Some(i) => Err(MeshErrorV::VertexAttributesArrayWithDifferentSize(i, path)),
        None => match spec_resolve_vaos(pd.attribs, pd.named_vao_list, Seq::empty(), path) {
            Err(e) => Err(e),
            Ok(vaos) => {
                let ablocks = spec_attr_blocks(pd.attribs);
                let iblocks = spec_idx_blocks(pd.commands);
                Ok(
                    MeshV {
                        attribs: pd.attribs,
                        attribute_offsets: spec_offsets(ablocks),
                        attribute_buffer: spec_packed(ablocks),
                        named_vaos: vaos,
                        index_buffer: spec_packed(iblocks),
                        commands: spec_backfill_from(pd.commands, spec_offsets(iblocks), 0),
                    },
                )
            },
        },
    }
}

/// What one document loads to: parse, then layout.
pub open spec fn spec_mesh_new(evs: Seq<MarkupEventV>, path: Seq<char>) -> Result<
    MeshV,
    MeshErrorV,
> {
    match spec_parse_xml(evs, path) {
        Ok(pd) => spec_assemble(pd, path),
        Err(e) => Err(e),
    }
}

// ---------------------------------------------------------------------------
// Parse-result shape lemmas
// ---------------------------------------------------------------------------
/// What the parser guarantees of everything it accumulates.
pub open spec fn parse_acc_wf(st: ParseStateV) -> bool {
    &&& forall|i: int| 0 <= i < st.attribs.len() ==> (#[trigger] st.attribs[i]).wf()
    &&& forall|i: int|
        0 <= i < st.commands.len() ==> (#[trigger] st.commands[i]).parsed_wf()
}

/// A parsed index stream's store holds the width its `type` token named.
pub proof fn lemma_indices_new_wf(attrs: Seq<(Seq<char>, Seq<char>)>, data: Seq<char>)
    ensures
        spec_indices_new(attrs, data) matches Ok(d) ==> d.wf(),
{
    if spec_indices_new(attrs, data) is Ok {
        let d = spec_indices_new(attrs, data)->Ok_0;
        let width = d.index_size;
        IdxValuesV::empty_of(width).lemma_parse_all_width(crate::text::split_ws(data));
    }
}

/// One parse step keeps the accumulators well shaped.
pub proof fn lemma_parse_step_wf(st: ParseStateV, ev: MarkupEventV, path: Seq<char>)
    requires
        parse_acc_wf(st),
        spec_parse_step(st, ev, path) is Ok,
    ensures
        parse_acc_wf(spec_parse_step(st, ev, path)->Ok_0),
{
    let st2 = spec_parse_step(st, ev, path)->Ok_0;
    match ev {
        MarkupEventV::Text(data) => {
            match st.state {
                ParserStateV::InAttributeTag { attributes } => {
                    lemma_attribute_new_wf(attributes, data);
                    assert(st2.attribs.drop_last() =~= st.attribs);
                },
                ParserStateV::InIndicesTag { attributes } => {
                    if spec_indices_new(attributes, data) is Ok {
                        lemma_indices_new_wf(attributes, data);
                        assert(st2.commands.drop_last() =~= st.commands);
                    }
                },
                _ => {},
            }
        },
        MarkupEventV::Open { name, attrs } => {
            if st.depth == 1 && !(st.state is JustPassedMeshRoot && name != "attribute"@) && name
                != "attribute"@ && name != "vao"@ && name == "arrays"@ {
                assert(st2.commands.drop_last() =~= st.commands);
            }
        },
        _ => {},
    }
}

/// The whole parse keeps the accumulators well shaped.
pub proof fn lemma_parse_events_wf(st: ParseStateV, evs: Seq<MarkupEventV>, path: Seq<char>)
    requires
        parse_acc_wf(st),
        spec_parse_events(st, evs, path) is Ok,
    ensures
        parse_acc_wf(spec_parse_events(st, evs, path)->Ok_0),
    decreases evs.len(),
{
    if evs.len() == 0 || evs[0] is End {
    } else {
        lemma_parse_step_wf(st, evs[0], path);
        lemma_parse_events_wf(spec_parse_step(st, evs[0], path)->Ok_0, evs.skip(1), path);
    }
}

/// Everything a successful parse yields is well shaped.
pub proof fn lemma_parse_xml_wf(evs: Seq<MarkupEventV>, path: Seq<char>)
    ensures
        spec_parse_xml(evs, path) matches Ok(pd) ==> {
            &&& forall|i: int| 0 <= i < pd.attribs.len() ==> (#[trigger] pd.attribs[i]).wf()
            &&& forall|i: int|
                0 <= i < pd.commands.len() ==> (#[trigger] pd.commands[i]).parsed_wf()
        },
{
    if spec_parse_xml(evs, path) is Ok {
        lemma_parse_events_wf(spec_initial_state(), evs, path);
    }
}

/// Backfilling neither reorders commands nor touches their streams, and it
/// finalizes every indexed command with its ordinal's offset.
pub proof fn lemma_backfill_finalized(cmds: Seq<RenderCommandV>, offsets: Seq<nat>, n: int)
    requires
        forall|i: int| 0 <= i < cmds.len() ==> (#[trigger] cmds[i]).parsed_wf(),
    ensures
        spec_indices_of(spec_backfill_from(cmds, offsets, n)) == spec_indices_of(cmds),
        spec_backfill_from(cmds, offsets, n).len() == cmds.len(),
        cmds_finalized(spec_backfill_from(cmds, offsets, n), offsets, n),
    decreases cmds.len(),
{
    if cmds.len() > 0 {
        assert(cmds[0].parsed_wf());
        assert(forall|i: int|
            0 <= i < cmds.skip(1).len() ==> (#[trigger] cmds.skip(1)[i]).parsed_wf());
        let out = spec_backfill_from(cmds, offsets, n);
        match cmds[0] {
            RenderCommandV::Indexed { indexes, .. } => {
                lemma_backfill_finalized(cmds.skip(1), offsets, n + 1);
                assert(out.skip(1) =~= spec_backfill_from(cmds.skip(1), offsets, n + 1));
                assert(spec_indices_of(out) =~= spec_indices_of(cmds));
            },
            RenderCommandV::Array { .. } => {
                lemma_backfill_finalized(cmds.skip(1), offsets, n);
                assert(out.skip(1) =~= spec_backfill_from(cmds.skip(1), offsets, n));
                assert(spec_indices_of(out) =~= spec_indices_of(cmds));
            },
        }
    }
}

/// A successfully assembled mesh is well formed.
pub proof fn lemma_assemble_wf(pd: ParsedDataV, path: Seq<char>)
    requires
        forall|i: int| 0 <= i < pd.attribs.len() ==> (#[trigger] pd.attribs[i]).wf(),
        forall|i: int| 0 <= i < pd.commands.len() ==> (#[trigger] pd.commands[i]).parsed_wf(),
    ensures
        spec_assemble(pd, path) matches Ok(m) ==> m.wf(),
{
    if spec_assemble(pd, path) is Ok {
        let m = spec_assemble(pd, path)->Ok_0;
        let iblocks = spec_idx_blocks(pd.commands);
        lemma_backfill_finalized(pd.commands, spec_offsets(iblocks), 0);
        assert(spec_idx_blocks(m.commands) == iblocks);
    }
}

/// A mesh out of `spec_mesh_new` is well formed.
pub proof fn lemma_mesh_new_wf(evs: Seq<MarkupEventV>, path: Seq<char>)
    ensures
        spec_mesh_new(evs, path) matches Ok(m) ==> m.wf(),
{
    if spec_mesh_new(evs, path) is Ok {
        lemma_parse_xml_wf(evs, path);
        let pd = spec_parse_xml(evs, path)->Ok_0;
        lemma_assemble_wf(pd, path);
    }
}

impl ParsedData {
    /// The index streams of the indexed commands, in document order.
    pub fn indices(&self) -> (r: Vec<&IndicesData>)
        ensures
            r@.map_values(|d: &IndicesData| d@) == spec_indices_of(self@.commands),
    {
        let ghost f = |d: &IndicesData| d@;
        let ghost cs = self@.commands;
        proof {
            assert(cs.skip(0) =~= cs);
        }
        let mut r: Vec<&IndicesData> = Vec::new();
        let mut i: usize = 0;
        while i < self.commands.len()
            invariant
                i <= self.commands@.len(),
                cs == self.commands@.map_values(|c: RenderCommand| c@),
                spec_indices_of(cs) == r@.map_values(f) + spec_indices_of(cs.skip(i as int)),
                f == (|d: &IndicesData| d@),
            decreases self.commands@.len() - i,
        {
            proof {
                assert(cs[i as int] == self.commands@[i as int]@);
                assert(cs.skip(i as int).len() > 0);
                assert(cs.skip(i as int)[0] == cs[i as int]);
                assert(cs.skip(i as int).skip(1) =~= cs.skip(i + 1));
            }
            let ghost old_r = r@;
            match &self.commands[i] {
                RenderCommand::Indexed { indexes, .. } => {
                    r.push(indexes);
                    proof {
                        assert(r@.map_values(f) =~= old_r.map_values(f) + seq![indexes@]);
                        assert(old_r.map_values(f) + (seq![indexes@] + spec_indices_of(
                            cs.skip(i + 1),
                        )) =~= (old_r.map_values(f) + seq![indexes@]) + spec_indices_of(
                            cs.skip(i + 1),
                        ));
                    }
                },
                RenderCommand::Array { .. } => {},
            }
            i += 1;
        }
        proof {
            assert(cs.skip(self.commands@.len() as int) =~= Seq::<RenderCommandV>::empty());
            assert(r@.map_values(f) + Seq::<IndicesV>::empty() =~= r@.map_values(f));
        }
        r
    }
}

} // verus!
