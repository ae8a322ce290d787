//! The scalar kinds a vertex attribute stream may hold, and the per-attribute
//! descriptor (component count, kind, normalization).

use vstd::prelude::*;

verus! {

/// The scalar kind of one attribute stream.
#[derive(Clone, Copy, Debug, PartialEq, Eq, Structural)]
pub enum DataType {
    Byte,
    UnsignedByte,
    Short,
    UnsignedShort,
    Int,
    UnsignedInt,
    Double,
    Float,
    Fixed,
}

impl DataType {
    /// The byte width of one scalar of this kind.
    pub open spec fn spec_size(self) -> nat {
        match self {
            DataType::Byte | DataType::UnsignedByte => 1,
            DataType::Short | DataType::UnsignedShort | DataType::Fixed => 2,
            DataType::Int | DataType::UnsignedInt | DataType::Float => 4,
            DataType::Double => 8,
        }
    }

    pub fn size(&self) -> (r: usize)
        ensures
            r == self.spec_size(),
    {
        match self {
            DataType::Byte | DataType::UnsignedByte => 1,
            DataType::Short | DataType::UnsignedShort | DataType::Fixed => 2,
            DataType::Int | DataType::UnsignedInt | DataType::Float => 4,
            DataType::Double => 8,
        }
    }

    pub open spec fn spec_is_floating_point(self) -> bool {
        self == DataType::Float || self == DataType::Double || self == DataType::Fixed
    }

    pub fn is_floating_point(self) -> (r: bool)
        ensures
            r == self.spec_is_floating_point(),
    {
        self == DataType::Float || self == DataType::Double || self == DataType::Fixed
    }
}

/// The shape of one vertex attribute: how many components each element has,
/// of which scalar kind, and whether integer data is normalized on fetch.
#[derive(Clone, Copy, Debug, PartialEq, Eq, Structural)]
pub struct VertexAttribute {
    pub components: i32,
    pub data_type: DataType,
    pub normalized: bool,
}

impl VertexAttribute {
    pub fn new(components: i32, data_type: DataType, normalized: bool) -> (r: Self)
        ensures
            r == (VertexAttribute { components, data_type, normalized }),
    {
        VertexAttribute { components, data_type, normalized }
    }

    /// The byte width of one element: one scalar per component.
    pub open spec fn spec_size(self) -> nat
        recommends
            self.components >= 0,
    {
        self.data_type.spec_size() * self.components as nat
    }

    pub fn size(&self) -> (r: usize)
        requires
            0 <= self.components,
            self.data_type.spec_size() * self.components <= usize::MAX,
        ensures
            r == self.spec_size(),
    {
        self.data_type.size() * (self.components as usize)
    }

    pub open spec fn spec_is_floating_point(self) -> bool {
        self.data_type.spec_is_floating_point()
    }

    pub fn is_floating_point(&self) -> (r: bool)
        ensures
            r == self.spec_is_floating_point(),
    {
        self.data_type.is_floating_point()
    }
}

} // verus!
