//! Tagged numeric arrays: the parsed contents of one `attribute` or
//! `indices` element, with append-by-parse and little-endian byte export.
//!
//! Float scalars are carried as their IEEE-754 bit patterns (`u32`), obtained
//! once at the parsing boundary; everything after that point is integer work.

use vstd::prelude::*;

use crate::mesh::{MeshError, MeshErrorV};
use crate::text::{
    chars_of, parse_signed_bounds, parse_unsigned_max, spec_parse_i16, spec_parse_i32,
    spec_parse_i8, spec_parse_u16, spec_parse_u32, spec_parse_u8, split_whitespace_str, split_ws,
};
use crate::vertex_attributes::DataType;

verus! {

/// The width of one index of an indexed draw.
#[derive(Clone, Copy, Debug, PartialEq, Eq, Structural)]
pub enum IndexSize {
    UnsignedByte,
    UnsignedShort,
    UnsignedInt,
}

impl IndexSize {
    /// The byte width of one index.
    pub open spec fn spec_size(self) -> nat {
        match self {
            IndexSize::UnsignedByte => 1,
            IndexSize::UnsignedShort => 2,
            IndexSize::UnsignedInt => 4,
        }
    }

    pub fn size(&self) -> (r: usize)
        ensures
            r == self.spec_size(),
    {
        match self {
            IndexSize::UnsignedByte => 1,
            IndexSize::UnsignedShort => 2,
            IndexSize::UnsignedInt => 4,
        }
    }
}

// ---------------------------------------------------------------------------
// Two's-complement bit patterns and little-endian bytes
// ---------------------------------------------------------------------------
/// The two's-complement bit pattern of a signed byte.
pub open spec fn i8_bits(x: i8) -> u8 {
    if x >= 0 {
        x as u8
    } else {
        (x + 0x100) as u8
    }
}

pub open spec fn i16_bits(x: i16) -> u16 {
    if x >= 0 {
        x as u16
    } else {
        (x + 0x1_0000) as u16
    }
}

pub open spec fn i32_bits(x: i32) -> u32 {
    if x >= 0 {
        x as u32
    } else {
        (x + 0x1_0000_0000) as u32
    }
}

/// The two little-endian bytes of a 16-bit value.
pub open spec fn u16_le(x: u16) -> Seq<u8> {
    seq![(x % 0x100) as u8, (x / 0x100) as u8]
}

/// The four little-endian bytes of a 32-bit value.
pub open spec fn u32_le(x: u32) -> Seq<u8> {
    seq![
        (x % 0x100) as u8,
        ((x / 0x100) % 0x100) as u8,
        ((x / 0x1_0000) % 0x100) as u8,
        (x / 0x100_0000) as u8,
    ]
}

/// The little-endian bytes of every element, in element order.
pub open spec fn bytes_concat<T>(s: Seq<T>, f: spec_fn(T) -> Seq<u8>) -> Seq<u8>
    decreases s.len(),
{
    if s.len() == 0 {
        Seq::empty()
    } else {
        f(s[0]) + bytes_concat(s.skip(1), f)
    }
}

pub proof fn lemma_bytes_concat_push<T>(s: Seq<T>, f: spec_fn(T) -> Seq<u8>, x: T)
    ensures
        bytes_concat(s.push(x), f) == bytes_concat(s, f) + f(x),
    decreases s.len(),
{
    let p = s.push(x);
    if s.len() == 0 {
        assert(p[0] == x);
        assert(p.skip(1) =~= Seq::<T>::empty());
        assert(bytes_concat(p.skip(1), f) == Seq::<u8>::empty());
        assert(bytes_concat(p, f) == f(x) + bytes_concat(p.skip(1), f));
        assert(f(x) + Seq::<u8>::empty() =~= Seq::<u8>::empty() + f(x));
    } else {
        assert(p[0] == s[0]);
        assert(p.skip(1) =~= s.skip(1).push(x));
        lemma_bytes_concat_push(s.skip(1), f, x);
        assert(bytes_concat(p, f) == f(s[0]) + bytes_concat(p.skip(1), f));
        assert(bytes_concat(s, f) == f(s[0]) + bytes_concat(s.skip(1), f));
        assert(f(s[0]) + (bytes_concat(s.skip(1), f) + f(x)) =~= (f(s[0]) + bytes_concat(
            s.skip(1),
            f,
        )) + f(x));
    }
}

/// Elements of one width make a byte stream of predictable length.
pub proof fn lemma_bytes_concat_len<T>(s: Seq<T>, f: spec_fn(T) -> Seq<u8>, w: nat)
    requires
        forall|x: T| (#[trigger] f(x)).len() == w,
    ensures
        bytes_concat(s, f).len() == s.len() * w,
    decreases s.len(),
{
    if s.len() == 0 {
    } else {
        lemma_bytes_concat_len(s.skip(1), f, w);
        assert(s.len() * w == (s.len() - 1) * w + w) by (nonlinear_arith);
    }
}

fn push_u8(out: &mut Vec<u8>, x: u8)
    ensures
        final(out)@ == old(out)@ + seq![x],
{
    out.push(x);
    proof {
        assert(final(out)@ =~= old(out)@ + seq![x]);
    }
}

fn push_u16_le(out: &mut Vec<u8>, x: u16)
    ensures
        final(out)@ == old(out)@ + u16_le(x),
{
    out.push((x % 0x100) as u8);
    out.push((x / 0x100) as u8);
    proof {
        assert(final(out)@ =~= old(out)@ + u16_le(x));
    }
}

fn push_u32_le(out: &mut Vec<u8>, x: u32)
    ensures
        final(out)@ == old(out)@ + u32_le(x),
{
    out.push((x % 0x100) as u8);
    out.push(((x / 0x100) % 0x100) as u8);
    out.push(((x / 0x1_0000) % 0x100) as u8);
    out.push((x / 0x100_0000) as u8);
    proof {
        assert(final(out)@ =~= old(out)@ + u32_le(x));
    }
}

fn i8_to_bits(x: i8) -> (r: u8)
    ensures
        r == i8_bits(x),
{
    if x >= 0 {
        x as u8
    } else {
        ((x as i16) + 0x100) as u8
    }
}

fn i16_to_bits(x: i16) -> (r: u16)
    ensures
        r == i16_bits(x),
{
    if x >= 0 {
        x as u16
    } else {
        ((x as i32) + 0x1_0000) as u16
    }
}

fn i32_to_bits(x: i32) -> (r: u32)
    ensures
        r == i32_bits(x),
{
    if x >= 0 {
        x as u32
    } else {
        ((x as i64) + 0x1_0000_0000) as u32
    }
}

// ---------------------------------------------------------------------------
// Float tokens
// ---------------------------------------------------------------------------
/// The IEEE-754 bit pattern that `str::parse` reads from a float token, or
/// `None` where the token is not a float; a function of the token alone.
pub uninterp spec fn float_bits_of(w: Seq<char>) -> Option<u32>;

/// Relies on `str::parse` for the GL float scalar type (`gl::types::GLfloat`)
/// and on `to_bits`: which tokens parse, and to which value, depends on the
/// token alone, and `to_bits` carries that value as its IEEE-754 bit pattern.
#[verifier::external_body]
fn parse_float_bits(w: &str) -> (r: Option<u32>)
    ensures
        r == float_bits_of(w@),
{
    match w.parse::<gl::types::GLfloat>() {
        Ok(x) => Some(x.to_bits()),
        Err(_) => None,
    }
}

// ---------------------------------------------------------------------------
// Vertex attribute values
// ---------------------------------------------------------------------------
/// The parsed contents of one `attribute` element: a numeric array whose
/// kind is fixed at construction. `Float` holds IEEE-754 bit patterns.
#[derive(Debug, Clone, PartialEq)]
pub enum VertexAttributeValues {
    Float(Vec<u32>),
    UnsignedInt(Vec<u32>),
    Int(Vec<i32>),
    UnsignedShort(Vec<u16>),
    Short(Vec<i16>),
    UnsignedByte(Vec<u8>),
    Byte(Vec<i8>),
}

/// The mathematical image of a `VertexAttributeValues`.
pub enum ValuesV {
    Float(Seq<u32>),
    UnsignedInt(Seq<u32>),
    Int(Seq<i32>),
    UnsignedShort(Seq<u16>),
    Short(Seq<i16>),
    UnsignedByte(Seq<u8>),
    Byte(Seq<i8>),
}

impl View for VertexAttributeValues {
    type V = ValuesV;

    open spec fn view(&self) -> ValuesV {
        match self {
            VertexAttributeValues::Float(v) => ValuesV::Float(v@),
            VertexAttributeValues::UnsignedInt(v) => ValuesV::UnsignedInt(v@),
            VertexAttributeValues::Int(v) => ValuesV::Int(v@),
            VertexAttributeValues::UnsignedShort(v) => ValuesV::UnsignedShort(v@),
            VertexAttributeValues::Short(v) => ValuesV::Short(v@),
            VertexAttributeValues::UnsignedByte(v) => ValuesV::UnsignedByte(v@),
            VertexAttributeValues::Byte(v) => ValuesV::Byte(v@),
        }
    }
}

impl ValuesV {
    /// The scalar kind this store was built for.
    pub open spec fn kind(self) -> DataType {
        match self {
            ValuesV::Float(_) => DataType::Float,
            ValuesV::UnsignedInt(_) => DataType::UnsignedInt,
            ValuesV::Int(_) => DataType::Int,
            ValuesV::UnsignedShort(_) => DataType::UnsignedShort,
            ValuesV::Short(_) => DataType::Short,
            ValuesV::UnsignedByte(_) => DataType::UnsignedByte,
            ValuesV::Byte(_) => DataType::Byte,
        }
    }

    /// How many scalars the store holds.
    pub open spec fn len(self) -> nat {
        match self {
            ValuesV::Float(s) => s.len(),
            ValuesV::UnsignedInt(s) => s.len(),
            ValuesV::Int(s) => s.len(),
            ValuesV::UnsignedShort(s) => s.len(),
            ValuesV::Short(s) => s.len(),
            ValuesV::UnsignedByte(s) => s.len(),
            ValuesV::Byte(s) => s.len(),
        }
    }

    /// The store's scalars as little-endian bytes, element after element,
    /// with no padding between elements.
    pub open spec fn bytes(self) -> Seq<u8> {
        match self {
            ValuesV::Float(s) => bytes_concat(s, |x: u32| u32_le(x)),
            ValuesV::UnsignedInt(s) => bytes_concat(s, |x: u32| u32_le(x)),
            ValuesV::Int(s) => bytes_concat(s, |x: i32| u32_le(i32_bits(x))),
            ValuesV::UnsignedShort(s) => bytes_concat(s, |x: u16| u16_le(x)),
            ValuesV::Short(s) => bytes_concat(s, |x: i16| u16_le(i16_bits(x))),
            ValuesV::UnsignedByte(s) => bytes_concat(s, |x: u8| seq![x]),
            ValuesV::Byte(s) => bytes_concat(s, |x: i8| seq![i8_bits(x)]),
        }
    }

    /// A store's byte stream is exactly one scalar width per element.
    pub proof fn lemma_bytes_len(self)
        ensures
            self.bytes().len() == self.len() * self.kind().spec_size(),
    {
        match self {
            ValuesV::Float(s) => {
                let f = |x: u32| u32_le(x);
                assert(forall|x: u32| (#[trigger] f(x)).len() == 4);
                lemma_bytes_concat_len(s, f, 4);
            },
            ValuesV::UnsignedInt(s) => {
                let f = |x: u32| u32_le(x);
                assert(forall|x: u32| (#[trigger] f(x)).len() == 4);
                lemma_bytes_concat_len(s, f, 4);
            },
            ValuesV::Int(s) => {
                let f = |x: i32| u32_le(i32_bits(x));
                assert(forall|x: i32| (#[trigger] f(x)).len() == 4);
                lemma_bytes_concat_len(s, f, 4);
            },
            ValuesV::UnsignedShort(s) => {
                let f = |x: u16| u16_le(x);
                assert(forall|x: u16| (#[trigger] f(x)).len() == 2);
                lemma_bytes_concat_len(s, f, 2);
            },
            ValuesV::Short(s) => {
                let f = |x: i16| u16_le(i16_bits(x));
                assert(forall|x: i16| (#[trigger] f(x)).len() == 2);
                lemma_bytes_concat_len(s, f, 2);
            },
            ValuesV::UnsignedByte(s) => {
                let f = |x: u8| seq![x];
                assert(forall|x: u8| (#[trigger] f(x)).len() == 1);
                lemma_bytes_concat_len(s, f, 1);
            },
            ValuesV::Byte(s) => {
                let f = |x: i8| seq![i8_bits(x)];
                assert(forall|x: i8| (#[trigger] f(x)).len() == 1);
                lemma_bytes_concat_len(s, f, 1);
            },
        }
    }

    /// One token appended, parsed by the store's kind; the offending token
    /// aborts the store with the error its numeric category names.
    pub open spec fn parse_add(self, w: Seq<char>) -> Result<ValuesV, MeshErrorV> {
        match self {
            ValuesV::Float(s) => match float_bits_of(w) {
                Some(b) => Ok(ValuesV::Float(s.push(b))),
                None => Err(MeshErrorV::ParseFloatDataError(w)),
            },
            ValuesV::UnsignedInt(s) => match spec_parse_u32(w) {
                Some(x) => Ok(ValuesV::UnsignedInt(s.push(x))),
                None => Err(MeshErrorV::ParseDataError(w)),
            },
            ValuesV::Int(s) => match spec_parse_i32(w) {
                Some(x) => Ok(ValuesV::Int(s.push(x))),
                None => Err(MeshErrorV::ParseDataError(w)),
            },
            ValuesV::UnsignedShort(s) => match spec_parse_u16(w) {
                Some(x) => Ok(ValuesV::UnsignedShort(s.push(x))),
                None => Err(MeshErrorV::ParseDataError(w)),
            },
            ValuesV::Short(s) => match spec_parse_i16(w) {
                Some(x) => Ok(ValuesV::Short(s.push(x))),
                None => Err(MeshErrorV::ParseDataError(w)),
            },
            ValuesV::UnsignedByte(s) => match spec_parse_u8(w) {
                Some(x) => Ok(ValuesV::UnsignedByte(s.push(x))),
                None => Err(MeshErrorV::ParseDataError(w)),
            },
            ValuesV::Byte(s) => match spec_parse_i8(w) {
                Some(x) => Ok(ValuesV::Byte(s.push(x))),
                None => Err(MeshErrorV::ParseDataError(w)),
            },
        }
    }

    /// Every token of `words` appended in order; the first bad token aborts.
    pub open spec fn parse_all(self, words: Seq<Seq<char>>) -> Result<ValuesV, MeshErrorV>
        decreases words.len(),
    {
        if words.len() == 0 {
            Ok(self)
        } else {
            match self.parse_add(words[0]) {
                Ok(v) => v.parse_all(words.skip(1)),
                Err(e) => Err(e),
            }
        }
    }

    /// Appending never changes a store's kind.
    pub proof fn lemma_parse_all_kind(self, words: Seq<Seq<char>>)
        ensures
            self.parse_all(words) matches Ok(v) ==> v.kind() == self.kind(),
        decreases words.len(),
    {
        if words.len() > 0 {
            match self.parse_add(words[0]) {
                Ok(v1) => {
                    v1.lemma_parse_all_kind(words.skip(1));
                },
                Err(_) => {},
            }
        }
    }

    /// The empty store of a supported kind.
    pub open spec fn empty_of(dt: DataType) -> Result<ValuesV, MeshErrorV> {
        match dt {
            DataType::Byte => Ok(ValuesV::Byte(Seq::empty())),
            DataType::UnsignedByte => Ok(ValuesV::UnsignedByte(Seq::empty())),
            DataType::Short => Ok(ValuesV::Short(Seq::empty())),
            DataType::UnsignedShort => Ok(ValuesV::UnsignedShort(Seq::empty())),
            DataType::Int => Ok(ValuesV::Int(Seq::empty())),
            DataType::UnsignedInt => Ok(ValuesV::UnsignedInt(Seq::empty())),
            DataType::Float => Ok(ValuesV::Float(Seq::empty())),
            DataType::Fixed | DataType::Double => Err(
                MeshErrorV::UnimplementedDataFormat(dt),
            ),
        }
    }
}

impl VertexAttributeValues {
    /// An empty store of the given kind; the fixed-point and double kinds
    /// have no store and are refused.
    pub fn new(dt: DataType) -> (r: Result<Self, MeshError>)
        ensures
            match ValuesV::empty_of(dt) {
                Ok(v) => r is Ok && r->Ok_0@ == v,
                Err(e) => r is Err && r->Err_0@ == e,
            },
    {
        match dt {
            DataType::Byte => Ok(VertexAttributeValues::Byte(Vec::new())),
            DataType::UnsignedByte => Ok(VertexAttributeValues::UnsignedByte(Vec::new())),
            DataType::Short => Ok(VertexAttributeValues::Short(Vec::new())),
            DataType::UnsignedShort => Ok(VertexAttributeValues::UnsignedShort(Vec::new())),
            DataType::Int => Ok(VertexAttributeValues::Int(Vec::new())),
            DataType::UnsignedInt => Ok(VertexAttributeValues::UnsignedInt(Vec::new())),
            DataType::Float => Ok(VertexAttributeValues::Float(Vec::new())),
            DataType::Fixed | DataType::Double => Err(MeshError::UnimplementedDataFormat(dt)),
        }
    }

    /// Parses one whitespace-free token by the store's kind and appends it.
    pub fn parse_add(self, word: &str) -> (r: Result<Self, MeshError>)
        ensures
            match self@.parse_add(word@) {
                Ok(v) => r is Ok && r->Ok_0@ == v,
                Err(e) => r is Err && r->Err_0@ == e,
            },
    {
        let w = chars_of(word);
        match self {
            VertexAttributeValues::Float(mut items) => match parse_float_bits(word) {
                Some(b) => {
                    items.push(b);
                    Ok(VertexAttributeValues::Float(items))
                },
                None => Err(MeshError::ParseFloatDataError(word.to_owned())),
            },
            VertexAttributeValues::UnsignedInt(mut items) => match parse_unsigned_max(
                &w,
                0xFFFF_FFFF,
            ) {
                Some(x) => {
                    items.push(x as u32);
                    Ok(VertexAttributeValues::UnsignedInt(items))
                },
                None => Err(MeshError::ParseDataError(word.to_owned())),
            },
            VertexAttributeValues::Int(mut items) => match parse_signed_bounds(
                &w,
                0x8000_0000,
                0x7FFF_FFFF,
            ) {
                Some(x) => {
                    items.push(x as i32);
                    Ok(VertexAttributeValues::Int(items))
                },
                None => Err(MeshError::ParseDataError(word.to_owned())),
            },
            VertexAttributeValues::UnsignedShort(mut items) => match parse_unsigned_max(
                &w,
                0xFFFF,
            ) {
                Some(x) => {
                    items.push(x as u16);
                    Ok(VertexAttributeValues::UnsignedShort(items))
                },
                None => Err(MeshError::ParseDataError(word.to_owned())),
            },
            VertexAttributeValues::Short(mut items) => match parse_signed_bounds(
                &w,
                0x8000,
                0x7FFF,
            ) {
                Some(x) => {
                    items.push(x as i16);
                    Ok(VertexAttributeValues::Short(items))
                },
                None => Err(MeshError::ParseDataError(word.to_owned())),
            },
            VertexAttributeValues::UnsignedByte(mut items) => match parse_unsigned_max(&w, 0xFF) {
                Some(x) => {
                    items.push(x as u8);
                    Ok(VertexAttributeValues::UnsignedByte(items))
                },
                None => Err(MeshError::ParseDataError(word.to_owned())),
            },
            VertexAttributeValues::Byte(mut items) => match parse_signed_bounds(&w, 0x80, 0x7F) {
                Some(x) => {
                    items.push(x as i8);
                    Ok(VertexAttributeValues::Byte(items))
                },
                None => Err(MeshError::ParseDataError(word.to_owned())),
            },
        }
    }

    /// How many scalars the store holds.
    pub fn len(&self) -> (r: usize)
        ensures
            r == self@.len(),
    {
        match self {
            VertexAttributeValues::Float(items) => items.len(),
            VertexAttributeValues::UnsignedInt(items) => items.len(),
            VertexAttributeValues::Int(items) => items.len(),
            VertexAttributeValues::UnsignedShort(items) => items.len(),
            VertexAttributeValues::Short(items) => items.len(),
            VertexAttributeValues::UnsignedByte(items) => items.len(),
            VertexAttributeValues::Byte(items) => items.len(),
        }
    }

    pub fn is_empty(&self) -> (r: bool)
        ensures
            r == (self@.len() == 0),
    {
        self.len() == 0
    }

    /// The store's scalars as little-endian bytes, no padding between
    /// elements.
    pub fn get_bytes(&self) -> (r: Vec<u8>)
        ensures
            r@ == self@.bytes(),
    {
        let mut out: Vec<u8> = Vec::new();
        match self {
            VertexAttributeValues::Float(items) => {
                let ghost f = |x: u32| u32_le(x);
                let mut i: usize = 0;
                while i < items.len()
                    invariant
                        i <= items@.len(),
                        out@ == bytes_concat(items@.take(i as int), f),
                        f == (|x: u32| u32_le(x)),
                    decreases items@.len() - i,
                {
                    proof {
                        lemma_bytes_concat_push(items@.take(i as int), f, items@[i as int]);
                        assert(items@.take(i + 1) =~= items@.take(i as int).push(items@[i as int]));
                    }
                    push_u32_le(&mut out, items[i]);
                    i += 1;
                }
                proof {
                    assert(items@.take(items@.len() as int) =~= items@);
                }
            },
            VertexAttributeValues::UnsignedInt(items) => {
                let ghost f = |x: u32| u32_le(x);
                let mut i: usize = 0;
                while i < items.len()
                    invariant
                        i <= items@.len(),
                        out@ == bytes_concat(items@.take(i as int), f),
                        f == (|x: u32| u32_le(x)),
                    decreases items@.len() - i,
                {
                    proof {
                        lemma_bytes_concat_push(items@.take(i as int), f, items@[i as int]);
                        assert(items@.take(i + 1) =~= items@.take(i as int).push(items@[i as int]));
                    }
                    push_u32_le(&mut out, items[i]);
                    i += 1;
                }
                proof {
                    assert(items@.take(items@.len() as int) =~= items@);
                }
            },
            VertexAttributeValues::Int(items) => {
                let ghost f = |x: i32| u32_le(i32_bits(x));
                let mut i: usize = 0;
                while i < items.len()
                    invariant
                        i <= items@.len(),
                        out@ == bytes_concat(items@.take(i as int), f),
                        f == (|x: i32| u32_le(i32_bits(x))),
                    decreases items@.len() - i,
                {
                    proof {
                        lemma_bytes_concat_push(items@.take(i as int), f, items@[i as int]);
                        assert(items@.take(i + 1) =~= items@.take(i as int).push(items@[i as int]));
                    }
                    let b = i32_to_bits(items[i]);
                    push_u32_le(&mut out, b);
                    i += 1;
                }
                proof {
                    assert(items@.take(items@.len() as int) =~= items@);
                }
            },
            VertexAttributeValues::UnsignedShort(items) => {
                let ghost f = |x: u16| u16_le(x);
                let mut i: usize = 0;
                while i < items.len()
                    invariant
                        i <= items@.len(),
                        out@ == bytes_concat(items@.take(i as int), f),
                        f == (|x: u16| u16_le(x)),
                    decreases items@.len() - i,
                {
                    proof {
                        lemma_bytes_concat_push(items@.take(i as int), f, items@[i as int]);
                        assert(items@.take(i + 1) =~= items@.take(i as int).push(items@[i as int]));
                    }
                    push_u16_le(&mut out, items[i]);
                    i += 1;
                }
                proof {
                    assert(items@.take(items@.len() as int) =~= items@);
                }
            },
            VertexAttributeValues::Short(items) => {
                let ghost f = |x: i16| u16_le(i16_bits(x));
                let mut i: usize = 0;
                while i < items.len()
                    invariant
                        i <= items@.len(),
                        out@ == bytes_concat(items@.take(i as int), f),
                        f == (|x: i16| u16_le(i16_bits(x))),
                    decreases items@.len() - i,
                {
                    proof {
                        lemma_bytes_concat_push(items@.take(i as int), f, items@[i as int]);
                        assert(items@.take(i + 1) =~= items@.take(i as int).push(items@[i as int]));
                    }
                    let b = i16_to_bits(items[i]);
                    push_u16_le(&mut out, b);
                    i += 1;
                }
                proof {
                    assert(items@.take(items@.len() as int) =~= items@);
                }
            },
            VertexAttributeValues::UnsignedByte(items) => {
                let ghost f = |x: u8| seq![x];
                let mut i: usize = 0;
                while i < items.len()
                    invariant
                        i <= items@.len(),
                        out@ == bytes_concat(items@.take(i as int), f),
                        f == (|x: u8| seq![x]),
                    decreases items@.len() - i,
                {
                    proof {
                        lemma_bytes_concat_push(items@.take(i as int), f, items@[i as int]);
                        assert(items@.take(i + 1) =~= items@.take(i as int).push(items@[i as int]));
                    }
                    push_u8(&mut out, items[i]);
                    i += 1;
                }
                proof {
                    assert(items@.take(items@.len() as int) =~= items@);
                }
            },
            VertexAttributeValues::Byte(items) => {
                let ghost f = |x: i8| seq![i8_bits(x)];
                let mut i: usize = 0;
                while i < items.len()
                    invariant
                        i <= items@.len(),
                        out@ == bytes_concat(items@.take(i as int), f),
                        f == (|x: i8| seq![i8_bits(x)]),
                    decreases items@.len() - i,
                {
                    proof {
                        lemma_bytes_concat_push(items@.take(i as int), f, items@[i as int]);
                        assert(items@.take(i + 1) =~= items@.take(i as int).push(items@[i as int]));
                    }
                    let b = i8_to_bits(items[i]);
                    push_u8(&mut out, b);
                    i += 1;
                }
                proof {
                    assert(items@.take(items@.len() as int) =~= items@);
                }
            },
        }
        out
    }
}

/// Whitespace-splits the element text and parses every token by `data_type`.
pub open spec fn spec_parse_attribute_values(dt: DataType, s: Seq<char>) -> Result<
    ValuesV,
    MeshErrorV,
> {
    match ValuesV::empty_of(dt) {
        Ok(v) => v.parse_all(split_ws(s)),
        Err(e) => Err(e),
    }
}

pub fn parse_attribute_values(data_type: DataType, s: &str) -> (r: Result<
    VertexAttributeValues,
    MeshError,
>)
    ensures
        match spec_parse_attribute_values(data_type, s@) {
            Ok(v) => r is Ok && r->Ok_0@ == v,
            Err(e) => r is Err && r->Err_0@ == e,
        },
{
    let mut data = match VertexAttributeValues::new(data_type) {
        Ok(d) => d,
        Err(e) => {
            return Err(e);
        },
    };
    let words = split_whitespace_str(s);
    let ghost wseq = split_ws(s@);
    proof {
        assert(wseq.skip(0) =~= wseq);
    }
    let mut i: usize = 0;
    while i < words.len()
        invariant
            i <= words@.len(),
            wseq == words@.map_values(|w: &str| w@),
            data@.parse_all(wseq.skip(i as int)) == spec_parse_attribute_values(data_type, s@),
        decreases words@.len() - i,
    {
        proof {
            assert(wseq[i as int] == words@[i as int]@);
            assert(wseq.skip(i as int).len() > 0);
            assert(wseq.skip(i as int)[0] == wseq[i as int]);
            assert(wseq.skip(i as int).skip(1) =~= wseq.skip(i + 1));
        }
        data = match data.parse_add(words[i]) {
            Ok(d) => d,
            Err(e) => {
                return Err(e);
            },
        };
        i += 1;
    }
    proof {
        assert(wseq.skip(words@.len() as int) =~= Seq::<Seq<char>>::empty());
    }
    Ok(data)
}

// ---------------------------------------------------------------------------
// Index values
// ---------------------------------------------------------------------------
/// The parsed contents of one `indices` element: unsigned indices of one
/// fixed width.
#[derive(Debug, Clone, PartialEq)]
pub enum IndicesValues {
    UnsignedInt(Vec<u32>),
    UnsignedShort(Vec<u16>),
    UnsignedByte(Vec<u8>),
}

/// The mathematical image of an `IndicesValues`.
pub enum IdxValuesV {
    UnsignedInt(Seq<u32>),
    UnsignedShort(Seq<u16>),
    UnsignedByte(Seq<u8>),
}

impl View for IndicesValues {
    type V = IdxValuesV;

    open spec fn view(&self) -> IdxValuesV {
        match self {
            IndicesValues::UnsignedInt(v) => IdxValuesV::UnsignedInt(v@),
            IndicesValues::UnsignedShort(v) => IdxValuesV::UnsignedShort(v@),
            IndicesValues::UnsignedByte(v) => IdxValuesV::UnsignedByte(v@),
        }
    }
}

impl IdxValuesV {
    pub open spec fn width(self) -> IndexSize {
        match self {
            IdxValuesV::UnsignedInt(_) => IndexSize::UnsignedInt,
            IdxValuesV::UnsignedShort(_) => IndexSize::UnsignedShort,
            IdxValuesV::UnsignedByte(_) => IndexSize::UnsignedByte,
        }
    }

    pub open spec fn len(self) -> nat {
        match self {
            IdxValuesV::UnsignedInt(s) => s.len(),
            IdxValuesV::UnsignedShort(s) => s.len(),
            IdxValuesV::UnsignedByte(s) => s.len(),
        }
    }

    pub open spec fn bytes(self) -> Seq<u8> {
        match self {
            IdxValuesV::UnsignedInt(s) => bytes_concat(s, |x: u32| u32_le(x)),
            IdxValuesV::UnsignedShort(s) => bytes_concat(s, |x: u16| u16_le(x)),
            IdxValuesV::UnsignedByte(s) => bytes_concat(s, |x: u8| seq![x]),
        }
    }

    pub open spec fn parse_add(self, w: Seq<char>) -> Result<IdxValuesV, MeshErrorV> {
        match self {
            IdxValuesV::UnsignedInt(s) => match spec_parse_u32(w) {
                Some(x) => Ok(IdxValuesV::UnsignedInt(s.push(x))),
                None => Err(MeshErrorV::ParseDataError(w)),
            },
            IdxValuesV::UnsignedShort(s) => match spec_parse_u16(w) {
                Some(x) => Ok(IdxValuesV::UnsignedShort(s.push(x))),
                None => Err(MeshErrorV::ParseDataError(w)),
            },
            IdxValuesV::UnsignedByte(s) => match spec_parse_u8(w) {
                Some(x) => Ok(IdxValuesV::UnsignedByte(s.push(x))),
                None => Err(MeshErrorV::ParseDataError(w)),
            },
        }
    }

    pub open spec fn parse_all(self, words: Seq<Seq<char>>) -> Result<IdxValuesV, MeshErrorV>
        decreases words.len(),
    {
        if words.len() == 0 {
            Ok(self)
        } else {
            match self.parse_add(words[0]) {
                Ok(v) => v.parse_all(words.skip(1)),
                Err(e) => Err(e),
            }
        }
    }

    /// A store's byte stream is exactly one index width per element.
    pub proof fn lemma_bytes_len(self)
        ensures
            self.bytes().len() == self.len() * self.width().spec_size(),
    {
        match self {
            IdxValuesV::UnsignedInt(s) => {
                let f = |x: u32| u32_le(x);
                assert(forall|x: u32| (#[trigger] f(x)).len() == 4);
                lemma_bytes_concat_len(s, f, 4);
            },
            IdxValuesV::UnsignedShort(s) => {
                let f = |x: u16| u16_le(x);
                assert(forall|x: u16| (#[trigger] f(x)).len() == 2);
                lemma_bytes_concat_len(s, f, 2);
            },
            IdxValuesV::UnsignedByte(s) => {
                let f = |x: u8| seq![x];
                assert(forall|x: u8| (#[trigger] f(x)).len() == 1);
                lemma_bytes_concat_len(s, f, 1);
            },
        }
    }

    /// Appending never changes a store's width.
    pub proof fn lemma_parse_all_width(self, words: Seq<Seq<char>>)
        ensures
            self.parse_all(words) matches Ok(v) ==> v.width() == self.width(),
        decreases words.len(),
    {
        if words.len() > 0 {
            match self.parse_add(words[0]) {
                Ok(v1) => {
                    v1.lemma_parse_all_width(words.skip(1));
                },
                Err(_) => {},
            }
        }
    }

    pub open spec fn empty_of(width: IndexSize) -> IdxValuesV {
        match width {
            IndexSize::UnsignedByte => IdxValuesV::UnsignedByte(Seq::empty()),
            IndexSize::UnsignedShort => IdxValuesV::UnsignedShort(Seq::empty()),
            IndexSize::UnsignedInt => IdxValuesV::UnsignedInt(Seq::empty()),
        }
    }
}

impl IndicesValues {
    /// An empty store of the given index width.
    pub fn new(width: IndexSize) -> (r: Self)
        ensures
            r@ == IdxValuesV::empty_of(width),
    {
        match width {
            IndexSize::UnsignedByte => IndicesValues::UnsignedByte(Vec::new()),
            IndexSize::UnsignedShort => IndicesValues::UnsignedShort(Vec::new()),
            IndexSize::UnsignedInt => IndicesValues::UnsignedInt(Vec::new()),
        }
    }

    /// Parses one whitespace-free token by the store's width and appends it.
    pub fn parse_add(self, word: &str) -> (r: Result<Self, MeshError>)
        ensures
            match self@.parse_add(word@) {
                Ok(v) => r is Ok && r->Ok_0@ == v,
                Err(e) => r is Err && r->Err_0@ == e,
            },
    {
        let w = chars_of(word);
        match self {
            IndicesValues::UnsignedInt(mut items) => match parse_unsigned_max(&w, 0xFFFF_FFFF) {
                Some(x) => {
                    items.push(x as u32);
                    Ok(IndicesValues::UnsignedInt(items))
                },
                None => Err(MeshError::ParseDataError(word.to_owned())),
            },
            IndicesValues::UnsignedShort(mut items) => match parse_unsigned_max(&w, 0xFFFF) {
                Some(x) => {
                    items.push(x as u16);
                    Ok(IndicesValues::UnsignedShort(items))
                },
                None => Err(MeshError::ParseDataError(word.to_owned())),
            },
            IndicesValues::UnsignedByte(mut items) => match parse_unsigned_max(&w, 0xFF) {
                Some(x) => {
                    items.push(x as u8);
                    Ok(IndicesValues::UnsignedByte(items))
                },
                None => Err(MeshError::ParseDataError(word.to_owned())),
            },
        }
    }

    pub fn len(&self) -> (r: usize)
        ensures
            r == self@.len(),
    {
        match self {
            IndicesValues::UnsignedInt(items) => items.len(),
            IndicesValues::UnsignedShort(items) => items.len(),
            IndicesValues::UnsignedByte(items) => items.len(),
        }
    }

    /// The indices as little-endian bytes, no padding between elements.
    pub fn get_bytes(&self) -> (r: Vec<u8>)
        ensures
            r@ == self@.bytes(),
    {
        let mut out: Vec<u8> = Vec::new();
        match self {
            IndicesValues::UnsignedInt(items) => {
                let ghost f = |x: u32| u32_le(x);
                let mut i: usize = 0;
                while i < items.len()
                    invariant
                        i <= items@.len(),
                        out@ == bytes_concat(items@.take(i as int), f),
                        f == (|x: u32| u32_le(x)),
                    decreases items@.len() - i,
                {
                    proof {
                        lemma_bytes_concat_push(items@.take(i as int), f, items@[i as int]);
                        assert(items@.take(i + 1) =~= items@.take(i as int).push(items@[i as int]));
                    }
                    push_u32_le(&mut out, items[i]);
                    i += 1;
                }
                proof {
                    assert(items@.take(items@.len() as int) =~= items@);
                }
            },
            IndicesValues::UnsignedShort(items) => {
                let ghost f = |x: u16| u16_le(x);
                let mut i: usize = 0;
                while i < items.len()
                    invariant
                        i <= items@.len(),
                        out@ == bytes_concat(items@.take(i as int), f),
                        f == (|x: u16| u16_le(x)),
                    decreases items@.len() - i,
                {
                    proof {
                        lemma_bytes_concat_push(items@.take(i as int), f, items@[i as int]);
                        assert(items@.take(i + 1) =~= items@.take(i as int).push(items@[i as int]));
                    }
                    push_u16_le(&mut out, items[i]);
                    i += 1;
                }
                proof {
                    assert(items@.take(items@.len() as int) =~= items@);
                }
            },
            IndicesValues::UnsignedByte(items) => {
                let ghost f = |x: u8| seq![x];
                let mut i: usize = 0;
                while i < items.len()
                    invariant
                        i <= items@.len(),
                        out@ == bytes_concat(items@.take(i as int), f),
                        f == (|x: u8| seq![x]),
                    decreases items@.len() - i,
                {
                    proof {
                        lemma_bytes_concat_push(items@.take(i as int), f, items@[i as int]);
                        assert(items@.take(i + 1) =~= items@.take(i as int).push(items@[i as int]));
                    }
                    push_u8(&mut out, items[i]);
                    i += 1;
                }
                proof {
                    assert(items@.take(items@.len() as int) =~= items@);
                }
            },
        }
        out
    }
}

/// Whitespace-splits the element text and parses every token as an index of
/// width `index_size`.
pub open spec fn spec_parse_indices_values(width: IndexSize, s: Seq<char>) -> Result<
    IdxValuesV,
    MeshErrorV,
> {
    IdxValuesV::empty_of(width).parse_all(split_ws(s))
}

pub fn parse_indices_values(index_size: IndexSize, s: &str) -> (r: Result<
    IndicesValues,
    MeshError,
>)
    ensures
        match spec_parse_indices_values(index_size, s@) {
            Ok(v) => r is Ok && r->Ok_0@ == v,
            Err(e) => r is Err && r->Err_0@ == e,
        },
{
    let mut data = IndicesValues::new(index_size);
    let words = split_whitespace_str(s);
    let ghost wseq = split_ws(s@);
    proof {
        assert(wseq.skip(0) =~= wseq);
    }
    let mut i: usize = 0;
    while i < words.len()
        invariant
            i <= words@.len(),
            wseq == words@.map_values(|w: &str| w@),
            data@.parse_all(wseq.skip(i as int)) == spec_parse_indices_values(index_size, s@),
        decreases words@.len() - i,
    {
        proof {
            assert(wseq[i as int] == words@[i as int]@);
            assert(wseq.skip(i as int).len() > 0);
            assert(wseq.skip(i as int)[0] == wseq[i as int]);
            assert(wseq.skip(i as int).skip(1) =~= wseq.skip(i + 1));
        }
        data = match data.parse_add(words[i]) {
            Ok(d) => d,
            Err(e) => {
                return Err(e);
            },
        };
        i += 1;
    }
    proof {
        assert(wseq.skip(words@.len() as int) =~= Seq::<Seq<char>>::empty());
    }
    Ok(data)
}

} // verus!
