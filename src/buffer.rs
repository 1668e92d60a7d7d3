//! Vertex buffers with a declared attribute layout, and triangle buffers.

use vstd::prelude::*;
use crate::bytes::{words_le, push_words_le, read_words_le, lemma_words_le_len};

verus! {

/// The numeric type of each component of a vertex attribute.
#[derive(Clone, Copy, Debug, PartialEq, Eq, Structural)]
pub enum VertexAttributeDataType {
    F32,
    U32,
    U16,
    U8,
}

impl VertexAttributeDataType {
    pub open spec fn spec_size(self) -> nat {
        match self {
            VertexAttributeDataType::F32 => 4,
            VertexAttributeDataType::U32 => 4,
            VertexAttributeDataType::U16 => 2,
            VertexAttributeDataType::U8 => 1,
        }
    }

    /// Size of one component in bytes.
    pub fn size(self) -> (r: u8)
        ensures
            r == self.spec_size(),
    {
        match self {
            VertexAttributeDataType::F32 => 4,
            VertexAttributeDataType::U32 => 4,
            VertexAttributeDataType::U16 => 2,
            VertexAttributeDataType::U8 => 1,
        }
    }
}

/// What a vertex attribute is used for.
#[derive(Clone, Copy, Debug, PartialEq, Eq, Structural)]
pub enum VertexAttributeUsage {
    Position,
    Normal,
    Tangent,
    TexCoord0,
    TexCoord1,
    Color,
    BoneWeight,
    BoneIndices,
}

/// Declares one attribute of a vertex layout.
#[derive(Clone, Copy, Debug, PartialEq, Eq, Structural)]
pub struct VertexAttributeDescriptor {
    pub usage: VertexAttributeUsage,
    pub data_type: VertexAttributeDataType,
    /// Number of components.
    pub size: u8,
    pub divisor: u8,
    pub shader_location: u8,
}

/// An attribute of a vertex layout, placed at a byte offset inside a vertex.
#[derive(Clone, Copy, Debug, PartialEq, Eq, Structural)]
pub struct VertexAttribute {
    pub usage: VertexAttributeUsage,
    pub data_type: VertexAttributeDataType,
    pub size: u8,
    pub divisor: u8,
    pub shader_location: u8,
    pub offset: u8,
}

/// Bytes taken by one attribute inside a vertex.
pub open spec fn desc_len(d: VertexAttributeDescriptor) -> nat {
    d.size as nat * d.data_type.spec_size()
}

pub open spec fn attr_len(a: VertexAttribute) -> nat {
    a.size as nat * a.data_type.spec_size()
}

/// Bytes taken by a whole vertex of the layout `ds`.
pub open spec fn descs_size(ds: Seq<VertexAttributeDescriptor>) -> nat
    decreases ds.len(),
{
    if ds.len() == 0 {
        0
    } else {
        descs_size(ds.drop_last()) + desc_len(ds.last())
    }
}

/// Two descriptors of `ds` declare the same usage.
pub open spec fn has_duplicate_usage(ds: Seq<VertexAttributeDescriptor>) -> bool {
    exists|i: int, j: int| 0 <= i < j < ds.len() && ds[i].usage == ds[j].usage
}

/// The attribute made of descriptor `d` placed at `offset`.
pub open spec fn placed(d: VertexAttributeDescriptor, offset: nat) -> VertexAttribute {
    VertexAttribute {
        usage: d.usage,
        data_type: d.data_type,
        size: d.size,
        divisor: d.divisor,
        shader_location: d.shader_location,
        offset: offset as u8,
    }
}

/// The layout of `ds`: each attribute placed right after the previous one.
pub open spec fn layout_of(ds: Seq<VertexAttributeDescriptor>) -> Seq<VertexAttribute> {
    Seq::new(ds.len(), |i: int| placed(ds[i], descs_size(ds.subrange(0, i))))
}

/// Usages are distinct, so an attribute is found by its usage alone.
pub open spec fn usages_unique(l: Seq<VertexAttribute>) -> bool {
    forall|i: int, j: int| 0 <= i < l.len() && 0 <= j < l.len() && l[i].usage == l[j].usage ==> i == j
}

pub open spec fn find_attribute(l: Seq<VertexAttribute>, u: VertexAttributeUsage) -> Option<VertexAttribute> {
    if exists|i: int| 0 <= i < l.len() && l[i].usage == u {
        Some(l[choose|i: int| 0 <= i < l.len() && l[i].usage == u])
    } else {
        None
    }
}

/// Why a vertex buffer could not be built.
#[derive(Clone, Copy, Debug, PartialEq, Eq, Structural)]
pub enum ValidationError {
    /// Two descriptors declare the same usage.
    DuplicatedAttributeDescriptor,
    /// A vertex would take more than 255 bytes.
    TooLargeVertex,
    /// The byte payload does not hold `vertex_count` whole vertices.
    InvalidDataSize { expected: u64, actual: u64 },
}

/// Why an attribute of a vertex could not be read or written.
#[derive(Clone, Copy, Debug, PartialEq, Eq, Structural)]
pub enum VertexFetchError {
    /// There is no vertex with this index.
    IndexOutOfRange { index: u64, count: u32 },
    /// The layout declares no attribute of this usage.
    NoSuchAttribute(VertexAttributeUsage),
    /// The attribute has another number of components, or bytes, than asked for.
    SizeMismatch { expected: u64, actual: u64 },
    /// The attribute's components are not of the type asked for.
    TypeMismatch { required: VertexAttributeDataType, found: VertexAttributeDataType },
}

/// What a vertex buffer holds.
pub ghost struct VertexBufferModel {
    pub layout: Seq<VertexAttribute>,
    pub vertex_size: nat,
    pub vertex_count: nat,
    pub data: Seq<u8>,
}

/// Where the bytes of attribute `a` of vertex `index` begin.
pub open spec fn attr_start(m: VertexBufferModel, index: int, a: VertexAttribute) -> int {
    index * m.vertex_size + a.offset
}

/// What reading attribute `u` of vertex `index` yields.
pub open spec fn read_spec(m: VertexBufferModel, index: int, u: VertexAttributeUsage) -> Result<Seq<u8>, VertexFetchError> {
    if index >= m.vertex_count {
        Err(VertexFetchError::IndexOutOfRange { index: index as u64, count: m.vertex_count as u32 })
    } else {
        match find_attribute(m.layout, u) {
            None => Err(VertexFetchError::NoSuchAttribute(u)),
            Some(a) => Ok(m.data.subrange(attr_start(m, index, a), attr_start(m, index, a) + attr_len(a))),
        }
    }
}

/// The buffer after attribute `u` of vertex `index` has been set to `bytes`.
pub open spec fn write_spec(m: VertexBufferModel, index: int, u: VertexAttributeUsage, bytes: Seq<u8>) -> Result<VertexBufferModel, VertexFetchError> {
    if index >= m.vertex_count {
        Err(VertexFetchError::IndexOutOfRange { index: index as u64, count: m.vertex_count as u32 })
    } else {
        match find_attribute(m.layout, u) {
            None => Err(VertexFetchError::NoSuchAttribute(u)),
            Some(a) => if bytes.len() != attr_len(a) {
                Err(VertexFetchError::SizeMismatch { expected: attr_len(a) as u64, actual: bytes.len() as u64 })
            } else {
                let start = attr_start(m, index, a);
                Ok(VertexBufferModel {
                    data: m.data.subrange(0, start) + bytes + m.data.subrange(start + bytes.len(), m.data.len() as int),
                    ..m
                })
            },
        }
    }
}

/// What reading `n` 32-bit float components of attribute `u` of vertex `index`
/// yields: their bytes, or why they cannot be read.
pub open spec fn read_f32_spec(m: VertexBufferModel, index: int, u: VertexAttributeUsage, n: u8) -> Result<Seq<u8>, VertexFetchError> {
    match read_spec(m, index, u) {
        Err(e) => Err(e),
        Ok(b) => {
            let a = find_attribute(m.layout, u).unwrap();
            if a.data_type != VertexAttributeDataType::F32 {
                Err(VertexFetchError::TypeMismatch { required: VertexAttributeDataType::F32, found: a.data_type })
            } else if a.size != n {
                Err(VertexFetchError::SizeMismatch { expected: n as u64, actual: a.size as u64 })
            } else {
                Ok(b)
            }
        },
    }
}

/// The buffer after the 32-bit float components of attribute `u` of vertex `index`
/// have been set to the bit patterns `ws`.
pub open spec fn write_f32_spec(m: VertexBufferModel, index: int, u: VertexAttributeUsage, ws: Seq<u32>) -> Result<VertexBufferModel, VertexFetchError> {
    if index >= m.vertex_count {
        Err(VertexFetchError::IndexOutOfRange { index: index as u64, count: m.vertex_count as u32 })
    } else {
        match find_attribute(m.layout, u) {
            None => Err(VertexFetchError::NoSuchAttribute(u)),
            Some(a) => if a.data_type != VertexAttributeDataType::F32 {
                Err(VertexFetchError::TypeMismatch { required: VertexAttributeDataType::F32, found: a.data_type })
            } else if a.size as int != ws.len() {
                Err(VertexFetchError::SizeMismatch { expected: a.size as u64, actual: ws.len() as u64 })
            } else {
                write_spec(m, index, u, words_le(ws))
            },
        }
    }
}

/// A vertex buffer: `vertex_count` vertices of `vertex_size` bytes each, laid out
/// as the attribute list says.
#[derive(Clone, Debug)]
pub struct VertexBuffer {
    layout: Vec<VertexAttribute>,
    vertex_size: u8,
    vertex_count: u32,
    data: Vec<u8>,
}

impl View for VertexBuffer {
    type V = VertexBufferModel;

    closed spec fn view(&self) -> VertexBufferModel {
        VertexBufferModel {
            layout: self.layout@,
            vertex_size: self.vertex_size as nat,
            vertex_count: self.vertex_count as nat,
            data: self.data@,
        }
    }
}

/// The descriptor that attribute `a` was placed from.
pub open spec fn desc_of(a: VertexAttribute) -> VertexAttributeDescriptor {
    VertexAttributeDescriptor {
        usage: a.usage,
        data_type: a.data_type,
        size: a.size,
        divisor: a.divisor,
        shader_location: a.shader_location,
    }
}

pub open spec fn descs_of(l: Seq<VertexAttribute>) -> Seq<VertexAttributeDescriptor> {
    Seq::new(l.len(), |i: int| desc_of(l[i]))
}

/// A model is well formed: the attributes are packed one after the other and
/// the data holds whole vertices.
pub open spec fn model_wf(m: VertexBufferModel) -> bool {
    &&& m.layout == layout_of(descs_of(m.layout))
    &&& m.vertex_size == descs_size(descs_of(m.layout))
    &&& m.vertex_size <= 255
    &&& m.vertex_count <= u32::MAX
    &&& usages_unique(m.layout)
    &&& forall|i: int| 0 <= i < m.layout.len() ==> #[trigger] m.layout[i].offset + attr_len(m.layout[i]) <= m.vertex_size
    &&& m.data.len() == m.vertex_count * m.vertex_size
}

proof fn lemma_descs_size_mono(ds: Seq<VertexAttributeDescriptor>, i: int)
    requires
        0 <= i <= ds.len(),
    ensures
        descs_size(ds.subrange(0, i)) <= descs_size(ds),
    decreases ds.len() - i,
{
    if i < ds.len() {
        lemma_descs_size_mono(ds, i + 1);
        assert(ds.subrange(0, i + 1).drop_last() =~= ds.subrange(0, i));
    } else {
        assert(ds.subrange(0, i) =~= ds);
    }
}

impl VertexBuffer {
    pub open spec fn wf(&self) -> bool {
        model_wf(self@)
    }

    /// Builds a buffer of `vertex_count` vertices from their raw bytes and the layout
    /// `layout`. Fails when two descriptors share a usage, when a vertex would take more
    /// than 255 bytes, and when `data` does not hold exactly `vertex_count` vertices,
    /// checked in that order.
    pub fn new(vertex_count: u32, layout: &[VertexAttributeDescriptor], data: Vec<u8>) -> (r: Result<VertexBuffer, ValidationError>)
        ensures
            has_duplicate_usage(layout@) ==> r == Err::<VertexBuffer, ValidationError>(ValidationError::DuplicatedAttributeDescriptor),
            !has_duplicate_usage(layout@) && descs_size(layout@) > 255 ==> r == Err::<VertexBuffer, ValidationError>(ValidationError::TooLargeVertex),
            !has_duplicate_usage(layout@) && descs_size(layout@) <= 255 && data@.len() != vertex_count * descs_size(layout@)
                ==> r == Err::<VertexBuffer, ValidationError>(ValidationError::InvalidDataSize {
                    expected: (vertex_count * descs_size(layout@)) as u64,
                    actual: data@.len() as u64,
                }),
            r is Ok <==> !has_duplicate_usage(layout@) && descs_size(layout@) <= 255 && data@.len() == vertex_count * descs_size(layout@),
            r matches Ok(vb) ==> vb.wf() && vb@ == (VertexBufferModel {
                layout: layout_of(layout@),
                vertex_size: descs_size(layout@),
                vertex_count: vertex_count as nat,
                data: data@,
            }),
    {
        // Reject duplicated usages first.
        let n = layout.len();
        let mut i: usize = 0;
        while i < n
            invariant
                n == layout@.len(),
                0 <= i <= n,
                forall|a: int, b: int| 0 <= a < b < i ==> layout@[a].usage != layout@[b].usage,
            decreases n - i,
        {
            let mut j: usize = 0;
            while j < i
                invariant
                    n == layout@.len(),
                    0 <= j <= i < n,
                    forall|a: int| 0 <= a < j ==> layout@[a].usage != layout@[i as int].usage,
                decreases i - j,
            {
                if layout[j].usage == layout[i].usage {
                    return Err(ValidationError::DuplicatedAttributeDescriptor);
                }
                j = j + 1;
            }
            i = i + 1;
        }
        // Place each attribute after the previous one.
        let mut attrs: Vec<VertexAttribute> = Vec::new();
        let mut offset: u64 = 0;
        let mut k: usize = 0;
        while k < n
            invariant
                n == layout@.len(),
                0 <= k <= n,
                !has_duplicate_usage(layout@),
                offset == descs_size(layout@.subrange(0, k as int)),
                offset <= 255,
                attrs@ == layout_of(layout@).subrange(0, k as int),
            decreases n - k,
        {
            let d = layout[k];
            let ts = d.data_type.size();
            assert((d.size as u64) * (ts as u64) <= 1020) by (nonlinear_arith)
                requires d.size <= 255, ts <= 4;
            let len: u64 = (d.size as u64) * (ts as u64);
            proof {
                assert(layout@.subrange(0, k as int + 1).drop_last() =~= layout@.subrange(0, k as int));
            }
            if offset + len > 255 {
                proof {
                    lemma_descs_size_mono(layout@, k as int + 1);
                }
                return Err(ValidationError::TooLargeVertex);
            }
            attrs.push(VertexAttribute {
                usage: d.usage,
                data_type: d.data_type,
                size: d.size,
                divisor: d.divisor,
                shader_location: d.shader_location,
                offset: offset as u8,
            });
            offset = offset + len;
            k = k + 1;
            proof {
                assert(attrs@ =~= layout_of(layout@).subrange(0, k as int));
            }
        }
        assert(layout@.subrange(0, n as int) =~= layout@);
        assert(attrs@ =~= layout_of(layout@));
        assert((vertex_count as u64) * offset <= 0xffff_ffff * 255) by (nonlinear_arith)
            requires vertex_count <= 0xffff_ffff, offset <= 255;
        let expected: u64 = (vertex_count as u64) * offset;
        if data.len() as u64 != expected {
            return Err(ValidationError::InvalidDataSize { expected, actual: data.len() as u64 });
        }
        let vb = VertexBuffer { layout: attrs, vertex_size: offset as u8, vertex_count, data };
        proof {
            let l = layout_of(layout@);
            assert forall|a: int, b: int| 0 <= a < l.len() && 0 <= b < l.len() && l[a].usage == l[b].usage implies a == b by {
                if a < b {
                    assert(layout@[a].usage == layout@[b].usage);
                } else if b < a {
                    assert(layout@[b].usage == layout@[a].usage);
                }
            }
            assert(descs_of(l) =~= layout@);
            assert forall|a: int| 0 <= a < l.len() implies #[trigger] l[a].offset + attr_len(l[a]) <= descs_size(layout@) by {
                lemma_descs_size_mono(layout@, a);
                lemma_descs_size_mono(layout@, a + 1);
                assert(layout@.subrange(0, a + 1).drop_last() =~= layout@.subrange(0, a));
            }
        }
        Ok(vb)
    }

    /// Number of vertices.
    pub fn vertex_count(&self) -> (r: u32)
        ensures
            r == self@.vertex_count,
    {
        self.vertex_count
    }

    /// Size of one vertex in bytes.
    pub fn vertex_size(&self) -> (r: u8)
        ensures
            r == self@.vertex_size,
    {
        self.vertex_size
    }

    /// The attributes of a vertex, in layout order.
    pub fn layout(&self) -> (r: &[VertexAttribute])
        ensures
            r@ == self@.layout,
    {
        self.layout.as_slice()
    }

    /// The raw bytes of all vertices.
    pub fn raw_data(&self) -> (r: &[u8])
        ensures
            r@ == self@.data,
    {
        self.data.as_slice()
    }

    /// The attribute of usage `usage`, if the layout declares one.
    pub fn attribute(&self, usage: VertexAttributeUsage) -> (r: Option<VertexAttribute>)
        requires
            self.wf(),
        ensures
            r == find_attribute(self@.layout, usage),
    {
        let mut i: usize = 0;
        while i < self.layout.len()
            invariant
                self.wf(),
                0 <= i <= self.layout@.len(),
                forall|a: int| 0 <= a < i ==> self.layout@[a].usage != usage,
            decreases self.layout@.len() - i,
        {
            if self.layout[i].usage == usage {
                proof {
                    let l = self.layout@;
                    assert(l[i as int].usage == usage);
                    let c = choose|c: int| 0 <= c < l.len() && l[c].usage == usage;
                    assert(usages_unique(self@.layout));
                    assert(c == i);
                }
                return Some(self.layout[i]);
            }
            i = i + 1;
        }
        None
    }

    /// The bytes of attribute `usage` of vertex `index`.
    pub fn read_attribute(&self, index: usize, usage: VertexAttributeUsage) -> (r: Result<Vec<u8>, VertexFetchError>)
        requires
            self.wf(),
        ensures
            match r {
                Ok(v) => read_spec(self@, index as int, usage) == Ok::<Seq<u8>, VertexFetchError>(v@),
                Err(e) => read_spec(self@, index as int, usage) == Err::<Seq<u8>, VertexFetchError>(e),
            },
    {
        if index >= self.vertex_count as usize {
            return Err(VertexFetchError::IndexOutOfRange { index: index as u64, count: self.vertex_count });
        }
        match self.attribute(usage) {
            None => Err(VertexFetchError::NoSuchAttribute(usage)),
            Some(a) => {
                let len: usize = (a.size as usize) * (a.data_type.size() as usize);
                let dlen = self.data.len();
                proof {
                    let c = choose|c: int| 0 <= c < self@.layout.len() && self@.layout[c].usage == usage;
                    assert(self@.layout[c].offset + attr_len(self@.layout[c]) <= self@.vertex_size);
                    assert(a == self@.layout[c]);
                    assert((index as int) * (self.vertex_size as int) + self.vertex_size <= (self.vertex_count as int) * (self.vertex_size as int)) by (nonlinear_arith)
                        requires index < self.vertex_count;
                }
                let start: usize = index * (self.vertex_size as usize) + (a.offset as usize);
                let mut out: Vec<u8> = Vec::new();
                let mut k: usize = 0;
                while k < len
                    invariant
                        start + len <= self.data@.len(),
                        dlen == self.data@.len(),
                        0 <= k <= len,
                        out@ == self.data@.subrange(start as int, start + k),
                    decreases len - k,
                {
                    out.push(self.data[start + k]);
                    k = k + 1;
                    assert(out@ =~= self.data@.subrange(start as int, start + k));
                }
                Ok(out)
            },
        }
    }

    /// Sets the bytes of attribute `usage` of vertex `index`; on an error nothing changes.
    #[verifier::rlimit(40)]
    pub fn write_attribute(&mut self, index: usize, usage: VertexAttributeUsage, bytes: &[u8]) -> (r: Result<(), VertexFetchError>)
        requires
            old(self).wf(),
        ensures
            final(self).wf(),
            match r {
                Ok(_) => write_spec(old(self)@, index as int, usage, bytes@) == Ok::<VertexBufferModel, VertexFetchError>(final(self)@),
                Err(e) => write_spec(old(self)@, index as int, usage, bytes@) == Err::<VertexBufferModel, VertexFetchError>(e)
                    && final(self)@ == old(self)@,
            },
    {
        if index >= self.vertex_count as usize {
            return Err(VertexFetchError::IndexOutOfRange { index: index as u64, count: self.vertex_count });
        }
        match self.attribute(usage) {
            None => Err(VertexFetchError::NoSuchAttribute(usage)),
            Some(a) => {
                let len: usize = (a.size as usize) * (a.data_type.size() as usize);
                if bytes.len() != len {
                    return Err(VertexFetchError::SizeMismatch { expected: len as u64, actual: bytes.len() as u64 });
                }
                let dlen = self.data.len();
                proof {
                    let c = choose|c: int| 0 <= c < self@.layout.len() && self@.layout[c].usage == usage;
                    assert(self@.layout[c].offset + attr_len(self@.layout[c]) <= self@.vertex_size);
                    assert(a == self@.layout[c]);
                    assert((index as int) * (self.vertex_size as int) + self.vertex_size <= (self.vertex_count as int) * (self.vertex_size as int)) by (nonlinear_arith)
                        requires index < self.vertex_count;
                }
                let start: usize = index * (self.vertex_size as usize) + (a.offset as usize);
                let ghost d0 = self.data@;
                let mut k: usize = 0;
                while k < len
                    invariant
                        start + len <= d0.len(),
                        dlen == d0.len(),
                        len == bytes@.len(),
                        0 <= k <= len,
                        self.data@.len() == d0.len(),
                        self.layout == old(self).layout,
                        self.vertex_size == old(self).vertex_size,
                        self.vertex_count == old(self).vertex_count,
                        d0 == old(self).data@,
                        forall|p: int| 0 <= p < d0.len() ==> #[trigger] self.data@[p] == if start <= p < start + k {
                            bytes@[p - start]
                        } else {
                            d0[p]
                        },
                    decreases len - k,
                {
                    self.data.set(start + k, bytes[k]);
                    k = k + 1;
                }
                assert(self.data@ =~= d0.subrange(0, start as int) + bytes@ + d0.subrange(start + len, d0.len() as int));
                assert(self@.layout == old(self)@.layout);
                assert(self@.data.len() == old(self)@.data.len());
                Ok(())
            },
        }
    }

    /// The bit patterns of the `n` 32-bit float components of attribute `usage` of
    /// vertex `index`.
    pub fn read_f32_bits(&self, index: usize, usage: VertexAttributeUsage, n: u8) -> (r: Result<Vec<u32>, VertexFetchError>)
        requires
            self.wf(),
        ensures
            match r {
                Ok(ws) => read_f32_spec(self@, index as int, usage, n) == Ok::<Seq<u8>, VertexFetchError>(words_le(ws@))
                    && ws@.len() == n,
                Err(e) => read_f32_spec(self@, index as int, usage, n) == Err::<Seq<u8>, VertexFetchError>(e),
            },
    {
        if index >= self.vertex_count as usize {
            return Err(VertexFetchError::IndexOutOfRange { index: index as u64, count: self.vertex_count });
        }
        match self.attribute(usage) {
            None => Err(VertexFetchError::NoSuchAttribute(usage)),
            Some(a) => {
                if a.data_type != VertexAttributeDataType::F32 {
                    return Err(VertexFetchError::TypeMismatch { required: VertexAttributeDataType::F32, found: a.data_type });
                }
                if a.size != n {
                    return Err(VertexFetchError::SizeMismatch { expected: n as u64, actual: a.size as u64 });
                }
                let dlen = self.data.len();
                proof {
                    let c = choose|c: int| 0 <= c < self@.layout.len() && self@.layout[c].usage == usage;
                    assert(self@.layout[c].offset + attr_len(self@.layout[c]) <= self@.vertex_size);
                    assert(a == self@.layout[c]);
                    assert(attr_len(a) == 4 * (n as nat));
                    assert((index as int) * (self.vertex_size as int) + self.vertex_size <= (self.vertex_count as int) * (self.vertex_size as int)) by (nonlinear_arith)
                        requires index < self.vertex_count;
                }
                let start: usize = index * (self.vertex_size as usize) + (a.offset as usize);
                Ok(read_words_le(self.data.as_slice(), start, n as usize))
            },
        }
    }

    /// Sets the 32-bit float components of attribute `usage` of vertex `index` to the
    /// bit patterns `ws`; on an error nothing changes.
    pub fn write_f32_bits(&mut self, index: usize, usage: VertexAttributeUsage, ws: &[u32]) -> (r: Result<(), VertexFetchError>)
        requires
            old(self).wf(),
        ensures
            final(self).wf(),
            match r {
                Ok(_) => write_f32_spec(old(self)@, index as int, usage, ws@) == Ok::<VertexBufferModel, VertexFetchError>(final(self)@),
                Err(e) => write_f32_spec(old(self)@, index as int, usage, ws@) == Err::<VertexBufferModel, VertexFetchError>(e)
                    && final(self)@ == old(self)@,
            },
    {
        if index >= self.vertex_count as usize {
            return Err(VertexFetchError::IndexOutOfRange { index: index as u64, count: self.vertex_count });
        }
        match self.attribute(usage) {
            None => Err(VertexFetchError::NoSuchAttribute(usage)),
            Some(a) => {
                if a.data_type != VertexAttributeDataType::F32 {
                    return Err(VertexFetchError::TypeMismatch { required: VertexAttributeDataType::F32, found: a.data_type });
                }
                if a.size as usize != ws.len() {
                    return Err(VertexFetchError::SizeMismatch { expected: a.size as u64, actual: ws.len() as u64 });
                }
                let mut bytes: Vec<u8> = Vec::new();
                push_words_le(&mut bytes, ws);
                proof {
                    lemma_words_le_len(ws@);
                    assert(bytes@ =~= words_le(ws@));
                }
                self.write_attribute(index, usage, bytes.as_slice())
            },
        }
    }

    /// Removes every vertex, keeping the layout.
    pub fn clear(&mut self)
        requires
            old(self).wf(),
        ensures
            final(self).wf(),
            final(self)@ == (VertexBufferModel { vertex_count: 0, data: Seq::empty(), ..old(self)@ }),
    {
        self.data.clear();
        self.vertex_count = 0;
    }
}

} // verus!

verus! {

/// Three vertex indices; front faces wind counter-clockwise.
#[derive(Clone, Copy, Debug, PartialEq, Eq)]
pub struct TriangleDefinition(pub [u32; 3]);

/// The vertex indices of `ts`, three per triangle, in order.
pub open spec fn triangle_words(ts: Seq<TriangleDefinition>) -> Seq<u32>
    decreases ts.len(),
{
    if ts.len() == 0 {
        Seq::empty()
    } else {
        triangle_words(ts.drop_last()) + ts.last().0@
    }
}

/// Every index of every triangle of `ts` is below `vertex_count`.
pub open spec fn indices_below(ts: Seq<TriangleDefinition>, vertex_count: nat) -> bool {
    forall|i: int, k: int| 0 <= i < ts.len() && 0 <= k < 3 ==> (#[trigger] ts[i].0[k]) < vertex_count
}

/// An ordered list of triangles.
#[derive(Clone, Debug)]
pub struct TriangleBuffer {
    triangles: Vec<TriangleDefinition>,
}

impl View for TriangleBuffer {
    type V = Seq<TriangleDefinition>;

    closed spec fn view(&self) -> Seq<TriangleDefinition> {
        self.triangles@
    }
}

impl TriangleBuffer {
    pub fn new(triangles: Vec<TriangleDefinition>) -> (r: TriangleBuffer)
        ensures
            r@ == triangles@,
    {
        TriangleBuffer { triangles }
    }

    /// Number of triangles.
    pub fn len(&self) -> (r: usize)
        ensures
            r == self@.len(),
    {
        self.triangles.len()
    }

    pub fn is_empty(&self) -> (r: bool)
        ensures
            r == (self@.len() == 0),
    {
        self.triangles.len() == 0
    }

    /// The triangles in order.
    pub fn triangles(&self) -> (r: &[TriangleDefinition])
        ensures
            r@ == self@,
    {
        self.triangles.as_slice()
    }

    pub fn push(&mut self, t: TriangleDefinition)
        ensures
            final(self)@ == old(self)@.push(t),
    {
        self.triangles.push(t);
    }

    pub fn clear(&mut self)
        ensures
            final(self)@ == Seq::<TriangleDefinition>::empty(),
    {
        self.triangles.clear();
    }

    /// The indices of all triangles, three per triangle.
    pub fn index_words(&self) -> (r: Vec<u32>)
        ensures
            r@ == triangle_words(self@),
    {
        let mut out: Vec<u32> = Vec::new();
        let mut i: usize = 0;
        while i < self.triangles.len()
            invariant
                0 <= i <= self@.len(),
                out@ == triangle_words(self@.subrange(0, i as int)),
            decreases self@.len() - i,
        {
            let t = self.triangles[i];
            out.push(t.0[0]);
            out.push(t.0[1]);
            out.push(t.0[2]);
            proof {
                assert(self@.subrange(0, i + 1).drop_last() =~= self@.subrange(0, i as int));
                assert(out@ =~= triangle_words(self@.subrange(0, i + 1)));
            }
            i = i + 1;
        }
        assert(self@.subrange(0, self@.len() as int) =~= self@);
        out
    }

    /// The little-endian bytes of all indices.
    pub fn raw_data(&self) -> (r: Vec<u8>)
        ensures
            r@ == words_le(triangle_words(self@)),
    {
        let words = self.index_words();
        let mut out: Vec<u8> = Vec::new();
        push_words_le(&mut out, words.as_slice());
        assert(out@ =~= words_le(triangle_words(self@)));
        out
    }
}

} // verus!
