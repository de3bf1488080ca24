use vstd::prelude::*;
use crate::gl;

verus! {

/// The primitive that a draw call assembles from its vertices.
pub enum DrawMode {
    Point,
    Patches,
    Line,
    LineLoop,
    LineStrip,
    LineStripAdjacency,
    LineAdjacency,
    Triangle,
    TriangleFan,
    TriangleStrip,
    TriangleStripAdjacency,
    TriangleAdjacency,
}

impl DrawMode {
    pub open spec fn spec_gl(&self) -> u32 {
        match self {
            DrawMode::Point => gl::POINTS,
            DrawMode::Patches => gl::PATCHES,
            DrawMode::Line => gl::LINES,
            DrawMode::LineLoop => gl::LINE_LOOP,
            DrawMode::LineStrip => gl::LINE_STRIP,
            DrawMode::LineStripAdjacency => gl::LINE_STRIP_ADJACENCY,
            DrawMode::LineAdjacency => gl::LINES_ADJACENCY,
            DrawMode::Triangle => gl::TRIANGLES,
            DrawMode::TriangleFan => gl::TRIANGLE_FAN,
            DrawMode::TriangleStrip => gl::TRIANGLE_STRIP,
            DrawMode::TriangleStripAdjacency => gl::TRIANGLE_STRIP_ADJACENCY,
            DrawMode::TriangleAdjacency => gl::TRIANGLES_ADJACENCY,
        }
    }

    /// The OpenGL primitive mode.
    pub fn get_gl(&self) -> (r: u32)
        ensures
            r == self.spec_gl(),
    {
        match self {
            DrawMode::Point => gl::POINTS,
            DrawMode::Patches => gl::PATCHES,
            DrawMode::Line => gl::LINES,
            DrawMode::LineLoop => gl::LINE_LOOP,
            DrawMode::LineStrip => gl::LINE_STRIP,
            DrawMode::LineStripAdjacency => gl::LINE_STRIP_ADJACENCY,
            DrawMode::LineAdjacency => gl::LINES_ADJACENCY,
            DrawMode::Triangle => gl::TRIANGLES,
            DrawMode::TriangleFan => gl::TRIANGLE_FAN,
            DrawMode::TriangleStrip => gl::TRIANGLE_STRIP,
            DrawMode::TriangleStripAdjacency => gl::TRIANGLE_STRIP_ADJACENCY,
            DrawMode::TriangleAdjacency => gl::TRIANGLES_ADJACENCY,
        }
    }
}

/// Different draw modes give different OpenGL modes, so a mode drawn is the mode asked for.
pub proof fn law_draw_mode_injective(a: DrawMode, b: DrawMode)
    requires
        a.spec_gl() == b.spec_gl(),
    ensures
        a == b,
{
}

/// The draw modes take OpenGL's primitive numbering: points, lines, line loops, line
/// strips, triangles, triangle strips and triangle fans are 0 to 6, the adjacency forms of
/// lines, line strips, triangles and triangle strips are 10 to 13, and patches 14.
pub proof fn law_draw_mode_numbering(m: DrawMode)
    ensures
        m == DrawMode::Point <==> m.spec_gl() == 0,
        m == DrawMode::Line <==> m.spec_gl() == 1,
        m == DrawMode::LineLoop <==> m.spec_gl() == 2,
        m == DrawMode::LineStrip <==> m.spec_gl() == 3,
        m == DrawMode::Triangle <==> m.spec_gl() == 4,
        m == DrawMode::TriangleStrip <==> m.spec_gl() == 5,
        m == DrawMode::TriangleFan <==> m.spec_gl() == 6,
        m == DrawMode::LineAdjacency <==> m.spec_gl() == 10,
        m == DrawMode::LineStripAdjacency <==> m.spec_gl() == 11,
        m == DrawMode::TriangleAdjacency <==> m.spec_gl() == 12,
        m == DrawMode::TriangleStripAdjacency <==> m.spec_gl() == 13,
        m == DrawMode::Patches <==> m.spec_gl() == 14,
{
}

/// How the contents of a buffer are accessed.
#[derive(PartialEq, Eq, Structural)]
pub enum BufferAccess {
    Draw,
    Read,
    Copy,
}

/// How often the contents of a buffer change.
#[derive(PartialEq, Eq, Structural)]
pub enum BufferUsage {
    Stream,
    Static,
    Dynamic,
}

pub open spec fn spec_usage_enum(buffer_usage: BufferUsage, buffer_access: BufferAccess) -> u32 {
    match buffer_usage {
        BufferUsage::Stream => match buffer_access {
            BufferAccess::Draw => gl::STREAM_DRAW,
            BufferAccess::Read => gl::STREAM_READ,
            BufferAccess::Copy => gl::STREAM_COPY,
        },
        BufferUsage::Static => match buffer_access {
            BufferAccess::Draw => gl::STATIC_DRAW,
            BufferAccess::Read => gl::STATIC_READ,
            BufferAccess::Copy => gl::STATIC_COPY,
        },
        BufferUsage::Dynamic => match buffer_access {
            BufferAccess::Draw => gl::DYNAMIC_DRAW,
            BufferAccess::Read => gl::DYNAMIC_READ,
            BufferAccess::Copy => gl::DYNAMIC_COPY,
        },
    }
}

/// The OpenGL usage hint for a buffer's usage and access pattern.
pub fn get_usage_enum(buffer_usage: BufferUsage, buffer_access: BufferAccess) -> (r: u32)
    ensures
        r == spec_usage_enum(buffer_usage, buffer_access),
{
    match buffer_usage {
        BufferUsage::Stream => match buffer_access {
            BufferAccess::Draw => gl::STREAM_DRAW,
            BufferAccess::Read => gl::STREAM_READ,
            BufferAccess::Copy => gl::STREAM_COPY,
        },
        BufferUsage::Static => match buffer_access {
            BufferAccess::Draw => gl::STATIC_DRAW,
            BufferAccess::Read => gl::STATIC_READ,
            BufferAccess::Copy => gl::STATIC_COPY,
        },
        BufferUsage::Dynamic => match buffer_access {
            BufferAccess::Draw => gl::DYNAMIC_DRAW,
            BufferAccess::Read => gl::DYNAMIC_READ,
            BufferAccess::Copy => gl::DYNAMIC_COPY,
        },
    }
}

/// Different usage and access pairs give different usage hints, so the hint
/// tells which pair a buffer was created with.
pub proof fn law_usage_enum_injective(u1: BufferUsage, a1: BufferAccess, u2: BufferUsage, a2: BufferAccess)
    requires
        spec_usage_enum(u1, a1) == spec_usage_enum(u2, a2),
    ensures
        u1 == u2,
        a1 == a2,
{
}

/// What a buffer is bound as. A vertex buffer carries the descriptors `A` of its vertex
/// attributes; an index buffer carries the base order `T` of one primitive's indices.
pub enum BufferType<T, A> {
    Vertex(Vec<A>),
    Index(Vec<T>),
    CopyRead,
    CopyWrite,
    PixelUnpack,
    PixelPack,
    Query,
    Texture,
    TransformFeedback,
    Uniform,
    DrawIndirect,
    AtomicCounter,
    DispatchIndirect,
    ShaderStorage,
}

impl<T, A> BufferType<T, A> {
    pub open spec fn spec_gl(&self) -> u32 {
        match self {
            BufferType::Vertex(..) => gl::ARRAY_BUFFER,
            BufferType::Index(..) => gl::ELEMENT_ARRAY_BUFFER,
            BufferType::CopyRead => gl::COPY_READ_BUFFER,
            BufferType::CopyWrite => gl::COPY_WRITE_BUFFER,
            BufferType::PixelUnpack => gl::PIXEL_UNPACK_BUFFER,
            BufferType::PixelPack => gl::PIXEL_PACK_BUFFER,
            BufferType::Query => gl::QUERY_BUFFER,
            BufferType::Texture => gl::TEXTURE_BUFFER,
            BufferType::TransformFeedback => gl::TRANSFORM_FEEDBACK_BUFFER,
            BufferType::Uniform => gl::UNIFORM_BUFFER,
            BufferType::DrawIndirect => gl::DRAW_INDIRECT_BUFFER,
            BufferType::AtomicCounter => gl::ATOMIC_COUNTER_BUFFER,
            BufferType::DispatchIndirect => gl::DISPATCH_INDIRECT_BUFFER,
            BufferType::ShaderStorage => gl::SHADER_STORAGE_BUFFER,
        }
    }

    /// The OpenGL binding target.
    pub fn get_gl(&self) -> (r: u32)
        ensures
            r == self.spec_gl(),
    {
        match self {
            BufferType::Vertex(..) => gl::ARRAY_BUFFER,
            BufferType::Index(..) => gl::ELEMENT_ARRAY_BUFFER,
            BufferType::CopyRead => gl::COPY_READ_BUFFER,
            BufferType::CopyWrite => gl::COPY_WRITE_BUFFER,
            BufferType::PixelUnpack => gl::PIXEL_UNPACK_BUFFER,
            BufferType::PixelPack => gl::PIXEL_PACK_BUFFER,
            BufferType::Query => gl::QUERY_BUFFER,
            BufferType::Texture => gl::TEXTURE_BUFFER,
            BufferType::TransformFeedback => gl::TRANSFORM_FEEDBACK_BUFFER,
            BufferType::Uniform => gl::UNIFORM_BUFFER,
            BufferType::DrawIndirect => gl::DRAW_INDIRECT_BUFFER,
            BufferType::AtomicCounter => gl::ATOMIC_COUNTER_BUFFER,
            BufferType::DispatchIndirect => gl::DISPATCH_INDIRECT_BUFFER,
            BufferType::ShaderStorage => gl::SHADER_STORAGE_BUFFER,
        }
    }
}

/// How many elements of `element_bytes` bytes a buffer of `size_bytes` bytes holds.
pub fn element_count(size_bytes: usize, element_bytes: usize) -> (r: usize)
    requires
        element_bytes > 0,
    ensures
        r == size_bytes / element_bytes,
{
    size_bytes / element_bytes
}

/// The byte offset and byte length of an update of `len` elements at element `offset`,
/// or nothing when the update runs past the end of a buffer of `buffer_bytes` bytes,
/// where the update is refused.
pub fn update_range(offset: usize, len: usize, element_bytes: usize, buffer_bytes: usize) -> (r: Option<(usize, usize)>)
    requires
        offset * element_bytes + len * element_bytes <= usize::MAX,
    ensures
        offset * element_bytes + len * element_bytes <= buffer_bytes ==> r == Some(
            ((offset * element_bytes) as usize, (len * element_bytes) as usize),
        ),
        offset * element_bytes + len * element_bytes > buffer_bytes ==> r is None,
{
    assert(0 <= offset * element_bytes) by (nonlinear_arith);
    assert(0 <= len * element_bytes) by (nonlinear_arith);
    let start: usize = offset * element_bytes;
    let size: usize = len * element_bytes;
    if start + size > buffer_bytes {
        None
    } else {
        Some((start, size))
    }
}

/// The total size of the first `k` attributes, each an index and a size in bytes.
pub open spec fn size_sum(s: Seq<(u32, usize)>, k: int) -> int
    decreases k,
{
    if k <= 0 {
        0
    } else {
        size_sum(s, k - 1) + s[k - 1].1
    }
}

/// Attribute `j` comes before attribute `i` in the vertex: by index, and in the given
/// order among attributes of the same index.
pub open spec fn comes_before(s: Seq<(u32, usize)>, j: int, i: int) -> bool {
    s[j].0 < s[i].0 || (s[j].0 == s[i].0 && j < i)
}

/// The total size of those of the first `k` attributes that come before attribute `i`.
pub open spec fn offset_in(s: Seq<(u32, usize)>, i: int, k: int) -> int
    decreases k,
{
    if k <= 0 {
        0
    } else {
        offset_in(s, i, k - 1) + if comes_before(s, k - 1, i) { s[k - 1].1 as int } else { 0 }
    }
}

proof fn lemma_sums_grow(s: Seq<(u32, usize)>, i: int, k: int, m: int)
    requires
        0 <= k <= m <= s.len(),
    ensures
        0 <= offset_in(s, i, k) <= size_sum(s, k) <= size_sum(s, m),
    decreases m,
{
    if m > k {
        lemma_sums_grow(s, i, k, m - 1);
    } else if k > 0 {
        lemma_sums_grow(s, i, k - 1, k - 1);
    }
}

/// The layout of interleaved vertex attributes, each given as its index and its size in
/// bytes: the stride of a vertex, and the byte offset of each attribute, the attributes
/// being laid out in order of index.
pub fn vertex_layout(attributes: &Vec<(u32, usize)>) -> (r: (usize, Vec<usize>))
    requires
        size_sum(attributes@, attributes@.len() as int) <= usize::MAX,
    ensures
        r.0 == size_sum(attributes@, attributes@.len() as int),
        r.1@.len() == attributes@.len(),
        forall|i: int| 0 <= i < attributes@.len() ==> #[trigger] r.1@[i] == offset_in(attributes@, i, attributes@.len() as int),
{
    let ghost s = attributes@;
    let n: usize = attributes.len();
    let mut stride: usize = 0;
    let mut k: usize = 0;
    while k < n
        invariant
            s == attributes@,
            n == s.len(),
            k <= n,
            size_sum(s, n as int) <= usize::MAX,
            stride == size_sum(s, k as int),
        decreases n - k,
    {
        proof {
            lemma_sums_grow(s, 0, (k + 1) as int, n as int);
        }
        stride = stride + attributes[k].1;
        k = k + 1;
    }
    let mut offsets: Vec<usize> = Vec::new();
    let mut i: usize = 0;
    while i < n
        invariant
            s == attributes@,
            n == s.len(),
            i <= n,
            size_sum(s, n as int) <= usize::MAX,
            offsets@.len() == i,
            forall|a: int| 0 <= a < i ==> #[trigger] offsets@[a] == offset_in(s, a, n as int),
        decreases n - i,
    {
        let mut offset: usize = 0;
        let mut j: usize = 0;
        while j < n
            invariant
                s == attributes@,
                n == s.len(),
                i < n,
                j <= n,
                size_sum(s, n as int) <= usize::MAX,
                offset == offset_in(s, i as int, j as int),
            decreases n - j,
        {
            proof {
                lemma_sums_grow(s, i as int, (j + 1) as int, n as int);
            }
            let (ji, jsize) = attributes[j];
            let (ii, _) = attributes[i];
            if ji < ii || (ji == ii && j < i) {
                offset = offset + jsize;
            }
            j = j + 1;
        }
        offsets.push(offset);
        i = i + 1;
    }
    (stride, offsets)
}

/// Buffers of different kinds are bound to different OpenGL targets; what a buffer holds
/// does not change its target.
pub proof fn law_buffer_target_injective<T, A>(a: BufferType<T, A>, b: BufferType<T, A>)
    requires
        a.spec_gl() == b.spec_gl(),
    ensures
        a is Vertex <==> b is Vertex,
        a is Index <==> b is Index,
        a is CopyRead <==> b is CopyRead,
        a is CopyWrite <==> b is CopyWrite,
        a is PixelUnpack <==> b is PixelUnpack,
        a is PixelPack <==> b is PixelPack,
        a is Query <==> b is Query,
        a is Texture <==> b is Texture,
        a is TransformFeedback <==> b is TransformFeedback,
        a is Uniform <==> b is Uniform,
        a is DrawIndirect <==> b is DrawIndirect,
        a is AtomicCounter <==> b is AtomicCounter,
        a is DispatchIndirect <==> b is DispatchIndirect,
        a is ShaderStorage <==> b is ShaderStorage,
{
}

/// An integer type that index buffers are made of.
pub trait IndexType: Sized {
    /// Whether `add(size)` stays in range.
    spec fn can_add(self, size: usize) -> bool;

    /// The index moved by `size`.
    spec fn moved_by(self, size: usize) -> Self;

    fn add(self, size: usize) -> (r: Self)
        requires
            self.can_add(size),
        ensures
            r == self.moved_by(size),
    ;
}

impl IndexType for u16 {
    /// The displacement is taken modulo 2^16, and the sum must fit in a `u16`.
    open spec fn can_add(self, size: usize) -> bool {
        self + size % 0x1_0000 <= u16::MAX
    }

    open spec fn moved_by(self, size: usize) -> u16 {
        (self + size % 0x1_0000) as u16
    }

    fn add(self, size: usize) -> (r: u16) {
        let s: u16 = #[verifier::truncate] (size as u16);
        assert(s == size % 0x1_0000) by (bit_vector)
            requires
                s == #[verifier::truncate] (size as u16),
        ;
        self + s
    }
}

impl IndexType for u32 {
    /// The displacement is taken modulo 2^32, and the sum must fit in a `u32`.
    open spec fn can_add(self, size: usize) -> bool {
        self + (size as int) % 0x1_0000_0000int <= u32::MAX
    }

    open spec fn moved_by(self, size: usize) -> u32 {
        (self + (size as int) % 0x1_0000_0000int) as u32
    }

    fn add(self, size: usize) -> (r: u32) {
        let s: u32 = #[verifier::truncate] (size as u32);
        assert((s as u64) == (size as u64) % 0x1_0000_0000u64) by (bit_vector)
            requires
                s == #[verifier::truncate] (size as u32),
        ;
        self + s
    }
}

/// Whether every index of every copy stays in range.
pub open spec fn index_data_fits<T: IndexType>(base_order: Seq<T>, element_size: usize, elements: usize) -> bool {
    &&& (elements - 1) * element_size <= usize::MAX
    &&& elements * base_order.len() <= usize::MAX
    &&& forall|i: int, j: int| 0 <= i < elements && 0 <= j < base_order.len()
        ==> #[trigger] base_order[j].can_add((i * element_size) as usize)
}

/// Builds the index data for `elements` copies of a primitive whose vertices are
/// numbered by `base_order`, each copy taking `element_size` vertices.
pub fn generate_index<T: IndexType + Copy>(base_order: &[T], element_size: usize, elements: usize) -> (r: Vec<T>)
    requires
        index_data_fits(base_order@, element_size, elements),
    ensures
        r@.len() == elements * base_order@.len(),
        forall|i: int, j: int| 0 <= i < elements && 0 <= j < base_order@.len()
            ==> #[trigger] r@[i * base_order@.len() + j] == base_order@[j].moved_by((i * element_size) as usize),
{
    let mut data: Vec<T> = Vec::new();
    let n: usize = base_order.len();
    let mut i: usize = 0;
    while i < elements
        invariant
            n == base_order@.len(),
            i <= elements,
            index_data_fits(base_order@, element_size, elements),
            data@.len() == i * n,
            forall|a: int, j: int| 0 <= a < i && 0 <= j < n
                ==> #[trigger] data@[a * n + j] == base_order@[j].moved_by((a * element_size) as usize),
        decreases elements - i,
    {
        assert(i * element_size <= (elements - 1) * element_size) by (nonlinear_arith)
            requires
                i < elements,
        ;
        let offset: usize = i * element_size;
        let ghost before = data@;
        let mut j: usize = 0;
        while j < n
            invariant
                n == base_order@.len(),
                i < elements,
                j <= n,
                offset == i * element_size,
                index_data_fits(base_order@, element_size, elements),
                before.len() == i * n,
                data@.len() == i * n + j,
                forall|k: int| 0 <= k < i * n ==> data@[k] == before[k],
                forall|b: int| 0 <= b < j ==> #[trigger] data@[i * n + b] == base_order@[b].moved_by(offset),
            decreases n - j,
        {
            let index: T = base_order[j];
            assert(base_order@[j as int].can_add((i * element_size) as usize));
            data.push(index.add(offset));
            j = j + 1;
        }
        proof {
            assert((i + 1) * n == i * n + n) by (nonlinear_arith);
            assert forall|a: int, b: int| 0 <= a < i + 1 && 0 <= b < n
                implies #[trigger] data@[a * n + b] == base_order@[b].moved_by((a * element_size) as usize) by {
                if a < i {
                    assert(a * n + b < i * n) by (nonlinear_arith)
                        requires
                            a < i,
                            b < n,
                    ;
                    assert(data@[a * n + b] == before[a * n + b]);
                }
            }
        }
        i = i + 1;
    }
    data
}

} // verus!
