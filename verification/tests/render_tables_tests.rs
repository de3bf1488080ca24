use rustaria::buffer::{element_count, generate_index, get_usage_enum, update_range, vertex_layout, BufferAccess, BufferType, BufferUsage, DrawMode, IndexType};
use rustaria::gl;
use rustaria::program::ShaderType;
use rustaria::texture::{FilterType, InternalFormat, Sampler2d, TextureDataFormat, TextureMagFilter, TextureMinFilter, TextureWrap, WrapType};

#[test]
fn draw_modes() {
    assert_eq!(DrawMode::Point.get_gl(), 0x0000);
    assert_eq!(DrawMode::Triangle.get_gl(), 0x0004);
    assert_eq!(DrawMode::Line.get_gl(), 0x0001);
    assert_eq!(DrawMode::TriangleAdjacency.get_gl(), 0x000C);
    assert_eq!(DrawMode::Patches.get_gl(), 0x000E);
}

#[test]
fn usage_enums() {
    assert_eq!(get_usage_enum(BufferUsage::Static, BufferAccess::Draw), 0x88E4);
    assert_eq!(get_usage_enum(BufferUsage::Stream, BufferAccess::Read), 0x88E1);
    assert_eq!(get_usage_enum(BufferUsage::Dynamic, BufferAccess::Copy), 0x88EA);
}

#[test]
fn usage_enums_are_distinct() {
    let usages = || [BufferUsage::Stream, BufferUsage::Static, BufferUsage::Dynamic];
    let accesses = || [BufferAccess::Draw, BufferAccess::Read, BufferAccess::Copy];
    let mut all = Vec::new();
    for u in usages() {
        for a in accesses() {
            let _ = &u;
            all.push(get_usage_enum(match u { BufferUsage::Stream => BufferUsage::Stream, BufferUsage::Static => BufferUsage::Static, BufferUsage::Dynamic => BufferUsage::Dynamic }, a));
        }
    }
    let mut sorted = all.clone();
    sorted.sort();
    sorted.dedup();
    assert_eq!(sorted.len(), 9);
}

#[test]
fn shader_types() {
    assert_eq!(ShaderType::Vertex.get_gl(), gl::VERTEX_SHADER);
    assert_eq!(ShaderType::Fragment.get_gl(), 0x8B30);
    assert_eq!(ShaderType::Compute.get_gl(), 0x91B9);
}

#[test]
fn texture_enums() {
    assert_eq!(InternalFormat::Rgba.to_gl(), 0x1908);
    assert_eq!(TextureDataFormat::Bgra.to_gl(), 0x80E1);
    assert_eq!(WrapType::ClampToEdge.to_gl(), 0x812F);
    assert_eq!(FilterType::Linear.to_gl(), 0x2601);
    assert_eq!(TextureMinFilter::Basic(FilterType::Nearest).to_gl(), 0x2600);
    assert_eq!(TextureMinFilter::Mipmap(FilterType::Nearest, FilterType::Linear).to_gl(), 0x2702);
    assert_eq!(TextureMinFilter::Mipmap(FilterType::Linear, FilterType::Nearest).to_gl(), 0x2701);
    assert_eq!(TextureMagFilter(FilterType::Nearest).to_gl(), 0x2600);
    assert_eq!(Sampler2d::gl_enum(), 0x8B5E);
}

#[test]
fn texture_defaults() {
    assert!(matches!(WrapType::default(), WrapType::Repeat));
    let w = TextureWrap::default();
    assert_eq!(w.x.to_gl(), gl::REPEAT);
    assert_eq!(w.y.to_gl(), gl::REPEAT);
    assert_eq!(w.z.to_gl(), gl::REPEAT);
    assert_eq!(TextureMinFilter::default().to_gl(), gl::NEAREST_MIPMAP_LINEAR);
    assert_eq!(TextureMagFilter::default().to_gl(), gl::LINEAR);
    assert_eq!(Sampler2d::default().unit, 0);
}

#[test]
fn u16_index_add() {
    assert_eq!(7u16.add(3), 10);
    assert_eq!(7u16.add(65536 + 3), 10);
    assert_eq!(65530u16.add(5), 65535);
}

#[test]
fn quad_index_data() {
    let data = generate_index(&[0u16, 1, 3, 1, 2, 3], 4, 3);
    assert_eq!(data, vec![0, 1, 3, 1, 2, 3, 4, 5, 7, 5, 6, 7, 8, 9, 11, 9, 10, 11]);
}

#[test]
fn index_data_edge_cases() {
    assert!(generate_index(&[0u16, 1, 2], 3, 0).is_empty());
    assert!(generate_index::<u16>(&[], 3, 5).is_empty());
    assert_eq!(generate_index(&[2u16], 0, 3), vec![2, 2, 2]);
}

#[test]
fn buffer_types_map_to_gl_targets() {
    let vertex: BufferType<u32, u8> = BufferType::Vertex(vec![1, 2]);
    assert_eq!(vertex.get_gl(), 0x8892);
    let index: BufferType<u32, u8> = BufferType::Index(vec![0, 1, 3]);
    assert_eq!(index.get_gl(), 0x8893);
    assert_eq!(BufferType::<u16, u8>::Uniform.get_gl(), 0x8A11);
    assert_eq!(BufferType::<u16, u8>::ShaderStorage.get_gl(), 0x90D2);
    assert_eq!(BufferType::<u16, u8>::PixelPack.get_gl(), 0x88EB);
}

#[test]
fn buffer_size_counts_whole_elements() {
    assert_eq!(element_count(24, 4), 6);
    assert_eq!(element_count(26, 4), 6);
    assert_eq!(element_count(0, 16), 0);
}

#[test]
fn update_must_stay_inside_the_buffer() {
    assert_eq!(update_range(2, 3, 4, 20), Some((8, 12)));
    assert_eq!(update_range(2, 4, 4, 20), None);
    assert_eq!(update_range(0, 0, 8, 0), Some((0, 0)));
}

#[test]
fn attributes_are_laid_out_by_index() {
    // index 1: 8 bytes (position), index 0: 4 bytes (color), index 2: 8 bytes (uv)
    let (stride, offsets) = vertex_layout(&vec![(1, 8), (0, 4), (2, 8)]);
    assert_eq!(stride, 20);
    assert_eq!(offsets, vec![4, 0, 12]);
    // equal indices keep their given order
    let (stride, offsets) = vertex_layout(&vec![(0, 4), (0, 2)]);
    assert_eq!(stride, 6);
    assert_eq!(offsets, vec![0, 4]);
    assert_eq!(vertex_layout(&vec![]), (0, vec![]));
}
