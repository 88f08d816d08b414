//! What the map pipeline hands to the GPU: textured quads, draw parameters and
//! the layout of pixels.

use crate::binary::Binary32;
#[allow(unused_imports)]
use crate::data::rgba_len;
use vstd::prelude::*;

verus! {

/// A corner of a quad.
#[derive(Copy, Clone, Debug)]
pub struct TileVertex {
    /// NDC position: x and y from -1 to 1.
    pub position: [Binary32; 2],
    /// Texture UV: (0,0) = top-left, (1,1) = bottom-right.
    pub uv: [Binary32; 2],
}

/// Single-precision 0.
pub open spec fn zero() -> Binary32 {
    Binary32 { bits: 0 }
}

/// Single-precision 1.
pub open spec fn unit() -> Binary32 {
    Binary32 { bits: 0x3f80_0000 }
}

/// The texture coordinates of the corners, in the order top left, top right,
/// bottom left, bottom right.
pub open spec fn corner_uv(i: int) -> Seq<Binary32> {
    seq![
        if i % 2 == 1 {
            unit()
        } else {
            zero()
        },
        if i / 2 == 1 {
            unit()
        } else {
            zero()
        },
    ]
}

/// The corners of the two triangles of a quad: top left, top right, bottom
/// left, and top right, bottom right, bottom left.
pub open spec fn quad_indices() -> Seq<u16> {
    seq![0, 1, 2, 1, 3, 2]
}

/// Build the 4 vertices + 6 indices for a textured quad.
///
/// `corners` is `[TL, TR, BL, BR]` as NDC positions.
pub fn quad_vertices(corners: [[Binary32; 2]; 4]) -> (r: ([TileVertex; 4], [u16; 6]))
    ensures
        forall|i: int|
            0 <= i < 4 ==> (#[trigger] r.0@[i]).position == corners@[i] && r.0@[i].uv@ == corner_uv(
                i,
            ),
        r.1@ == quad_indices(),
        r.0@[0].uv@[0].bits == 0 && r.0@[0].uv@[1].bits == 0,
        r.0@[1].uv@[0].bits == 0x3f80_0000 && r.0@[1].uv@[1].bits == 0,
        r.0@[2].uv@[0].bits == 0 && r.0@[2].uv@[1].bits == 0x3f80_0000,
        r.0@[3].uv@[0].bits == 0x3f80_0000 && r.0@[3].uv@[1].bits == 0x3f80_0000,
        r.1@ == seq![0u16, 1, 2, 1, 3, 2],
{
    let zero = Binary32 { bits: 0 };
    let one = Binary32 { bits: 0x3f80_0000 };
    let vertices = [
        TileVertex { position: corners[0], uv: [zero, zero] },
        TileVertex { position: corners[1], uv: [one, zero] },
        TileVertex { position: corners[2], uv: [zero, one] },
        TileVertex { position: corners[3], uv: [one, one] },
    ];
    let indices: [u16; 6] = [0, 1, 2, 1, 3, 2];
    assert(vertices@[0].uv@ =~= corner_uv(0));
    assert(vertices@[1].uv@ =~= corner_uv(1));
    assert(vertices@[2].uv@ =~= corner_uv(2));
    assert(vertices@[3].uv@ =~= corner_uv(3));
    assert(indices@ =~= quad_indices());
    (vertices, indices)
}

/// The two triangles use every corner of the quad, and share the diagonal from
/// top right to bottom left.
pub proof fn triangles_tile_the_quad()
    ensures
        quad_indices().len() == 6,
        forall|i: int| 0 <= i < 6 ==> #[trigger] quad_indices()[i] < 4,
        forall|corner: u16| corner < 4 ==> #[trigger] quad_indices().contains(corner),
        quad_indices().take(3).to_set().intersect(quad_indices().skip(3).to_set()) == set![
            1u16,
            2u16,
        ],
{
    let q = quad_indices();
    assert(q[0] == 0 && q[1] == 1 && q[2] == 2 && q[3] == 1 && q[4] == 3 && q[5] == 2);
    assert forall|corner: u16| corner < 4 implies #[trigger] q.contains(corner) by {
        let i: int = if corner == 3 {
            4
        } else {
            corner as int
        };
        assert(q[i] == corner);
    }
    let (a, b) = (q.take(3), q.skip(3));
    assert(a[1] == 1 && a[2] == 2 && b[0] == 1 && b[2] == 2);
    assert(a.contains(1) && a.contains(2) && b.contains(1) && b.contains(2));
    assert(a.to_set().intersect(b.to_set()) =~= set![1u16, 2u16]);
}

/// The byte of weight `256^k` of a number.
pub open spec fn byte_of(n: int, k: int) -> u8 {
    if k == 0 {
        (n % 256) as u8
    } else if k == 1 {
        (n / 0x100 % 256) as u8
    } else if k == 2 {
        (n / 0x1_0000 % 256) as u8
    } else {
        (n / 0x100_0000 % 256) as u8
    }
}

/// The bytes of 32-bit words in memory, on a big-endian or a little-endian
/// machine.
pub open spec fn word_bytes(words: Seq<u32>, big: bool) -> Seq<u8> {
    Seq::new(
        4 * words.len(),
        |i: int| byte_of(
            words[i / 4] as int,
            if big {
                3 - i % 4
            } else {
                i % 4
            },
        ),
    )
}

/// The bytes of 16-bit words in memory, on a big-endian or a little-endian
/// machine.
pub open spec fn short_bytes(words: Seq<u16>, big: bool) -> Seq<u8> {
    Seq::new(
        2 * words.len(),
        |i: int| byte_of(
            words[i / 2] as int,
            if big {
                1 - i % 2
            } else {
                i % 2
            },
        ),
    )
}

/// `bytemuck::cast_slice` from 32-bit words to bytes: the words as they lie in
/// memory, in the byte order of the machine.
#[verifier::external_body]
fn cast_words(words: &[u32]) -> (r: Vec<u8>)
    ensures
        r@ == word_bytes(words@, true) || r@ == word_bytes(words@, false),
{
    bytemuck::cast_slice::<u32, u8>(words).to_vec()
}

/// `bytemuck::cast_slice` from 16-bit words to bytes: the words as they lie in
/// memory, in the byte order of the machine.
#[verifier::external_body]
fn cast_shorts(words: &[u16]) -> (r: Vec<u8>)
    ensures
        r@ == short_bytes(words@, true) || r@ == short_bytes(words@, false),
{
    bytemuck::cast_slice::<u16, u8>(words).to_vec()
}

/// The words of a vertex buffer: of each vertex the position, then the texture
/// coordinates.
pub open spec fn vertex_words(vertices: Seq<TileVertex>) -> Seq<u32> {
    Seq::new(
        4 * vertices.len(),
        |i: int| if i % 4 < 2 {
            vertices[i / 4].position@[i % 4].bits
        } else {
            vertices[i / 4].uv@[i % 4 - 2].bits
        },
    )
}

/// The contents of a vertex buffer.
pub fn vertex_buffer(vertices: &[TileVertex; 4]) -> (r: Vec<u8>)
    ensures
        r@ == word_bytes(vertex_words(vertices@), true) || r@ == word_bytes(
            vertex_words(vertices@),
            false,
        ),
{
    let mut words: Vec<u32> = Vec::new();
    for i in 0..4usize
        invariant
            words@.len() == 4 * i,
            forall|k: int| 0 <= k < words@.len() ==> #[trigger] words@[k] == vertex_words(vertices@)[k],
    {
        let v = vertices[i];
        words.push(v.position[0].bits);
        words.push(v.position[1].bits);
        words.push(v.uv[0].bits);
        words.push(v.uv[1].bits);
    }
    assert(words@ =~= vertex_words(vertices@));
    cast_words(words.as_slice())
}

/// The contents of an index buffer.
pub fn index_buffer(indices: &[u16; 6]) -> (r: Vec<u8>)
    ensures
        r@ == short_bytes(indices@, true) || r@ == short_bytes(indices@, false),
{
    cast_shorts(indices.as_slice())
}

/// The uniform parameters of a draw call.
#[derive(Copy, Clone, Debug)]
pub struct DrawParams {
    /// Alpha multiplier applied in the fragment shader.
    pub opacity: Binary32,
    /// Pad to the 16-byte alignment of uniform buffers.
    pub _pad: [Binary32; 3],
}

impl DrawParams {
    pub open spec fn words(self) -> Seq<u32> {
        seq![self.opacity.bits, self._pad@[0].bits, self._pad@[1].bits, self._pad@[2].bits]
    }
}

/// The parameters to draw with a given opacity.
pub fn draw_params(opacity: Binary32) -> (r: DrawParams)
    ensures
        r.words() == seq![opacity.bits, 0, 0, 0],
        r.opacity == opacity,
        r._pad@[0].bits == 0 && r._pad@[1].bits == 0 && r._pad@[2].bits == 0,
{
    let zero = Binary32 { bits: 0 };
    let r = DrawParams { opacity, _pad: [zero, zero, zero] };
    assert(r.words() =~= seq![opacity.bits, 0, 0, 0]);
    r
}

/// The contents of a parameter buffer.
pub fn params_buffer(params: &DrawParams) -> (r: Vec<u8>)
    ensures
        r@.len() == 16,
        r@ == word_bytes(params.words(), true) || r@ == word_bytes(params.words(), false),
{
    let words: [u32; 4] = [
        params.opacity.bits,
        params._pad[0].bits,
        params._pad[1].bits,
        params._pad[2].bits,
    ];
    assert(words@ =~= params.words());
    cast_words(words.as_slice())
}

/// How RGBA8 pixels lie in the memory that a texture is filled from.
#[derive(Copy, Clone, Debug, PartialEq, Eq, Structural)]
pub struct PixelLayout {
    pub bytes_per_row: u32,
    pub rows_per_image: u32,
}

/// The layout of a picture of RGBA8 pixels: its rows without gaps.
pub fn pixel_layout(width: u32, height: u32) -> (r: PixelLayout)
    requires
        4 * width <= u32::MAX,
    ensures
        r.bytes_per_row == 4 * width,
        r.rows_per_image == height,
        r.bytes_per_row * r.rows_per_image == rgba_len(width, height),
{
    assert((4 * width) * height == 4 * (width * height)) by (nonlinear_arith);
    PixelLayout { bytes_per_row: 4 * width, rows_per_image: height }
}

/// The texture's left and top edges are at 0 and its right and bottom edges at
/// 1: the corners come in the order top left, top right, bottom left, bottom
/// right.
pub proof fn corners_lie_at_the_edges(i: int)
    requires
        0 <= i < 4,
    ensures
        corner_uv(i).len() == 2,
        corner_uv(i)[0].bits == if i == 1 || i == 3 {
            0x3f80_0000u32
        } else {
            0
        },
        corner_uv(i)[1].bits == if i == 2 || i == 3 {
            0x3f80_0000u32
        } else {
            0
        },
{
}

/// In the memory of a little-endian machine the bytes of a word run from the
/// lowest to the highest, on a big-endian one from the highest to the lowest.
pub proof fn words_are_their_bytes(words: Seq<u32>, i: int)
    requires
        0 <= i < words.len(),
    ensures
        word_bytes(words, false).len() == 4 * words.len(),
        word_bytes(words, true).len() == 4 * words.len(),
        words[i] == word_bytes(words, false)[4 * i] + 0x100 * word_bytes(words, false)[4 * i + 1]
            + 0x1_0000 * word_bytes(words, false)[4 * i + 2] + 0x100_0000 * word_bytes(
            words,
            false,
        )[4 * i + 3],
        words[i] == 0x100_0000 * word_bytes(words, true)[4 * i] + 0x1_0000 * word_bytes(
            words,
            true,
        )[4 * i + 1] + 0x100 * word_bytes(words, true)[4 * i + 2] + word_bytes(words, true)[4 * i
            + 3],
{
}

/// The same of words of two bytes.
pub proof fn short_words_are_their_bytes(words: Seq<u16>, i: int)
    requires
        0 <= i < words.len(),
    ensures
        short_bytes(words, false).len() == 2 * words.len(),
        short_bytes(words, true).len() == 2 * words.len(),
        words[i] == short_bytes(words, false)[2 * i] + 0x100 * short_bytes(words, false)[2 * i + 1],
        words[i] == 0x100 * short_bytes(words, true)[2 * i] + short_bytes(words, true)[2 * i + 1],
{
}

/// A vertex takes four words: x and y of its place, then those of its texture.
pub proof fn vertices_are_four_words(vertices: Seq<TileVertex>, i: int)
    requires
        0 <= i < vertices.len(),
    ensures
        vertex_words(vertices).len() == 4 * vertices.len(),
        vertex_words(vertices)[4 * i] == vertices[i].position@[0].bits,
        vertex_words(vertices)[4 * i + 1] == vertices[i].position@[1].bits,
        vertex_words(vertices)[4 * i + 2] == vertices[i].uv@[0].bits,
        vertex_words(vertices)[4 * i + 3] == vertices[i].uv@[1].bits,
{
}

/// The parameters of a draw call take four words, of which the first is the
/// opacity.
pub proof fn parameters_are_four_words(params: DrawParams)
    ensures
        params.words().len() == 4,
        params.words()[0] == params.opacity.bits,
        params.words()[1] == params._pad@[0].bits,
        params.words()[2] == params._pad@[1].bits,
        params.words()[3] == params._pad@[2].bits,
{
}

} // verus!
