//! Gathering the shaders of a GFD file: each shader header block must be
//! followed by its program block; other blocks are passed over.

use vstd::prelude::*;
use crate::bytes::be_words;
use crate::gfd::{
    spec_blocks_from, BlockView, Gfd, ParseError, Type, HEADER_SIZE, PIXEL_SHADER_SIZE,
    VERTEX_SHADER_SIZE,
};
use crate::init::{
    pixel_shader, spec_pixel_shader, spec_vertex_shader, vertex_shader, DescribeError,
    PixelShaderInit, PixelShaderInitView, VertexShaderInit, VertexShaderInitView,
};

verus! {

/// Why the shaders of a file cannot be gathered.
#[derive(Clone, Copy, Debug, PartialEq, Eq, Structural)]
pub enum GatherError {
    /// The file is not a GFD file that can be read.
    Parse(ParseError),
    /// A vertex shader header is the last block.
    MissingVertexProgram,
    /// A vertex shader header is followed by a block of this other type.
    UnexpectedVertexProgram(Type),
    /// A vertex shader header's payload is shorter than a vertex shader.
    ShortVertexHeader,
    /// A vertex shader's initialiser cannot be made.
    VertexShader(DescribeError),
    /// A pixel shader header is the last block.
    MissingPixelProgram,
    /// A pixel shader header is followed by a block of this other type.
    UnexpectedPixelProgram(Type),
    /// A pixel shader header's payload is shorter than a pixel shader.
    ShortPixelHeader,
    /// A pixel shader's initialiser cannot be made.
    PixelShader(DescribeError),
}

/// The shaders of a file: the initialisers of its vertex shaders and of its pixel
/// shaders, each in file order.
pub struct Shaders {
    pub vertex: Vec<VertexShaderInit>,
    pub pixel: Vec<PixelShaderInit>,
}

/// The gathered shaders as mathematical values.
pub struct ShadersView {
    pub vertex: Seq<VertexShaderInitView>,
    pub pixel: Seq<PixelShaderInitView>,
}

impl View for Shaders {
    type V = ShadersView;

    open spec fn view(&self) -> ShadersView {
        ShadersView {
            vertex: Seq::new(self.vertex@.len(), |i: int| self.vertex@[i]@),
            pixel: Seq::new(self.pixel@.len(), |i: int| self.pixel@[i]@),
        }
    }
}

/// The initialiser of the vertex shader whose header is block `i`: the header
/// must be followed by a vertex program block, and its payload must hold a whole
/// vertex shader.
pub open spec fn spec_vertex_at(bs: Seq<BlockView>, i: int) -> Result<VertexShaderInitView, GatherError> {
    if i + 1 >= bs.len() {
        Err(GatherError::MissingVertexProgram)
    } else if bs[i + 1].kind != Type::VertexShaderProgram {
        Err(GatherError::UnexpectedVertexProgram(bs[i + 1].kind))
    } else if bs[i].data.len() < VERTEX_SHADER_SIZE {
        Err(GatherError::ShortVertexHeader)
    } else {
        match spec_vertex_shader(be_words(bs[i].data, 0, 77), bs[i].data, bs[i + 1].data) {
            Err(e) => Err(GatherError::VertexShader(e)),
            Ok(v) => Ok(v),
        }
    }
}

/// The initialiser of the pixel shader whose header is block `i`: the header must
/// be followed by a pixel program block, and its payload must hold a whole pixel
/// shader.
pub open spec fn spec_pixel_at(bs: Seq<BlockView>, i: int) -> Result<PixelShaderInitView, GatherError> {
    if i + 1 >= bs.len() {
        Err(GatherError::MissingPixelProgram)
    } else if bs[i + 1].kind != Type::PixelShaderProgram {
        Err(GatherError::UnexpectedPixelProgram(bs[i + 1].kind))
    } else if bs[i].data.len() < PIXEL_SHADER_SIZE {
        Err(GatherError::ShortPixelHeader)
    } else {
        match spec_pixel_shader(be_words(bs[i].data, 0, 58), bs[i + 1].data) {
            Err(e) => Err(GatherError::PixelShader(e)),
            Ok(v) => Ok(v),
        }
    }
}

/// The shaders of the blocks from index `i` on. A shader header and the program
/// block after it are taken together; every other block is passed over.
pub open spec fn spec_collect(bs: Seq<BlockView>, i: int) -> Result<ShadersView, GatherError>
    decreases bs.len() - i,
{
    if i < 0 || i >= bs.len() {
        Ok(ShadersView { vertex: seq![], pixel: seq![] })
    } else if bs[i].kind == Type::VertexShaderHeader {
        match spec_vertex_at(bs, i) {
            Err(e) => Err(e),
            Ok(v) => match spec_collect(bs, i + 2) {
                Ok(rest) => Ok(ShadersView { vertex: seq![v] + rest.vertex, pixel: rest.pixel }),
                Err(e) => Err(e),
            },
        }
    } else if bs[i].kind == Type::PixelShaderHeader {
        match spec_pixel_at(bs, i) {
            Err(e) => Err(e),
            Ok(v) => match spec_collect(bs, i + 2) {
                Ok(rest) => Ok(ShadersView { vertex: rest.vertex, pixel: seq![v] + rest.pixel }),
                Err(e) => Err(e),
            },
        }
    } else {
        spec_collect(bs, i + 1)
    }
}

/// Makes the initialiser of the vertex shader whose header is block `i`.
fn vertex_at(gfd: &Gfd, i: usize) -> (r: Result<VertexShaderInit, GatherError>)
    requires
        i < gfd.blocks@.len(),
        gfd.blocks@[i as int].kind == Type::VertexShaderHeader,
    ensures
        match r {
            Ok(v) => spec_vertex_at(gfd.blocks_view(), i as int) == Ok::<VertexShaderInitView, GatherError>(v@),
            Err(e) => spec_vertex_at(gfd.blocks_view(), i as int) == Err::<VertexShaderInitView, GatherError>(e),
        },
{
    let ghost bs = gfd.blocks_view();
    let b = &gfd.blocks[i];
    assert(b@ == bs[i as int]);
    if i >= gfd.blocks.len() - 1 {
        return Err(GatherError::MissingVertexProgram);
    }
    let p = &gfd.blocks[i + 1];
    assert(p@ == bs[i + 1]);
    if p.kind != Type::VertexShaderProgram {
        return Err(GatherError::UnexpectedVertexProgram(p.kind));
    }
    if b.data.len() < VERTEX_SHADER_SIZE {
        return Err(GatherError::ShortVertexHeader);
    }
    let vs = match b.vertex_shader() {
        Some(v) => v,
        None => return Err(GatherError::ShortVertexHeader),
    };
    match vertex_shader(&vs, b.data.as_slice(), p.data.as_slice()) {
        Ok(v) => Ok(v),
        Err(e) => Err(GatherError::VertexShader(e)),
    }
}

/// Makes the initialiser of the pixel shader whose header is block `i`.
fn pixel_at(gfd: &Gfd, i: usize) -> (r: Result<PixelShaderInit, GatherError>)
    requires
        i < gfd.blocks@.len(),
        gfd.blocks@[i as int].kind == Type::PixelShaderHeader,
    ensures
        match r {
            Ok(v) => spec_pixel_at(gfd.blocks_view(), i as int) == Ok::<PixelShaderInitView, GatherError>(v@),
            Err(e) => spec_pixel_at(gfd.blocks_view(), i as int) == Err::<PixelShaderInitView, GatherError>(e),
        },
{
    let ghost bs = gfd.blocks_view();
    let b = &gfd.blocks[i];
    assert(b@ == bs[i as int]);
    if i >= gfd.blocks.len() - 1 {
        return Err(GatherError::MissingPixelProgram);
    }
    let p = &gfd.blocks[i + 1];
    assert(p@ == bs[i + 1]);
    if p.kind != Type::PixelShaderProgram {
        return Err(GatherError::UnexpectedPixelProgram(p.kind));
    }
    if b.data.len() < PIXEL_SHADER_SIZE {
        return Err(GatherError::ShortPixelHeader);
    }
    let ps = match b.pixel_shader() {
        Some(v) => v,
        None => return Err(GatherError::ShortPixelHeader),
    };
    match pixel_shader(&ps, p.data.as_slice()) {
        Ok(v) => Ok(v),
        Err(e) => Err(GatherError::PixelShader(e)),
    }
}

/// The shaders gathered so far followed by those that `rest` holds, or the error
/// of `rest`.
pub open spec fn prepend_shaders(
    vertex: Seq<VertexShaderInitView>,
    pixel: Seq<PixelShaderInitView>,
    rest: Result<
    ShadersView,
    GatherError,
>) -> Result<ShadersView, GatherError> {
    match rest {
        Ok(r) => Ok(ShadersView { vertex: vertex + r.vertex, pixel: pixel + r.pixel }),
        Err(e) => Err(e),
    }
}

/// The view of gathered shaders, or the error.
pub open spec fn shaders_view(r: Result<Shaders, GatherError>) -> Result<ShadersView, GatherError> {
    match r {
        Ok(s) => Ok(s@),
        Err(e) => Err(e),
    }
}

/// Gathers the shaders of a read GFD file.
pub fn collect_shaders(gfd: &Gfd) -> (r: Result<Shaders, GatherError>)
    ensures
        shaders_view(r) == spec_collect(gfd.blocks_view(), 0),
{
    let ghost bs = gfd.blocks_view();
    let n = gfd.blocks.len();
    let mut vertex: Vec<VertexShaderInit> = Vec::new();
    let mut pixel: Vec<PixelShaderInit> = Vec::new();
    let mut i: usize = 0;
    while i < n
        invariant
            n == gfd.blocks@.len(),
            bs == gfd.blocks_view(),
            i <= n,
            spec_collect(bs, 0) == prepend_shaders(
                Seq::new(vertex@.len(), |k: int| vertex@[k]@),
                Seq::new(pixel@.len(), |k: int| pixel@[k]@),
                spec_collect(bs, i as int),
            ),
        decreases n - i,
    {
        let ghost vbefore = Seq::new(vertex@.len(), |k: int| vertex@[k]@);
        let ghost pbefore = Seq::new(pixel@.len(), |k: int| pixel@[k]@);
        let kind = gfd.blocks[i].kind;
        assert(kind == bs[i as int].kind);
        if kind == Type::VertexShaderHeader {
            let init = match vertex_at(gfd, i) {
                Ok(v) => v,
                Err(e) => return Err(e),
            };
            let ghost iv = init@;
            vertex.push(init);
            assert(Seq::new(vertex@.len(), |k: int| vertex@[k]@) =~= vbefore + seq![iv]);
            assert(vbefore + (seq![iv] + spec_collect(bs, i + 2)->Ok_0.vertex) =~= (vbefore + seq![iv])
                + spec_collect(bs, i + 2)->Ok_0.vertex);
            i = i + 2;
        } else if kind == Type::PixelShaderHeader {
            let init = match pixel_at(gfd, i) {
                Ok(v) => v,
                Err(e) => return Err(e),
            };
            let ghost iv = init@;
            pixel.push(init);
            assert(Seq::new(pixel@.len(), |k: int| pixel@[k]@) =~= pbefore + seq![iv]);
            assert(pbefore + (seq![iv] + spec_collect(bs, i + 2)->Ok_0.pixel) =~= (pbefore + seq![iv])
                + spec_collect(bs, i + 2)->Ok_0.pixel);
            i = i + 2;
        } else {
            i = i + 1;
        }
    }
    let ghost vdone = Seq::new(vertex@.len(), |k: int| vertex@[k]@);
    let ghost pdone = Seq::new(pixel@.len(), |k: int| pixel@[k]@);
    assert(vdone + seq![] =~= vdone);
    assert(pdone + seq![] =~= pdone);
    let s = Shaders { vertex, pixel };
    assert(s@.vertex =~= vdone);
    assert(s@.pixel =~= pdone);
    Ok(s)
}

/// The shaders of the GFD file `s`.
pub open spec fn spec_read_shaders(s: Seq<u8>) -> Result<ShadersView, GatherError> {
    match Gfd::spec_error(s) {
        Some(e) => Err(GatherError::Parse(e)),
        None => spec_collect(spec_blocks_from(s, HEADER_SIZE as int)->Ok_0, 0),
    }
}

/// Reads the GFD file `file` and gathers its shaders.
pub fn read_shaders(file: &[u8]) -> (r: Result<Shaders, GatherError>)
    ensures
        shaders_view(r) == spec_read_shaders(file@),
{
    match Gfd::read(file) {
        Err(e) => Err(GatherError::Parse(e)),
        Ok(gfd) => collect_shaders(&gfd),
    }
}

/// The number of blocks of kind `k` from index `i` on.
pub open spec fn count_kind(bs: Seq<BlockView>, i: int, k: Type) -> nat
    decreases bs.len() - i,
{
    if i < 0 || i >= bs.len() {
        0
    } else {
        (if bs[i].kind == k {
            1nat
        } else {
            0nat
        }) + count_kind(bs, i + 1, k)
    }
}

/// Where the shaders of blocks can be gathered, there is one vertex shader for
/// each vertex shader header and one pixel shader for each pixel shader header.
pub proof fn lemma_collect_counts(bs: Seq<BlockView>, i: int)
    requires
        0 <= i,
        spec_collect(bs, i) is Ok,
    ensures
        spec_collect(bs, i)->Ok_0.vertex.len() == count_kind(bs, i, Type::VertexShaderHeader),
        spec_collect(bs, i)->Ok_0.pixel.len() == count_kind(bs, i, Type::PixelShaderHeader),
    decreases bs.len() - i,
{
    if i < bs.len() {
        if bs[i].kind == Type::VertexShaderHeader || bs[i].kind == Type::PixelShaderHeader {
            lemma_collect_counts(bs, i + 2);
            assert(count_kind(bs, i + 1, Type::VertexShaderHeader) == count_kind(
                bs,
                i + 2,
                Type::VertexShaderHeader,
            ));
            assert(count_kind(bs, i + 1, Type::PixelShaderHeader) == count_kind(
                bs,
                i + 2,
                Type::PixelShaderHeader,
            ));
        } else {
            lemma_collect_counts(bs, i + 1);
        }
    }
}

/// Where the shaders of a GFD file can be gathered, there is one vertex shader
/// for each vertex shader header block of the file and one pixel shader for each
/// pixel shader header block.
pub proof fn lemma_read_shaders_counts(s: Seq<u8>)
    requires
        spec_read_shaders(s) is Ok,
    ensures
        spec_read_shaders(s)->Ok_0.vertex.len() == count_kind(
            spec_blocks_from(s, HEADER_SIZE as int)->Ok_0,
            0,
            Type::VertexShaderHeader,
        ),
        spec_read_shaders(s)->Ok_0.pixel.len() == count_kind(
            spec_blocks_from(s, HEADER_SIZE as int)->Ok_0,
            0,
            Type::PixelShaderHeader,
        ),
{
    lemma_collect_counts(spec_blocks_from(s, HEADER_SIZE as int)->Ok_0, 0);
}


/// Whether a block is neither a vertex shader header nor a pixel shader header.
pub open spec fn passed_over(b: BlockView) -> bool {
    b.kind != Type::VertexShaderHeader && b.kind != Type::PixelShaderHeader
}

/// Whether gathering, which takes a shader header together with the block after it
/// and every other block alone, comes from index `i` to index `k`.
pub open spec fn scan_reaches(bs: Seq<BlockView>, i: int, k: int) -> bool
    decreases k - i,
{
    if i >= k {
        i == k
    } else if !passed_over(bs[i]) {
        if i + 2 > k {
            false
        } else {
            scan_reaches(bs, i + 2, k)
        }
    } else {
        scan_reaches(bs, i + 1, k)
    }
}

/// Gathering from index `i` depends only on the blocks from `i` on.
proof fn lemma_collect_suffix(bs: Seq<BlockView>, i: int)
    requires
        0 <= i <= bs.len(),
    ensures
        spec_collect(bs, i) == spec_collect(bs.skip(i), 0),
    decreases bs.len() - i,
{
    let c = bs.skip(i);
    if i < bs.len() {
        assert(c[0] == bs[i]);
        if i + 1 < bs.len() {
            assert(c[1] == bs[i + 1]);
        }
        if !passed_over(bs[i]) {
            assert(spec_vertex_at(bs, i) == spec_vertex_at(c, 0));
            assert(spec_pixel_at(bs, i) == spec_pixel_at(c, 0));
            if i + 2 <= bs.len() {
                lemma_collect_suffix(bs, i + 2);
                lemma_collect_suffix(c, 2);
                assert(c.skip(2) =~= bs.skip(i + 2));
            }
        } else {
            lemma_collect_suffix(bs, i + 1);
            lemma_collect_suffix(c, 1);
            assert(c.skip(1) =~= bs.skip(i + 1));
        }
    }
}

/// Blocks that are passed over do not change what is gathered after them.
proof fn lemma_collect_passes_over(bs: Seq<BlockView>, p: int, m: int)
    requires
        0 <= p,
        0 <= m,
        p + m <= bs.len(),
        forall|j: int| p <= j < p + m ==> passed_over(#[trigger] bs[j]),
    ensures
        spec_collect(bs, p) == spec_collect(bs, p + m),
    decreases m,
{
    if m > 0 {
        assert(passed_over(bs[p]));
        lemma_collect_passes_over(bs, p + 1, m - 1);
    }
}

/// Inserting blocks that are passed over (padding, textures, other shader kinds,
/// program blocks on their own) where gathering goes from one header and program
/// pair, or one passed-over block, to the next leaves the gathered shaders, and
/// any error, unchanged.
pub proof fn lemma_collect_ignores_inserted(bs: Seq<BlockView>, fill: Seq<BlockView>, k: int)
    requires
        0 <= k <= bs.len(),
        scan_reaches(bs, 0, k),
        forall|j: int| 0 <= j < fill.len() ==> passed_over(#[trigger] fill[j]),
    ensures
        spec_collect(bs.take(k) + fill + bs.skip(k), 0) == spec_collect(bs, 0),
{
    lemma_collect_inserted_from(bs, fill, k, 0);
}

/// `lemma_collect_ignores_inserted`, for gathering from any index `i` from which
/// gathering comes to `k`.
proof fn lemma_collect_inserted_from(bs: Seq<BlockView>, fill: Seq<BlockView>, k: int, i: int)
    requires
        0 <= i <= k <= bs.len(),
        scan_reaches(bs, i, k),
        forall|j: int| 0 <= j < fill.len() ==> passed_over(#[trigger] fill[j]),
    ensures
        spec_collect(bs.take(k) + fill + bs.skip(k), i) == spec_collect(bs, i),
    decreases k - i,
{
    let ext = bs.take(k) + fill + bs.skip(k);
    let m = fill.len() as int;
    assert(ext.len() == bs.len() + m);
    if i == k {
        assert forall|j: int| k <= j < k + m implies passed_over(#[trigger] ext[j]) by {
            assert(ext[j] == fill[j - k]);
        }
        lemma_collect_passes_over(ext, k, m);
        lemma_collect_suffix(ext, k + m);
        lemma_collect_suffix(bs, k);
        assert(ext.skip(k + m) =~= bs.skip(k));
    } else {
        assert(ext[i] == bs[i]);
        if !passed_over(bs[i]) {
            assert(ext[i + 1] == bs[i + 1]);
            assert(spec_vertex_at(ext, i) == spec_vertex_at(bs, i));
            assert(spec_pixel_at(ext, i) == spec_pixel_at(bs, i));
            lemma_collect_inserted_from(bs, fill, k, i + 2);
        } else {
            lemma_collect_inserted_from(bs, fill, k, i + 1);
        }
    }
}


/// Two GFD files whose blocks differ only by blocks that are passed over,
/// inserted where gathering goes from one step to the next, give the same shaders
/// or the same error.
pub proof fn lemma_read_shaders_ignores_inserted(s: Seq<u8>, t: Seq<u8>, fill: Seq<BlockView>, k: int)
    requires
        Gfd::spec_error(s) is None,
        Gfd::spec_error(t) is None,
        0 <= k <= spec_blocks_from(s, HEADER_SIZE as int)->Ok_0.len(),
        scan_reaches(spec_blocks_from(s, HEADER_SIZE as int)->Ok_0, 0, k),
        forall|j: int| 0 <= j < fill.len() ==> passed_over(#[trigger] fill[j]),
        spec_blocks_from(t, HEADER_SIZE as int)->Ok_0 == spec_blocks_from(s, HEADER_SIZE as int)->Ok_0.take(
            k,
        ) + fill + spec_blocks_from(s, HEADER_SIZE as int)->Ok_0.skip(k),
    ensures
        spec_read_shaders(t) == spec_read_shaders(s),
{
    lemma_collect_ignores_inserted(spec_blocks_from(s, HEADER_SIZE as int)->Ok_0, fill, k);
}


/// The shaders of two runs of blocks, one after the other, or the first error.
pub open spec fn join_shaders(a: Result<ShadersView, GatherError>, b: Result<ShadersView, GatherError>) -> Result<
    ShadersView,
    GatherError,
> {
    match a {
        Err(e) => Err(e),
        Ok(x) => match b {
            Err(e) => Err(e),
            Ok(y) => Ok(ShadersView { vertex: x.vertex + y.vertex, pixel: x.pixel + y.pixel }),
        },
    }
}

/// Gathering keeps file order: where gathering goes from one step to the next at
/// index `k`, the shaders of all blocks are those of the blocks before `k`
/// followed by those of the blocks from `k` on, and the first error wins.
pub proof fn lemma_collect_split(bs: Seq<BlockView>, k: int)
    requires
        0 <= k <= bs.len(),
        scan_reaches(bs, 0, k),
    ensures
        spec_collect(bs, 0) == join_shaders(spec_collect(bs.take(k), 0), spec_collect(bs.skip(k), 0)),
{
    lemma_collect_split_from(bs, k, 0);
    lemma_collect_suffix(bs, k);
}

/// `lemma_collect_split`, for gathering from any index `i` from which gathering
/// comes to `k`.
proof fn lemma_collect_split_from(bs: Seq<BlockView>, k: int, i: int)
    requires
        0 <= i <= k <= bs.len(),
        scan_reaches(bs, i, k),
    ensures
        spec_collect(bs, i) == join_shaders(spec_collect(bs.take(k), i), spec_collect(bs, k)),
    decreases k - i,
{
    let t = bs.take(k);
    if i == k {
        if let Ok(y) = spec_collect(bs, k) {
            assert(Seq::<VertexShaderInitView>::empty() + y.vertex =~= y.vertex);
            assert(Seq::<PixelShaderInitView>::empty() + y.pixel =~= y.pixel);
        }
    } else {
        assert(t[i] == bs[i]);
        if !passed_over(bs[i]) {
            assert(t[i + 1] == bs[i + 1]);
            assert(spec_vertex_at(t, i) == spec_vertex_at(bs, i));
            assert(spec_pixel_at(t, i) == spec_pixel_at(bs, i));
            lemma_collect_split_from(bs, k, i + 2);
            if let Ok(c) = spec_collect(t, i + 2) {
                if let Ok(r) = spec_collect(bs, k) {
                    if let Ok(v) = spec_vertex_at(bs, i) {
                        assert(seq![v] + c.vertex + r.vertex =~= seq![v] + (c.vertex + r.vertex));
                    }
                    if let Ok(v) = spec_pixel_at(bs, i) {
                        assert(seq![v] + c.pixel + r.pixel =~= seq![v] + (c.pixel + r.pixel));
                    }
                }
            }
        } else {
            lemma_collect_split_from(bs, k, i + 1);
        }
    }
}

} // verus!
