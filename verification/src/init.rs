//! The values from which the initialiser of a vertex shader is generated: the
//! register block split into its named registers, the shader mode, and the
//! uniform-block and attribute tables that the header points at.

use vstd::prelude::*;
use crate::bytes::{be_u32_at, c_str_at, copy_range, read_c_str, read_u32_be};
use crate::gfd::{has_room, Block, PixelShader, VertexShader};

verus! {

/// Positions of the words of a vertex shader header after its 52 registers.
pub open spec fn vs_word(w: Seq<u32>, field: int) -> u32 {
    w[52 + field]
}

impl VertexShader {
    /// Each named field is the word at its position in `words()`.
    pub proof fn lemma_words(&self)
        ensures
            self.words().len() == 77,
            self.words().subrange(0, 52) == self.regs@,
            vs_word(self.words(), 0) == self.shader_size,
            vs_word(self.words(), 1) == self.shader_ptr,
            vs_word(self.words(), 2) == self.shader_mode,
            vs_word(self.words(), 3) == self.num_uniform_blocks,
            vs_word(self.words(), 4) == self.uniform_blocks,
            vs_word(self.words(), 5) == self.num_uniforms,
            vs_word(self.words(), 6) == self.uniform_vars,
            vs_word(self.words(), 7) == self.num_initial_values,
            vs_word(self.words(), 8) == self.initial_values,
            vs_word(self.words(), 9) == self.num_loops,
            vs_word(self.words(), 10) == self.loop_vars,
            vs_word(self.words(), 11) == self.num_samplers,
            vs_word(self.words(), 12) == self.sampler_vars,
            vs_word(self.words(), 13) == self.num_attribs,
            vs_word(self.words(), 14) == self.attrib_vars,
            vs_word(self.words(), 15) == self.ring_itemsize,
            vs_word(self.words(), 16) == self.has_stream_output,
            self.words().subrange(69, 73) == self.stream_out_vertex_stride@,
            self.words().subrange(73, 77) == self.program@,
    {
        assert(self.words().subrange(0, 52) =~= self.regs@);
        assert(self.words().subrange(69, 73) =~= self.stream_out_vertex_stride@);
        assert(self.words().subrange(73, 77) =~= self.program@);
    }
}

/// How a shader takes its uniforms.
#[derive(Clone, Copy, Debug, PartialEq, Eq, Structural)]
pub enum ShaderMode {
    UniformRegister,
    UniformBlock,
    Geometry,
    Compute,
}

impl ShaderMode {
    /// The mode that a shader header's mode word stands for, if any.
    pub open spec fn spec_from_word(v: u32) -> Option<ShaderMode> {
        if v == 0 {
            Some(ShaderMode::UniformRegister)
        } else if v == 1 {
            Some(ShaderMode::UniformBlock)
        } else if v == 2 {
            Some(ShaderMode::Geometry)
        } else if v == 3 {
            Some(ShaderMode::Compute)
        } else {
            None
        }
    }
}

impl VertexShader {
    /// The mode of the shader. Its mode word must stand for one.
    pub fn shader_mode(&self) -> (m: ShaderMode)
        requires
            self.shader_mode < 4,
        ensures
            ShaderMode::spec_from_word(self.shader_mode) == Some(m),
    {
        match self.shader_mode {
            0 => ShaderMode::UniformRegister,
            1 => ShaderMode::UniformBlock,
            2 => ShaderMode::Geometry,
            _ => ShaderMode::Compute,
        }
    }
}

/// The registers of a vertex shader, under their names.
pub struct VertexShaderRegisters {
    pub sq_pgm_resources_vs: u32,
    pub vgt_primitiveid_en: u32,
    pub spi_vs_out_config: u32,
    pub num_spi_vs_out_id: u32,
    pub spi_vs_out_id: [u32; 10],
    pub pa_cl_vs_out_cntl: u32,
    pub sq_vtx_semantic_clear: u32,
    pub num_sq_vtx_semantic: u32,
    pub sq_vtx_semantic: [u32; 32],
    pub vgt_strmout_buffer_en: u32,
    pub vgt_vertex_reuse_block_cntl: u32,
    pub vgt_hos_reuse_depth: u32,
}

impl VertexShaderRegisters {
    /// The registers in the order in which a shader header stores them.
    pub open spec fn words(&self) -> Seq<u32> {
        seq![
            self.sq_pgm_resources_vs,
            self.vgt_primitiveid_en,
            self.spi_vs_out_config,
            self.num_spi_vs_out_id,
        ] + self.spi_vs_out_id@ + seq![
            self.pa_cl_vs_out_cntl,
            self.sq_vtx_semantic_clear,
            self.num_sq_vtx_semantic,
        ] + self.sq_vtx_semantic@ + seq![
            self.vgt_strmout_buffer_en,
            self.vgt_vertex_reuse_block_cntl,
            self.vgt_hos_reuse_depth,
        ]
    }
}

/// Copies the `N` words of `src` that start at `off`.
fn sub_array<const N: usize>(src: &[u32], off: usize) -> (a: [u32; N])
    requires
        off + N <= src@.len(),
    ensures
        a@ == src@.subrange(off as int, off + N),
{
    let mut a: [u32; N] = [0u32; N];
    let mut i: usize = 0;
    let len = src.len();
    while i < N
        invariant
            i <= N,
            len == src@.len(),
            off + N <= src@.len(),
            forall|j: int| 0 <= j < i ==> a@[j] == src@[off + j],
        decreases N - i,
    {
        a[i] = src[off + i];
        i = i + 1;
    }
    assert(a@ =~= src@.subrange(off as int, off + N));
    a
}

impl VertexShader {
    /// The registers under their names: register `k` of the header is the `k`-th
    /// register in that order.
    pub fn regs(&self) -> (r: VertexShaderRegisters)
        ensures
            r.words() == self.regs@,
    {
        let regs = self.regs.as_slice();
        let r = VertexShaderRegisters {
            sq_pgm_resources_vs: self.regs[0],
            vgt_primitiveid_en: self.regs[1],
            spi_vs_out_config: self.regs[2],
            num_spi_vs_out_id: self.regs[3],
            spi_vs_out_id: sub_array(regs, 4),
            pa_cl_vs_out_cntl: self.regs[14],
            sq_vtx_semantic_clear: self.regs[15],
            num_sq_vtx_semantic: self.regs[16],
            sq_vtx_semantic: sub_array(regs, 17),
            vgt_strmout_buffer_en: self.regs[49],
            vgt_vertex_reuse_block_cntl: self.regs[50],
            vgt_hos_reuse_depth: self.regs[51],
        };
        assert(r.words() =~= self.regs@);
        r
    }

    /// The stream-output flag as the signed word the initialiser holds.
    pub fn has_stream_output(&self) -> (r: i32)
        ensures
            r == self.has_stream_output as i32,
    {
        self.has_stream_output as i32
    }
}

/// Where in a header block's payload an address of the data section points.
pub open spec fn data_offset(a: u32) -> int {
    (a & !Block::DATA) as int
}

/// Where in a header block's payload an address of the text section points.
pub open spec fn text_offset(a: u32) -> int {
    (a & !Block::TEXT) as int
}

/// Why a table that a shader header points at cannot be read from the payload.
#[derive(Clone, Copy, Debug, PartialEq, Eq, Structural)]
pub enum TableError {
    /// The table starts or ends beyond the payload.
    TableOutOfBounds,
    /// A name of an entry starts beyond the payload.
    NameOutOfBounds,
}

/// A name address can be followed: it is null, or it points into the payload.
pub open spec fn name_in_bounds(s: Seq<u8>, name: u32) -> bool {
    name == 0 || text_offset(name) <= s.len()
}

/// The name a name address stands for: none for the null address, else the
/// NUL-terminated string it points at.
pub open spec fn spec_name(s: Seq<u8>, name: u32) -> Option<Seq<u8>> {
    if name == 0 {
        None
    } else {
        Some(c_str_at(s, text_offset(name)))
    }
}

/// Reads the name that a name address stands for; the address must be followable.
fn read_name(data: &[u8], name: u32) -> (r: Option<Vec<u8>>)
    requires
        name_in_bounds(data@, name),
    ensures
        match r {
            Some(v) => spec_name(data@, name) == Some(v@),
            None => spec_name(data@, name) is None,
        },
{
    if name == 0 {
        None
    } else {
        Some(read_c_str(data, (name & !Block::TEXT) as usize))
    }
}

/// Whether a table of `n` entries of `entry` bytes each fits in the payload from
/// `base` on.
fn table_fits(data: &[u8], base: usize, n: u32, entry: u64) -> (b: bool)
    requires
        entry <= 16,
        base <= u32::MAX,
    ensures
        b == (base + entry * n <= data@.len()),
{
    assert(entry * n <= 16 * 0xFFFF_FFFF) by (nonlinear_arith)
        requires
            entry <= 16,
            n <= 0xFFFF_FFFF,
    ;
    (base as u64) + entry * (n as u64) <= data.len() as u64
}

/// An entry of a uniform-block table.
pub struct UniformBlockInit {
    pub name: Option<Vec<u8>>,
    pub location: u32,
    pub size: u32,
}

/// An entry of a uniform-block table as a mathematical value.
pub struct UniformBlockInitView {
    pub name: Option<Seq<u8>>,
    pub location: u32,
    pub size: u32,
}

impl View for UniformBlockInit {
    type V = UniformBlockInitView;

    open spec fn view(&self) -> UniformBlockInitView {
        UniformBlockInitView {
            name: match self.name {
                Some(v) => Some(v@),
                None => None,
            },
            location: self.location,
            size: self.size,
        }
    }
}

/// The `i`-th entry of the uniform-block table that starts at `base`.
pub open spec fn spec_uniform_block(s: Seq<u8>, base: int, i: int) -> UniformBlockInitView {
    UniformBlockInitView {
        name: spec_name(s, be_u32_at(s, base + 12 * i)),
        location: be_u32_at(s, base + 12 * i + 4),
        size: be_u32_at(s, base + 12 * i + 8),
    }
}

/// The uniform-block table at address `ptr` with `n` entries: none for the null
/// address, else its entries in order.
pub open spec fn spec_uniform_blocks(s: Seq<u8>, ptr: u32, n: u32) -> Result<
    Option<Seq<UniformBlockInitView>>,
    TableError,
> {
    if ptr == 0 {
        Ok(None)
    } else if data_offset(ptr) + 12 * n > s.len() {
        Err(TableError::TableOutOfBounds)
    } else if exists|i: int|
        0 <= i < n && !name_in_bounds(s, #[trigger] be_u32_at(s, data_offset(ptr) + 12 * i)) {
        Err(TableError::NameOutOfBounds)
    } else {
        Ok(Some(Seq::new(n as nat, |i: int| spec_uniform_block(s, data_offset(ptr), i))))
    }
}

/// An entry of an attribute table.
pub struct AttribVarInit {
    pub name: Option<Vec<u8>>,
    pub kind: u32,
    pub array_count: u32,
    pub location: u32,
}

/// An entry of an attribute table as a mathematical value.
pub struct AttribVarInitView {
    pub name: Option<Seq<u8>>,
    pub kind: u32,
    pub array_count: u32,
    pub location: u32,
}

impl View for AttribVarInit {
    type V = AttribVarInitView;

    open spec fn view(&self) -> AttribVarInitView {
        AttribVarInitView {
            name: match self.name {
                Some(v) => Some(v@),
                None => None,
            },
            kind: self.kind,
            array_count: self.array_count,
            location: self.location,
        }
    }
}

/// The `i`-th entry of the attribute table that starts at `base`.
pub open spec fn spec_attrib_var(s: Seq<u8>, base: int, i: int) -> AttribVarInitView {
    AttribVarInitView {
        name: spec_name(s, be_u32_at(s, base + 16 * i)),
        kind: be_u32_at(s, base + 16 * i + 4),
        array_count: be_u32_at(s, base + 16 * i + 8),
        location: be_u32_at(s, base + 16 * i + 12),
    }
}

/// The attribute table at address `ptr` with `n` entries: none where there are
/// no attributes, else its entries in order.
pub open spec fn spec_attrib_vars(s: Seq<u8>, ptr: u32, n: u32) -> Result<
    Option<Seq<AttribVarInitView>>,
    TableError,
> {
    if n == 0 {
        Ok(None)
    } else if data_offset(ptr) + 16 * n > s.len() {
        Err(TableError::TableOutOfBounds)
    } else if exists|i: int|
        0 <= i < n && !name_in_bounds(s, #[trigger] be_u32_at(s, data_offset(ptr) + 16 * i)) {
        Err(TableError::NameOutOfBounds)
    } else {
        Ok(Some(Seq::new(n as nat, |i: int| spec_attrib_var(s, data_offset(ptr), i))))
    }
}

/// The views of the entries of a table.
pub open spec fn uniform_blocks_view(r: Result<Option<Vec<UniformBlockInit>>, TableError>) -> Result<
    Option<Seq<UniformBlockInitView>>,
    TableError,
> {
    match r {
        Ok(Some(v)) => Ok(Some(Seq::new(v@.len(), |i: int| v@[i]@))),
        Ok(None) => Ok(None),
        Err(e) => Err(e),
    }
}

/// The views of the entries of a table.
pub open spec fn attrib_vars_view(r: Result<Option<Vec<AttribVarInit>>, TableError>) -> Result<
    Option<Seq<AttribVarInitView>>,
    TableError,
> {
    match r {
        Ok(Some(v)) => Ok(Some(Seq::new(v@.len(), |i: int| v@[i]@))),
        Ok(None) => Ok(None),
        Err(e) => Err(e),
    }
}

impl VertexShader {
    /// The uniform-block table that the header points at, read from the header
    /// block's payload `data`: `None` for a null address.
    pub fn uniform_blocks(&self, data: &[u8]) -> (r: Result<Option<Vec<UniformBlockInit>>, TableError>)
        ensures
            uniform_blocks_view(r) == spec_uniform_blocks(
                data@,
                self.uniform_blocks,
                self.num_uniform_blocks,
            ),
    {
        if self.uniform_blocks == 0 {
            return Ok(None);
        }
        let base = (self.uniform_blocks & !Block::DATA) as usize;
        let n = self.num_uniform_blocks;
        if !table_fits(data, base, n, 12) {
            return Err(TableError::TableOutOfBounds);
        }
        let mut entries: Vec<UniformBlockInit> = Vec::new();
        let mut i: u32 = 0;
        let len = data.len();
        while i < n
            invariant
                i <= n,
                len == data@.len(),
                self.uniform_blocks != 0,
                n == self.num_uniform_blocks,
                base == data_offset(self.uniform_blocks),
                base + 12 * n <= data@.len(),
                entries@.len() == i,
                forall|j: int| 0 <= j < i ==> name_in_bounds(data@, #[trigger] be_u32_at(data@, base + 12 * j)),
                forall|j: int| 0 <= j < i ==> #[trigger] entries@[j]@ == spec_uniform_block(data@, base as int, j),
            decreases n - i,
        {
            let pos = base + 12 * (i as usize);
            let name = read_u32_be(data, pos);
            if name != 0 && !has_room(data, (name & !Block::TEXT) as usize, 0) {
                assert(!name_in_bounds(
                    data@,
                    be_u32_at(data@, data_offset(self.uniform_blocks) + 12 * (i as int)),
                ));
                return Err(TableError::NameOutOfBounds);
            }
            let e = UniformBlockInit {
                name: read_name(data, name),
                location: read_u32_be(data, pos + 4),
                size: read_u32_be(data, pos + 8),
            };
            entries.push(e);
            i = i + 1;
        }
        let ghost spec_entries = Seq::new(n as nat, |j: int| spec_uniform_block(data@, base as int, j));
        assert(Seq::new(entries@.len(), |j: int| entries@[j]@) =~= spec_entries);
        Ok(Some(entries))
    }

    /// The attribute table that the header points at, read from the header block's
    /// payload `data`: `None` where the shader has no attributes.
    pub fn attrib_vars(&self, data: &[u8]) -> (r: Result<Option<Vec<AttribVarInit>>, TableError>)
        ensures
            attrib_vars_view(r) == spec_attrib_vars(data@, self.attrib_vars, self.num_attribs),
    {
        if self.num_attribs == 0 {
            return Ok(None);
        }
        let base = (self.attrib_vars & !Block::DATA) as usize;
        let n = self.num_attribs;
        if !table_fits(data, base, n, 16) {
            return Err(TableError::TableOutOfBounds);
        }
        let mut entries: Vec<AttribVarInit> = Vec::new();
        let mut i: u32 = 0;
        let len = data.len();
        while i < n
            invariant
                i <= n,
                len == data@.len(),
                n == self.num_attribs,
                base == data_offset(self.attrib_vars),
                base + 16 * n <= data@.len(),
                entries@.len() == i,
                forall|j: int| 0 <= j < i ==> name_in_bounds(data@, #[trigger] be_u32_at(data@, base + 16 * j)),
                forall|j: int| 0 <= j < i ==> #[trigger] entries@[j]@ == spec_attrib_var(data@, base as int, j),
            decreases n - i,
        {
            let pos = base + 16 * (i as usize);
            let name = read_u32_be(data, pos);
            if name != 0 && !has_room(data, (name & !Block::TEXT) as usize, 0) {
                assert(!name_in_bounds(
                    data@,
                    be_u32_at(data@, data_offset(self.attrib_vars) + 16 * (i as int)),
                ));
                return Err(TableError::NameOutOfBounds);
            }
            let e = AttribVarInit {
                name: read_name(data, name),
                kind: read_u32_be(data, pos + 4),
                array_count: read_u32_be(data, pos + 8),
                location: read_u32_be(data, pos + 12),
            };
            entries.push(e);
            i = i + 1;
        }
        let ghost spec_entries = Seq::new(n as nat, |j: int| spec_attrib_var(data@, base as int, j));
        assert(Seq::new(entries@.len(), |j: int| entries@[j]@) =~= spec_entries);
        Ok(Some(entries))
    }
}

/// Why a vertex shader's initialiser cannot be made.
#[derive(Clone, Copy, Debug, PartialEq, Eq, Structural)]
pub enum DescribeError {
    /// The mode word stands for no shader mode.
    InvalidShaderMode,
    /// The uniform-block table cannot be read.
    UniformBlocks(TableError),
    /// The attribute table cannot be read.
    AttribVars(TableError),
}

/// The values of the initialiser of a vertex shader. The pointers that the
/// header holds for uniform variables, initial values, loop variables and
/// samplers are not followed: the initialiser holds null pointers for them.
pub struct VertexShaderInit {
    pub regs: VertexShaderRegisters,
    pub shader_size: u32,
    /// The program bytes that the shader points at.
    pub shader_ptr: Vec<u8>,
    pub shader_mode: ShaderMode,
    pub num_uniform_blocks: u32,
    pub uniform_blocks: Option<Vec<UniformBlockInit>>,
    pub num_uniforms: u32,
    pub num_initial_values: u32,
    pub num_loops: u32,
    pub num_samplers: u32,
    pub num_attribs: u32,
    pub attrib_vars: Option<Vec<AttribVarInit>>,
    pub ring_itemsize: u32,
    pub has_stream_output: i32,
    pub stream_out_vertex_stride: [u32; 4],
}

/// The values of the initialiser of a vertex shader, as a mathematical value.
pub struct VertexShaderInitView {
    pub regs: Seq<u32>,
    pub shader_size: u32,
    pub shader_ptr: Seq<u8>,
    pub shader_mode: ShaderMode,
    pub num_uniform_blocks: u32,
    pub uniform_blocks: Option<Seq<UniformBlockInitView>>,
    pub num_uniforms: u32,
    pub num_initial_values: u32,
    pub num_loops: u32,
    pub num_samplers: u32,
    pub num_attribs: u32,
    pub attrib_vars: Option<Seq<AttribVarInitView>>,
    pub ring_itemsize: u32,
    pub has_stream_output: i32,
    pub stream_out_vertex_stride: Seq<u32>,
}

impl View for VertexShaderInit {
    type V = VertexShaderInitView;

    open spec fn view(&self) -> VertexShaderInitView {
        VertexShaderInitView {
            regs: self.regs.words(),
            shader_size: self.shader_size,
            shader_ptr: self.shader_ptr@,
            shader_mode: self.shader_mode,
            num_uniform_blocks: self.num_uniform_blocks,
            uniform_blocks: match self.uniform_blocks {
                Some(v) => Some(Seq::new(v@.len(), |i: int| v@[i]@)),
                None => None,
            },
            num_uniforms: self.num_uniforms,
            num_initial_values: self.num_initial_values,
            num_loops: self.num_loops,
            num_samplers: self.num_samplers,
            num_attribs: self.num_attribs,
            attrib_vars: match self.attrib_vars {
                Some(v) => Some(Seq::new(v@.len(), |i: int| v@[i]@)),
                None => None,
            },
            ring_itemsize: self.ring_itemsize,
            has_stream_output: self.has_stream_output,
            stream_out_vertex_stride: self.stream_out_vertex_stride@,
        }
    }
}

/// The initialiser of the vertex shader with words `w`, whose header block's
/// payload is `s` and whose program is `p`. The mode is decoded first, then the
/// uniform-block table, then the attribute table; the first that fails decides
/// the error.
pub open spec fn spec_vertex_shader(w: Seq<u32>, s: Seq<u8>, p: Seq<u8>) -> Result<
    VertexShaderInitView,
    DescribeError,
> {
    match ShaderMode::spec_from_word(vs_word(w, 2)) {
        None => Err(DescribeError::InvalidShaderMode),
        Some(mode) => match spec_uniform_blocks(s, vs_word(w, 4), vs_word(w, 3)) {
            Err(e) => Err(DescribeError::UniformBlocks(e)),
            Ok(ub) => match spec_attrib_vars(s, vs_word(w, 14), vs_word(w, 13)) {
                Err(e) => Err(DescribeError::AttribVars(e)),
                Ok(av) => Ok(
                    VertexShaderInitView {
                        regs: w.subrange(0, 52),
                        shader_size: vs_word(w, 0),
                        shader_ptr: p,
                        shader_mode: mode,
                        num_uniform_blocks: vs_word(w, 3),
                        uniform_blocks: ub,
                        num_uniforms: vs_word(w, 5),
                        num_initial_values: vs_word(w, 7),
                        num_loops: vs_word(w, 9),
                        num_samplers: vs_word(w, 11),
                        num_attribs: vs_word(w, 13),
                        attrib_vars: av,
                        ring_itemsize: vs_word(w, 15),
                        has_stream_output: vs_word(w, 16) as i32,
                        stream_out_vertex_stride: w.subrange(69, 73),
                    },
                ),
            },
        },
    }
}

/// The view of an initialiser, or the error.
pub open spec fn init_view(r: Result<VertexShaderInit, DescribeError>) -> Result<
    VertexShaderInitView,
    DescribeError,
> {
    match r {
        Ok(v) => Ok(v@),
        Err(e) => Err(e),
    }
}

/// The initialiser of vertex shader `vs`, whose header block's payload is `data`
/// and whose program is `program`.
pub fn vertex_shader(vs: &VertexShader, data: &[u8], program: &[u8]) -> (r: Result<
    VertexShaderInit,
    DescribeError,
>)
    ensures
        init_view(r) == spec_vertex_shader(vs.words(), data@, program@),
{
    proof {
        vs.lemma_words();
    }
    let regs = vs.regs();
    let shader_size = vs.shader_size;
    let shader_ptr = copy_range(program, 0, program.len());
    if vs.shader_mode >= 4 {
        return Err(DescribeError::InvalidShaderMode);
    }
    let shader_mode = vs.shader_mode();
    let uniform_blocks = match vs.uniform_blocks(data) {
        Ok(t) => t,
        Err(e) => return Err(DescribeError::UniformBlocks(e)),
    };
    let attrib_vars = match vs.attrib_vars(data) {
        Ok(t) => t,
        Err(e) => return Err(DescribeError::AttribVars(e)),
    };
    let init = VertexShaderInit {
        regs,
        shader_size,
        shader_ptr,
        shader_mode,
        num_uniform_blocks: vs.num_uniform_blocks,
        uniform_blocks,
        num_uniforms: vs.num_uniforms,
        num_initial_values: vs.num_initial_values,
        num_loops: vs.num_loops,
        num_samplers: vs.num_samplers,
        num_attribs: vs.num_attribs,
        attrib_vars,
        ring_itemsize: vs.ring_itemsize,
        has_stream_output: vs.has_stream_output(),
        stream_out_vertex_stride: vs.stream_out_vertex_stride,
    };
    assert(shader_ptr@ =~= program@);
    Ok(init)
}


/// Positions of the words of a pixel shader header after its 41 registers.
pub open spec fn ps_word(w: Seq<u32>, field: int) -> u32 {
    w[41 + field]
}

impl PixelShader {
    /// Each named field is the word at its position in `words()`.
    pub proof fn lemma_words(&self)
        ensures
            self.words().len() == 58,
            self.words().subrange(0, 41) == self.regs@,
            ps_word(self.words(), 0) == self.shader_size,
            ps_word(self.words(), 1) == self.shader_ptr,
            ps_word(self.words(), 2) == self.shader_mode,
            ps_word(self.words(), 3) == self.num_uniform_blocks,
            ps_word(self.words(), 4) == self.uniform_blocks,
            ps_word(self.words(), 5) == self.num_uniforms,
            ps_word(self.words(), 6) == self.uniform_vars,
            ps_word(self.words(), 7) == self.num_initial_values,
            ps_word(self.words(), 8) == self.initial_values,
            ps_word(self.words(), 9) == self.num_loops,
            ps_word(self.words(), 10) == self.loop_vars,
            ps_word(self.words(), 11) == self.num_samplers,
            ps_word(self.words(), 12) == self.sampler_vars,
            self.words().subrange(54, 58) == self.program@,
    {
        assert(self.words().subrange(0, 41) =~= self.regs@);
        assert(self.words().subrange(54, 58) =~= self.program@);
    }

    /// The mode of the shader. Its mode word must stand for one.
    pub fn shader_mode(&self) -> (m: ShaderMode)
        requires
            self.shader_mode < 4,
        ensures
            ShaderMode::spec_from_word(self.shader_mode) == Some(m),
    {
        match self.shader_mode {
            0 => ShaderMode::UniformRegister,
            1 => ShaderMode::UniformBlock,
            2 => ShaderMode::Geometry,
            _ => ShaderMode::Compute,
        }
    }
}

/// The registers of a pixel shader, under their names.
pub struct PixelShaderRegisters {
    pub sq_pgm_resources_ps: u32,
    pub sq_pgm_exports_ps: u32,
    pub spi_ps_in_control_0: u32,
    pub spi_ps_in_control_1: u32,
    pub num_spi_ps_input_cntl: u32,
    pub spi_ps_input_cntls: [u32; 32],
    pub cb_shader_mask: u32,
    pub cb_shader_control: u32,
    pub db_shader_control: u32,
    pub spi_input_z: u32,
}

impl PixelShaderRegisters {
    /// The registers in the order in which a shader header stores them.
    pub open spec fn words(&self) -> Seq<u32> {
        seq![
            self.sq_pgm_resources_ps,
            self.sq_pgm_exports_ps,
            self.spi_ps_in_control_0,
            self.spi_ps_in_control_1,
            self.num_spi_ps_input_cntl,
        ] + self.spi_ps_input_cntls@ + seq![
            self.cb_shader_mask,
            self.cb_shader_control,
            self.db_shader_control,
            self.spi_input_z,
        ]
    }
}

impl PixelShader {
    /// The registers under their names: register `k` of the header is the `k`-th
    /// register in that order.
    pub fn regs(&self) -> (r: PixelShaderRegisters)
        ensures
            r.words() == self.regs@,
    {
        let regs = self.regs.as_slice();
        let r = PixelShaderRegisters {
            sq_pgm_resources_ps: self.regs[0],
            sq_pgm_exports_ps: self.regs[1],
            spi_ps_in_control_0: self.regs[2],
            spi_ps_in_control_1: self.regs[3],
            num_spi_ps_input_cntl: self.regs[4],
            spi_ps_input_cntls: sub_array(regs, 5),
            cb_shader_mask: self.regs[37],
            cb_shader_control: self.regs[38],
            db_shader_control: self.regs[39],
            spi_input_z: self.regs[40],
        };
        assert(r.words() =~= self.regs@);
        r
    }
}

/// The values of the initialiser of a pixel shader. The pointers that the header
/// holds for uniform blocks, uniform variables, initial values, loop variables and
/// samplers are not followed: the initialiser holds empty tables for them.
pub struct PixelShaderInit {
    pub regs: PixelShaderRegisters,
    pub shader_size: u32,
    /// The program bytes that the shader points at.
    pub shader_ptr: Vec<u8>,
    pub shader_mode: ShaderMode,
    pub num_uniform_blocks: u32,
    pub num_uniforms: u32,
    pub num_initial_values: u32,
    pub num_loops: u32,
    pub num_samplers: u32,
}

/// The values of the initialiser of a pixel shader, as a mathematical value.
pub struct PixelShaderInitView {
    pub regs: Seq<u32>,
    pub shader_size: u32,
    pub shader_ptr: Seq<u8>,
    pub shader_mode: ShaderMode,
    pub num_uniform_blocks: u32,
    pub num_uniforms: u32,
    pub num_initial_values: u32,
    pub num_loops: u32,
    pub num_samplers: u32,
}

impl View for PixelShaderInit {
    type V = PixelShaderInitView;

    open spec fn view(&self) -> PixelShaderInitView {
        PixelShaderInitView {
            regs: self.regs.words(),
            shader_size: self.shader_size,
            shader_ptr: self.shader_ptr@,
            shader_mode: self.shader_mode,
            num_uniform_blocks: self.num_uniform_blocks,
            num_uniforms: self.num_uniforms,
            num_initial_values: self.num_initial_values,
            num_loops: self.num_loops,
            num_samplers: self.num_samplers,
        }
    }
}

/// The initialiser of the pixel shader with words `w` and program `p`.
pub open spec fn spec_pixel_shader(w: Seq<u32>, p: Seq<u8>) -> Result<PixelShaderInitView, DescribeError> {
    match ShaderMode::spec_from_word(ps_word(w, 2)) {
        None => Err(DescribeError::InvalidShaderMode),
        Some(mode) => Ok(
            PixelShaderInitView {
                regs: w.subrange(0, 41),
                shader_size: ps_word(w, 0),
                shader_ptr: p,
                shader_mode: mode,
                num_uniform_blocks: ps_word(w, 3),
                num_uniforms: ps_word(w, 5),
                num_initial_values: ps_word(w, 7),
                num_loops: ps_word(w, 9),
                num_samplers: ps_word(w, 11),
            },
        ),
    }
}

/// The view of an initialiser, or the error.
pub open spec fn pixel_init_view(r: Result<PixelShaderInit, DescribeError>) -> Result<
    PixelShaderInitView,
    DescribeError,
> {
    match r {
        Ok(v) => Ok(v@),
        Err(e) => Err(e),
    }
}

/// The initialiser of pixel shader `ps`, whose program is `program`.
pub fn pixel_shader(ps: &PixelShader, program: &[u8]) -> (r: Result<PixelShaderInit, DescribeError>)
    ensures
        pixel_init_view(r) == spec_pixel_shader(ps.words(), program@),
{
    proof {
        ps.lemma_words();
    }
    let regs = ps.regs();
    let shader_ptr = copy_range(program, 0, program.len());
    if ps.shader_mode >= 4 {
        return Err(DescribeError::InvalidShaderMode);
    }
    let init = PixelShaderInit {
        regs,
        shader_size: ps.shader_size,
        shader_ptr,
        shader_mode: ps.shader_mode(),
        num_uniform_blocks: ps.num_uniform_blocks,
        num_uniforms: ps.num_uniforms,
        num_initial_values: ps.num_initial_values,
        num_loops: ps.num_loops,
        num_samplers: ps.num_samplers,
    };
    assert(shader_ptr@ =~= program@);
    Ok(init)
}

} // verus!
