//! Laws that fix the GFD format by its own numbers: the word that stands for
//! each block type, the byte offset of every field, the size of every table
//! entry, which fields of a shader header feed which value of an initialiser,
//! and where each named register sits among a shader's registers.

use vstd::prelude::*;
use crate::bytes::{be_u32_at, be_words, c_str_at, lemma_c_str_at};
use crate::encode::{be_bytes, lemma_be_bytes};
use crate::init::{
    data_offset, spec_attrib_vars, spec_pixel_shader, spec_uniform_blocks, spec_vertex_shader,
    text_offset, DescribeError, PixelShaderRegisters, ShaderMode, TableError, VertexShaderRegisters,
};
use crate::shaders::{spec_pixel_at, spec_vertex_at, GatherError};
use crate::gfd::{
    AttribVar, Block, BlockView, Header, LoopVar, ParseError, PixelShader, RelocationInfo, SamplerVar,
    Type, UniformBlock, UniformVar, VertexShader,
};

verus! {

/// A big-endian word is its first byte times 2^24, plus its second byte times
/// 2^16, plus its third byte times 2^8, plus its fourth byte.
pub proof fn lemma_be_u32_value(s: Seq<u8>, i: int)
    requires
        0 <= i,
        i + 4 <= s.len(),
    ensures
        be_u32_at(s, i) as int == s[i] as int * 0x100_0000 + s[i + 1] as int * 0x1_0000 + s[i + 2] as int
            * 0x100 + s[i + 3] as int,
{
}

/// The four bytes written for a word are its big-endian digits in base 256.
pub proof fn lemma_be_bytes_value(v: u32)
    ensures
        be_bytes(v).len() == 4,
        be_bytes(v)[0] as int * 0x100_0000 + be_bytes(v)[1] as int * 0x1_0000 + be_bytes(v)[2] as int
            * 0x100 + be_bytes(v)[3] as int == v as int,
{
    let b = be_bytes(v);
    assert(b.subrange(0, 4) =~= b);
    lemma_be_bytes(b, 0, v);
    lemma_be_u32_value(b, 0);
}

/// The word that stands for each block type in a file, and the only words that
/// stand for one.
pub proof fn lemma_type_codes(v: u32)
    ensures
        Type::EndOfFile.spec_code() == 0x01,
        Type::Padding.spec_code() == 0x02,
        Type::VertexShaderHeader.spec_code() == 0x03,
        Type::VertexShaderProgram.spec_code() == 0x05,
        Type::PixelShaderHeader.spec_code() == 0x06,
        Type::PixelShaderProgram.spec_code() == 0x07,
        Type::GeometryShaderHeader.spec_code() == 0x08,
        Type::GeometryShaderProgram.spec_code() == 0x09,
        Type::GeometryShaderCopyProgram.spec_code() == 0x10,
        Type::TextureHeader.spec_code() == 0x11,
        Type::TextureImageData.spec_code() == 0x12,
        Type::TextureMipmapData.spec_code() == 0x13,
        Type::ComputeShaderHeader.spec_code() == 0x14,
        Type::ComputeShaderProgram.spec_code() == 0x15,
        Type::spec_from_code(0x01) == Some(Type::EndOfFile),
        Type::spec_from_code(0x02) == Some(Type::Padding),
        Type::spec_from_code(0x03) == Some(Type::VertexShaderHeader),
        Type::spec_from_code(0x05) == Some(Type::VertexShaderProgram),
        Type::spec_from_code(0x06) == Some(Type::PixelShaderHeader),
        Type::spec_from_code(0x07) == Some(Type::PixelShaderProgram),
        Type::spec_from_code(0x08) == Some(Type::GeometryShaderHeader),
        Type::spec_from_code(0x09) == Some(Type::GeometryShaderProgram),
        Type::spec_from_code(0x10) == Some(Type::GeometryShaderCopyProgram),
        Type::spec_from_code(0x11) == Some(Type::TextureHeader),
        Type::spec_from_code(0x12) == Some(Type::TextureImageData),
        Type::spec_from_code(0x13) == Some(Type::TextureMipmapData),
        Type::spec_from_code(0x14) == Some(Type::ComputeShaderHeader),
        Type::spec_from_code(0x15) == Some(Type::ComputeShaderProgram),
        Type::spec_from_code(v) is Some <==> (1 <= v <= 3 || 5 <= v <= 9 || 0x10 <= v <= 0x15),
{
}

/// A header is accepted exactly where its 32 bytes are there, its magic is
/// "Gfx2", its size word is 0x20, its version words are 7 and 1, its GPU word is
/// 2 and its alignment word is 0 or 1.
pub proof fn lemma_header_accepted(s: Seq<u8>, pos: int)
    requires
        0 <= pos,
    ensures
        Header::spec_error(s, pos) is None <==> {
            &&& pos + 32 <= s.len()
            &&& s.subrange(pos, pos + 4) == seq![0x47u8, 0x66u8, 0x78u8, 0x32u8]
            &&& be_u32_at(s, pos + 4) == 0x20
            &&& be_u32_at(s, pos + 8) == 7
            &&& be_u32_at(s, pos + 12) == 1
            &&& be_u32_at(s, pos + 16) == 2
            &&& be_u32_at(s, pos + 20) <= 1
        },
{
}

/// A read header holds the words at fixed offsets: size at 4, version at 8 and
/// 12, GPU at 16, alignment at 20, the reserved words at 24 and 28.
pub proof fn lemma_header_fields(h: Header, s: Seq<u8>, pos: int)
    requires
        h.decoded_from(s, pos),
    ensures
        h.magic@ == s.subrange(pos, pos + 4),
        h.size == be_u32_at(s, pos + 4),
        h.version.0 == be_u32_at(s, pos + 8),
        h.version.1 == be_u32_at(s, pos + 12),
        h.gpu == be_u32_at(s, pos + 16),
        h.align == be_u32_at(s, pos + 20),
        h.reserved1 == be_u32_at(s, pos + 24),
        h.reserved2 == be_u32_at(s, pos + 28),
{
}

/// A written header holds its fields at the offsets it is read from.
pub proof fn lemma_header_bytes(h: Header)
    ensures
        h.spec_bytes().len() == 32,
        h.spec_bytes().subrange(0, 4) == h.magic@,
        h.spec_bytes().subrange(4, 8) == be_bytes(h.size),
        h.spec_bytes().subrange(8, 12) == be_bytes(h.version.0),
        h.spec_bytes().subrange(12, 16) == be_bytes(h.version.1),
        h.spec_bytes().subrange(16, 20) == be_bytes(h.gpu),
        h.spec_bytes().subrange(20, 24) == be_bytes(h.align),
        h.spec_bytes().subrange(24, 28) == be_bytes(h.reserved1),
        h.spec_bytes().subrange(28, 32) == be_bytes(h.reserved2),
{
    let b = h.spec_bytes();
    assert(b.subrange(0, 4) =~= h.magic@);
    assert(b.subrange(4, 8) =~= be_bytes(h.size));
    assert(b.subrange(8, 12) =~= be_bytes(h.version.0));
    assert(b.subrange(12, 16) =~= be_bytes(h.version.1));
    assert(b.subrange(16, 20) =~= be_bytes(h.gpu));
    assert(b.subrange(20, 24) =~= be_bytes(h.align));
    assert(b.subrange(24, 28) =~= be_bytes(h.reserved1));
    assert(b.subrange(28, 32) =~= be_bytes(h.reserved2));
}

/// A block is accepted exactly where its magic is "BLK{", its size word is 0x20,
/// its version words are 1 and 0, its type word stands for a block type, and its
/// 32-byte fixed part and the payload of the length its word at 20 gives are there.
pub proof fn lemma_block_accepted(s: Seq<u8>, pos: int)
    requires
        0 <= pos,
    ensures
        Block::spec_error(s, pos) is None <==> {
            &&& pos + 32 <= s.len()
            &&& s.subrange(pos, pos + 4) == seq![0x42u8, 0x4Cu8, 0x4Bu8, 0x7Bu8]
            &&& be_u32_at(s, pos + 4) == 0x20
            &&& be_u32_at(s, pos + 8) == 1
            &&& be_u32_at(s, pos + 12) == 0
            &&& Type::spec_from_code(be_u32_at(s, pos + 16)) is Some
            &&& pos + 32 + be_u32_at(s, pos + 20) <= s.len()
        },
        Block::spec_error(s, pos) == Some(ParseError::UnknownBlockType(be_u32_at(s, pos + 16)))
            <== pos + 20 <= s.len() && s.subrange(pos, pos + 4) == seq![0x42u8, 0x4Cu8, 0x4Bu8, 0x7Bu8]
            && be_u32_at(s, pos + 4) == 0x20 && be_u32_at(s, pos + 8) == 1 && be_u32_at(s, pos + 12)
            == 0 && Type::spec_from_code(be_u32_at(s, pos + 16)) is None,
{
}

/// A read block holds the words at fixed offsets: size at 4, version at 8 and 12,
/// type at 16, length at 20, id at 24, index at 28; its payload is the `len`
/// bytes from 32 on.
pub proof fn lemma_block_fields(s: Seq<u8>, pos: int)
    requires
        0 <= pos,
        Block::spec_error(s, pos) is None,
    ensures
        Block::spec_at(s, pos).magic == s.subrange(pos, pos + 4),
        Block::spec_at(s, pos).size == be_u32_at(s, pos + 4),
        Block::spec_at(s, pos).version.0 == be_u32_at(s, pos + 8),
        Block::spec_at(s, pos).version.1 == be_u32_at(s, pos + 12),
        Block::spec_at(s, pos).kind.spec_code() == be_u32_at(s, pos + 16),
        Block::spec_at(s, pos).len == be_u32_at(s, pos + 20),
        Block::spec_at(s, pos).id == be_u32_at(s, pos + 24),
        Block::spec_at(s, pos).index == be_u32_at(s, pos + 28),
        Block::spec_at(s, pos).data == s.subrange(pos + 32, pos + 32 + be_u32_at(s, pos + 20)),
{
    crate::gfd::lemma_type_code_roundtrip(
        Type::spec_from_code(be_u32_at(s, pos + 16)).unwrap(),
        be_u32_at(s, pos + 16),
    );
}

/// A written block holds its fields at the offsets it is read from, and its
/// whole payload from 32 on.
pub proof fn lemma_block_bytes(b: BlockView)
    requires
        b.magic.len() == 4,
    ensures
        b.spec_bytes().len() == 32 + b.data.len(),
        b.spec_bytes().subrange(0, 4) == b.magic,
        b.spec_bytes().subrange(4, 8) == be_bytes(b.size),
        b.spec_bytes().subrange(8, 12) == be_bytes(b.version.0),
        b.spec_bytes().subrange(12, 16) == be_bytes(b.version.1),
        b.spec_bytes().subrange(16, 20) == be_bytes(b.kind.spec_code()),
        b.spec_bytes().subrange(20, 24) == be_bytes(b.len),
        b.spec_bytes().subrange(24, 28) == be_bytes(b.id),
        b.spec_bytes().subrange(28, 32) == be_bytes(b.index),
        b.spec_bytes().subrange(32, 32 + b.data.len() as int) == b.data,
{
    let x = b.spec_bytes();
    assert(x.subrange(0, 4) =~= b.magic);
    assert(x.subrange(4, 8) =~= be_bytes(b.size));
    assert(x.subrange(8, 12) =~= be_bytes(b.version.0));
    assert(x.subrange(12, 16) =~= be_bytes(b.version.1));
    assert(x.subrange(16, 20) =~= be_bytes(b.kind.spec_code()));
    assert(x.subrange(20, 24) =~= be_bytes(b.len));
    assert(x.subrange(24, 28) =~= be_bytes(b.id));
    assert(x.subrange(28, 32) =~= be_bytes(b.index));
    assert(x.subrange(32, 32 + b.data.len() as int) =~= b.data);
}

/// A relocation table is accepted exactly where its 40 bytes are there, its magic
/// is "}BLK", its size word is 0x28, its word at 8 and its base word at 28 are
/// zero, and its data, text and relocation offsets (at 16, 24 and 36) point into
/// the data section 0xD060_0000.
pub proof fn lemma_relocation_accepted(s: Seq<u8>, pos: int)
    requires
        0 <= pos,
    ensures
        RelocationInfo::spec_error(s, pos) is None <==> {
            &&& pos + 40 <= s.len()
            &&& s.subrange(pos, pos + 4) == seq![0x7Du8, 0x42u8, 0x4Cu8, 0x4Bu8]
            &&& be_u32_at(s, pos + 4) == 0x28
            &&& be_u32_at(s, pos + 8) == 0
            &&& be_u32_at(s, pos + 16) & 0xFFF0_0000 == 0xD060_0000
            &&& be_u32_at(s, pos + 24) & 0xFFF0_0000 == 0xD060_0000
            &&& be_u32_at(s, pos + 28) == 0
            &&& be_u32_at(s, pos + 36) & 0xFFF0_0000 == 0xD060_0000
        },
{
}

/// A read relocation table holds its ten words in order from `pos` on.
pub proof fn lemma_relocation_fields(r: RelocationInfo, s: Seq<u8>, pos: int)
    requires
        r.decoded_from(s, pos),
    ensures
        r.magic@ == s.subrange(pos, pos + 4),
        r.size == be_u32_at(s, pos + 4),
        r.zero == be_u32_at(s, pos + 8),
        r.data_size == be_u32_at(s, pos + 12),
        r.data_offset == be_u32_at(s, pos + 16),
        r.text_size == be_u32_at(s, pos + 20),
        r.text_offset == be_u32_at(s, pos + 24),
        r.relo_base == be_u32_at(s, pos + 28),
        r.relo_count == be_u32_at(s, pos + 32),
        r.relo_offset == be_u32_at(s, pos + 36),
{
}

/// A read UniformBlock entry is 12 bytes: its words in order from `pos` on.
pub proof fn lemma_uniformblock_fields(e: UniformBlock, s: Seq<u8>, pos: int)
    requires
        e.decoded_from(s, pos),
    ensures
        UniformBlock::SIZE == 12,
        e.name == be_u32_at(s, pos + 0),
        e.location == be_u32_at(s, pos + 4),
        e.size == be_u32_at(s, pos + 8),
{
}

/// A read UniformVar entry is 20 bytes: its words in order from `pos` on.
pub proof fn lemma_uniformvar_fields(e: UniformVar, s: Seq<u8>, pos: int)
    requires
        e.decoded_from(s, pos),
    ensures
        UniformVar::SIZE == 20,
        e.name == be_u32_at(s, pos + 0),
        e.kind == be_u32_at(s, pos + 4),
        e.array_count == be_u32_at(s, pos + 8),
        e.offset == be_u32_at(s, pos + 12),
        e.block_index == be_u32_at(s, pos + 16),
{
}

/// A read LoopVar entry is 8 bytes: its words in order from `pos` on.
pub proof fn lemma_loopvar_fields(e: LoopVar, s: Seq<u8>, pos: int)
    requires
        e.decoded_from(s, pos),
    ensures
        LoopVar::SIZE == 8,
        e.offset == be_u32_at(s, pos + 0),
        e.value == be_u32_at(s, pos + 4),
{
}

/// A read SamplerVar entry is 12 bytes: its words in order from `pos` on.
pub proof fn lemma_samplervar_fields(e: SamplerVar, s: Seq<u8>, pos: int)
    requires
        e.decoded_from(s, pos),
    ensures
        SamplerVar::SIZE == 12,
        e.name == be_u32_at(s, pos + 0),
        e.kind == be_u32_at(s, pos + 4),
        e.location == be_u32_at(s, pos + 8),
{
}

/// A read AttribVar entry is 16 bytes: its words in order from `pos` on.
pub proof fn lemma_attribvar_fields(e: AttribVar, s: Seq<u8>, pos: int)
    requires
        e.decoded_from(s, pos),
    ensures
        AttribVar::SIZE == 16,
        e.name == be_u32_at(s, pos + 0),
        e.kind == be_u32_at(s, pos + 4),
        e.array_count == be_u32_at(s, pos + 8),
        e.location == be_u32_at(s, pos + 12),
{
}

/// A vertex shader read from a header block's payload holds its 52 registers in
/// the first 208 bytes, then its words at fixed offsets, then four stream-output
/// strides and four program words.
pub proof fn lemma_vertex_shader_fields(v: VertexShader, s: Seq<u8>)
    requires
        v.words() == be_words(s, 0, 77),
    ensures
        forall|k: int| 0 <= k < 52 ==> #[trigger] v.regs@[k] == be_u32_at(s, 4 * k),
        v.shader_size == be_u32_at(s, 208),
        v.shader_ptr == be_u32_at(s, 212),
        v.shader_mode == be_u32_at(s, 216),
        v.num_uniform_blocks == be_u32_at(s, 220),
        v.uniform_blocks == be_u32_at(s, 224),
        v.num_uniforms == be_u32_at(s, 228),
        v.uniform_vars == be_u32_at(s, 232),
        v.num_initial_values == be_u32_at(s, 236),
        v.initial_values == be_u32_at(s, 240),
        v.num_loops == be_u32_at(s, 244),
        v.loop_vars == be_u32_at(s, 248),
        v.num_samplers == be_u32_at(s, 252),
        v.sampler_vars == be_u32_at(s, 256),
        v.num_attribs == be_u32_at(s, 260),
        v.attrib_vars == be_u32_at(s, 264),
        v.ring_itemsize == be_u32_at(s, 268),
        v.has_stream_output == be_u32_at(s, 272),
        forall|k: int| 0 <= k < 4 ==> #[trigger] v.stream_out_vertex_stride@[k] == be_u32_at(s, 276 + 4 * k),
        forall|k: int| 0 <= k < 4 ==> #[trigger] v.program@[k] == be_u32_at(s, 292 + 4 * k),
{
    assert forall|k: int| 0 <= k < 52 implies #[trigger] v.regs@[k] == be_u32_at(s, 4 * k) by {
        assert(v.words()[k] == v.regs@[k]);
    }
    assert forall|k: int| 0 <= k < 4 implies #[trigger] v.stream_out_vertex_stride@[k] == be_u32_at(s, 276 + 4 * k) by {
        assert(v.words()[69 + k] == v.stream_out_vertex_stride@[k]);
    }
    assert forall|k: int| 0 <= k < 4 implies #[trigger] v.program@[k] == be_u32_at(s, 292 + 4 * k) by {
        assert(v.words()[73 + k] == v.program@[k]);
    }
    assert(v.words()[52] == v.shader_size);
    assert(v.words()[53] == v.shader_ptr);
    assert(v.words()[54] == v.shader_mode);
    assert(v.words()[55] == v.num_uniform_blocks);
    assert(v.words()[56] == v.uniform_blocks);
    assert(v.words()[57] == v.num_uniforms);
    assert(v.words()[58] == v.uniform_vars);
    assert(v.words()[59] == v.num_initial_values);
    assert(v.words()[60] == v.initial_values);
    assert(v.words()[61] == v.num_loops);
    assert(v.words()[62] == v.loop_vars);
    assert(v.words()[63] == v.num_samplers);
    assert(v.words()[64] == v.sampler_vars);
    assert(v.words()[65] == v.num_attribs);
    assert(v.words()[66] == v.attrib_vars);
    assert(v.words()[67] == v.ring_itemsize);
    assert(v.words()[68] == v.has_stream_output);
}

/// A pixel shader read from a header block's payload holds its 41 registers in
/// the first 164 bytes, then its words at fixed offsets, then four program words.
pub proof fn lemma_pixel_shader_fields(v: PixelShader, s: Seq<u8>)
    requires
        v.words() == be_words(s, 0, 58),
    ensures
        forall|k: int| 0 <= k < 41 ==> #[trigger] v.regs@[k] == be_u32_at(s, 4 * k),
        v.shader_size == be_u32_at(s, 164),
        v.shader_ptr == be_u32_at(s, 168),
        v.shader_mode == be_u32_at(s, 172),
        v.num_uniform_blocks == be_u32_at(s, 176),
        v.uniform_blocks == be_u32_at(s, 180),
        v.num_uniforms == be_u32_at(s, 184),
        v.uniform_vars == be_u32_at(s, 188),
        v.num_initial_values == be_u32_at(s, 192),
        v.initial_values == be_u32_at(s, 196),
        v.num_loops == be_u32_at(s, 200),
        v.loop_vars == be_u32_at(s, 204),
        v.num_samplers == be_u32_at(s, 208),
        v.sampler_vars == be_u32_at(s, 212),
        forall|k: int| 0 <= k < 4 ==> #[trigger] v.program@[k] == be_u32_at(s, 216 + 4 * k),
{
    assert forall|k: int| 0 <= k < 41 implies #[trigger] v.regs@[k] == be_u32_at(s, 4 * k) by {
        assert(v.words()[k] == v.regs@[k]);
    }
    assert forall|k: int| 0 <= k < 4 implies #[trigger] v.program@[k] == be_u32_at(s, 216 + 4 * k) by {
        assert(v.words()[54 + k] == v.program@[k]);
    }
    assert(v.words()[41] == v.shader_size);
    assert(v.words()[42] == v.shader_ptr);
    assert(v.words()[43] == v.shader_mode);
    assert(v.words()[44] == v.num_uniform_blocks);
    assert(v.words()[45] == v.uniform_blocks);
    assert(v.words()[46] == v.num_uniforms);
    assert(v.words()[47] == v.uniform_vars);
    assert(v.words()[48] == v.num_initial_values);
    assert(v.words()[49] == v.initial_values);
    assert(v.words()[50] == v.num_loops);
    assert(v.words()[51] == v.loop_vars);
    assert(v.words()[52] == v.num_samplers);
    assert(v.words()[53] == v.sampler_vars);
}

/// Each named register of a vertex shader is the header register at its fixed
/// index: the ten output ids are registers 4 to 13, the 32 vertex semantics are
/// registers 17 to 48.
pub proof fn lemma_vertex_registers(r: VertexShaderRegisters, regs: Seq<u32>)
    requires
        r.words() == regs,
    ensures
        regs.len() == 52,
        r.sq_pgm_resources_vs == regs[0],
        r.vgt_primitiveid_en == regs[1],
        r.spi_vs_out_config == regs[2],
        r.num_spi_vs_out_id == regs[3],
        r.pa_cl_vs_out_cntl == regs[14],
        r.sq_vtx_semantic_clear == regs[15],
        r.num_sq_vtx_semantic == regs[16],
        r.vgt_strmout_buffer_en == regs[49],
        r.vgt_vertex_reuse_block_cntl == regs[50],
        r.vgt_hos_reuse_depth == regs[51],
        forall|k: int| 0 <= k < 10 ==> #[trigger] r.spi_vs_out_id@[k] == regs[4 + k],
        forall|k: int| 0 <= k < 32 ==> #[trigger] r.sq_vtx_semantic@[k] == regs[17 + k],
{
    assert forall|k: int| 0 <= k < 10 implies #[trigger] r.spi_vs_out_id@[k] == regs[4 + k] by {
        assert(r.words()[4 + k] == r.spi_vs_out_id@[k]);
    }
    assert forall|k: int| 0 <= k < 32 implies #[trigger] r.sq_vtx_semantic@[k] == regs[17 + k] by {
        assert(r.words()[17 + k] == r.sq_vtx_semantic@[k]);
    }
    assert(r.words()[0] == r.sq_pgm_resources_vs);
    assert(r.words()[1] == r.vgt_primitiveid_en);
    assert(r.words()[2] == r.spi_vs_out_config);
    assert(r.words()[3] == r.num_spi_vs_out_id);
    assert(r.words()[14] == r.pa_cl_vs_out_cntl);
    assert(r.words()[15] == r.sq_vtx_semantic_clear);
    assert(r.words()[16] == r.num_sq_vtx_semantic);
    assert(r.words()[49] == r.vgt_strmout_buffer_en);
    assert(r.words()[50] == r.vgt_vertex_reuse_block_cntl);
    assert(r.words()[51] == r.vgt_hos_reuse_depth);
}

/// Each named register of a pixel shader is the header register at its fixed
/// index: the 32 input controls are registers 5 to 36.
pub proof fn lemma_pixel_registers(r: PixelShaderRegisters, regs: Seq<u32>)
    requires
        r.words() == regs,
    ensures
        regs.len() == 41,
        r.sq_pgm_resources_ps == regs[0],
        r.sq_pgm_exports_ps == regs[1],
        r.spi_ps_in_control_0 == regs[2],
        r.spi_ps_in_control_1 == regs[3],
        r.num_spi_ps_input_cntl == regs[4],
        r.cb_shader_mask == regs[37],
        r.cb_shader_control == regs[38],
        r.db_shader_control == regs[39],
        r.spi_input_z == regs[40],
        forall|k: int| 0 <= k < 32 ==> #[trigger] r.spi_ps_input_cntls@[k] == regs[5 + k],
{
    assert forall|k: int| 0 <= k < 32 implies #[trigger] r.spi_ps_input_cntls@[k] == regs[5 + k] by {
        assert(r.words()[5 + k] == r.spi_ps_input_cntls@[k]);
    }
    assert(r.words()[0] == r.sq_pgm_resources_ps);
    assert(r.words()[1] == r.sq_pgm_exports_ps);
    assert(r.words()[2] == r.spi_ps_in_control_0);
    assert(r.words()[3] == r.spi_ps_in_control_1);
    assert(r.words()[4] == r.num_spi_ps_input_cntl);
    assert(r.words()[37] == r.cb_shader_mask);
    assert(r.words()[38] == r.cb_shader_control);
    assert(r.words()[39] == r.db_shader_control);
    assert(r.words()[40] == r.spi_input_z);
}

/// The mode word of a shader header: 0 uniform registers, 1 uniform blocks,
/// 2 geometry, 3 compute; no other word stands for a mode.
pub proof fn lemma_shader_modes(v: u32)
    ensures
        ShaderMode::spec_from_word(0) == Some(ShaderMode::UniformRegister),
        ShaderMode::spec_from_word(1) == Some(ShaderMode::UniformBlock),
        ShaderMode::spec_from_word(2) == Some(ShaderMode::Geometry),
        ShaderMode::spec_from_word(3) == Some(ShaderMode::Compute),
        ShaderMode::spec_from_word(v) is None <==> v >= 4,
{
}

/// Where a table address points: its low bits, without the data section's base
/// bits 0xD060_0000.
pub proof fn lemma_offsets(a: u32)
    ensures
        data_offset(a) == (a & 0x2F9F_FFFFu32) as int,
        text_offset(a) == (a & 0x358F_FFFFu32) as int,
{
    assert(!0xD060_0000u32 == 0x2F9F_FFFFu32) by (bit_vector);
    assert(!0xCA70_0000u32 == 0x358F_FFFFu32) by (bit_vector);
}

/// The initialiser of a vertex shader takes each count and value from the header
/// field of the same name, its program bytes from the program block, and its
/// tables from the addresses and counts the header holds; it fails exactly where
/// the mode word stands for no mode or a table cannot be read.
pub proof fn lemma_vertex_init_fields(v: VertexShader, s: Seq<u8>, p: Seq<u8>)
    ensures
        spec_vertex_shader(v.words(), s, p) is Err <==> (v.shader_mode >= 4 || spec_uniform_blocks(
            s,
            v.uniform_blocks,
            v.num_uniform_blocks,
        ) is Err || spec_attrib_vars(s, v.attrib_vars, v.num_attribs) is Err),
        v.shader_mode >= 4 ==> spec_vertex_shader(v.words(), s, p) == Err::<
            crate::init::VertexShaderInitView,
            DescribeError,
        >(DescribeError::InvalidShaderMode),
        spec_vertex_shader(v.words(), s, p) matches Ok(i) ==> {
            &&& i.regs == v.regs@
            &&& i.shader_size == v.shader_size
            &&& i.shader_ptr == p
            &&& ShaderMode::spec_from_word(v.shader_mode) == Some(i.shader_mode)
            &&& i.num_uniform_blocks == v.num_uniform_blocks
            &&& spec_uniform_blocks(s, v.uniform_blocks, v.num_uniform_blocks) == Ok::<
                Option<Seq<crate::init::UniformBlockInitView>>,
                TableError,
            >(i.uniform_blocks)
            &&& i.num_uniforms == v.num_uniforms
            &&& i.num_initial_values == v.num_initial_values
            &&& i.num_loops == v.num_loops
            &&& i.num_samplers == v.num_samplers
            &&& i.num_attribs == v.num_attribs
            &&& spec_attrib_vars(s, v.attrib_vars, v.num_attribs) == Ok::<
                Option<Seq<crate::init::AttribVarInitView>>,
                TableError,
            >(i.attrib_vars)
            &&& i.ring_itemsize == v.ring_itemsize
            &&& i.has_stream_output == v.has_stream_output as i32
            &&& i.stream_out_vertex_stride == v.stream_out_vertex_stride@
        },
{
    v.lemma_words();
}

/// The initialiser of a pixel shader takes each count and value from the header
/// field of the same name and its program bytes from the program block; it fails
/// exactly where the mode word stands for no mode.
pub proof fn lemma_pixel_init_fields(v: PixelShader, p: Seq<u8>)
    ensures
        spec_pixel_shader(v.words(), p) is Err <==> v.shader_mode >= 4,
        spec_pixel_shader(v.words(), p) matches Ok(i) ==> {
            &&& i.regs == v.regs@
            &&& i.shader_size == v.shader_size
            &&& i.shader_ptr == p
            &&& ShaderMode::spec_from_word(v.shader_mode) == Some(i.shader_mode)
            &&& i.num_uniform_blocks == v.num_uniform_blocks
            &&& i.num_uniforms == v.num_uniforms
            &&& i.num_initial_values == v.num_initial_values
            &&& i.num_loops == v.num_loops
            &&& i.num_samplers == v.num_samplers
        },
{
    v.lemma_words();
}

/// The name an entry's name word stands for: none for 0, else the bytes from
/// the word's offset up to the first zero byte or the end of the payload.
pub open spec fn names_string_at(s: Seq<u8>, w: u32, name: Option<Seq<u8>>) -> bool {
    if w == 0 {
        name is None
    } else {
        let o = (w & 0x358F_FFFFu32) as int;
        &&& o <= s.len()
        &&& name matches Some(nm) && {
            &&& nm == s.subrange(o, o + nm.len())
            &&& forall|j: int| 0 <= j < nm.len() ==> nm[j] != 0
            &&& (o + nm.len() == s.len() || s[o + nm.len()] == 0)
        }
    }
}

/// Proves `names_string_at` for a name read from a followable name word.
proof fn lemma_name_read(s: Seq<u8>, w: u32)
    requires
        w == 0 || text_offset(w) <= s.len(),
    ensures
        names_string_at(s, w, crate::init::spec_name(s, w)),
{
    lemma_offsets(w);
    if w != 0 {
        lemma_c_str_at(s, text_offset(w));
    }
}

/// The attribute table: none where the count is 0; else `n` entries of 16 bytes
/// one after another from the table's offset, entry `k` being the words name,
/// type, array count and location at 16 * k, 16 * k + 4, + 8 and + 12. It cannot
/// be read exactly where it runs past the payload, or an entry's name starts past
/// it.
pub proof fn lemma_attrib_table(s: Seq<u8>, ptr: u32, n: u32)
    ensures
        n == 0 ==> spec_attrib_vars(s, ptr, n) == Ok::<
            Option<Seq<crate::init::AttribVarInitView>>,
            TableError,
        >(None),
        n != 0 && (ptr & 0x2F9F_FFFFu32) as int + 16 * n > s.len() ==> spec_attrib_vars(s, ptr, n)
            == Err::<Option<Seq<crate::init::AttribVarInitView>>, TableError>(
            TableError::TableOutOfBounds,
        ),
        spec_attrib_vars(s, ptr, n) == Err::<Option<Seq<crate::init::AttribVarInitView>>, TableError>(
            TableError::NameOutOfBounds,
        ) <==> n != 0 && (ptr & 0x2F9F_FFFFu32) as int + 16 * n <= s.len() && exists|k: int|
            0 <= k < n && #[trigger] be_u32_at(s, (ptr & 0x2F9F_FFFFu32) as int + 16 * k) != 0 && (be_u32_at(
                s,
                (ptr & 0x2F9F_FFFFu32) as int + 16 * k,
            ) & 0x358F_FFFFu32) as int > s.len(),
        spec_attrib_vars(s, ptr, n) matches Ok(Some(es)) ==> {
            &&& n != 0
            &&& es.len() == n
            &&& forall|k: int|
                0 <= k < n ==> {
                    let e = (ptr & 0x2F9F_FFFFu32) as int + 16 * k;
                    &&& (#[trigger] es[k]).kind == be_u32_at(s, e + 4)
                    &&& es[k].array_count == be_u32_at(s, e + 8)
                    &&& es[k].location == be_u32_at(s, e + 12)
                    &&& names_string_at(s, be_u32_at(s, e), es[k].name)
                }
        },
{
    lemma_offsets(ptr);
    if let Ok(Some(es)) = spec_attrib_vars(s, ptr, n) {
        assert forall|k: int| 0 <= k < n implies names_string_at(
            s,
            be_u32_at(s, (ptr & 0x2F9F_FFFFu32) as int + 16 * k),
            (#[trigger] es[k]).name,
        ) by {
            let w = be_u32_at(s, data_offset(ptr) + 16 * k);
            lemma_offsets(w);
            lemma_name_read(s, w);
        }
    }
    assert forall|k: int| 0 <= k < n implies (be_u32_at(s, data_offset(ptr) + 16 * k) == 0
        || text_offset(be_u32_at(s, data_offset(ptr) + 16 * k)) <= s.len()) == !(#[trigger] be_u32_at(
        s,
        (ptr & 0x2F9F_FFFFu32) as int + 16 * k,
    ) != 0 && (be_u32_at(s, (ptr & 0x2F9F_FFFFu32) as int + 16 * k) & 0x358F_FFFFu32) as int
        > s.len()) by {
        lemma_offsets(be_u32_at(s, data_offset(ptr) + 16 * k));
    }
}

/// The uniform-block table: none for a null address; else `n` entries of 12 bytes
/// one after another from the table's offset, entry `k` being the words name,
/// location and size at 12 * k, 12 * k + 4 and + 8. It cannot be read exactly
/// where it runs past the payload, or an entry's name starts past it.
pub proof fn lemma_uniform_block_table(s: Seq<u8>, ptr: u32, n: u32)
    ensures
        ptr == 0 ==> spec_uniform_blocks(s, ptr, n) == Ok::<
            Option<Seq<crate::init::UniformBlockInitView>>,
            TableError,
        >(None),
        ptr != 0 && (ptr & 0x2F9F_FFFFu32) as int + 12 * n > s.len() ==> spec_uniform_blocks(s, ptr, n)
            == Err::<Option<Seq<crate::init::UniformBlockInitView>>, TableError>(
            TableError::TableOutOfBounds,
        ),
        spec_uniform_blocks(s, ptr, n) == Err::<
            Option<Seq<crate::init::UniformBlockInitView>>,
            TableError,
        >(TableError::NameOutOfBounds) <==> ptr != 0 && (ptr & 0x2F9F_FFFFu32) as int + 12 * n <= s.len()
            && exists|k: int|
            0 <= k < n && #[trigger] be_u32_at(s, (ptr & 0x2F9F_FFFFu32) as int + 12 * k) != 0 && (be_u32_at(
                s,
                (ptr & 0x2F9F_FFFFu32) as int + 12 * k,
            ) & 0x358F_FFFFu32) as int > s.len(),
        spec_uniform_blocks(s, ptr, n) matches Ok(Some(es)) ==> {
            &&& ptr != 0
            &&& es.len() == n
            &&& forall|k: int|
                0 <= k < n ==> {
                    let e = (ptr & 0x2F9F_FFFFu32) as int + 12 * k;
                    &&& (#[trigger] es[k]).location == be_u32_at(s, e + 4)
                    &&& es[k].size == be_u32_at(s, e + 8)
                    &&& names_string_at(s, be_u32_at(s, e), es[k].name)
                }
        },
{
    lemma_offsets(ptr);
    if let Ok(Some(es)) = spec_uniform_blocks(s, ptr, n) {
        assert forall|k: int| 0 <= k < n implies names_string_at(
            s,
            be_u32_at(s, (ptr & 0x2F9F_FFFFu32) as int + 12 * k),
            (#[trigger] es[k]).name,
        ) by {
            let w = be_u32_at(s, data_offset(ptr) + 12 * k);
            lemma_offsets(w);
            lemma_name_read(s, w);
        }
    }
    assert forall|k: int| 0 <= k < n implies (be_u32_at(s, data_offset(ptr) + 12 * k) == 0
        || text_offset(be_u32_at(s, data_offset(ptr) + 12 * k)) <= s.len()) == !(#[trigger] be_u32_at(
        s,
        (ptr & 0x2F9F_FFFFu32) as int + 12 * k,
    ) != 0 && (be_u32_at(s, (ptr & 0x2F9F_FFFFu32) as int + 12 * k) & 0x358F_FFFFu32) as int
        > s.len()) by {
        lemma_offsets(be_u32_at(s, data_offset(ptr) + 12 * k));
    }
}

/// A vertex shader header block `i` needs a vertex program block right after it
/// and a payload of at least 308 bytes; the shader it gives has that program
/// block's payload as its program, and takes its registers and counts from the
/// header payload's words at their fixed offsets.
pub proof fn lemma_vertex_at(bs: Seq<BlockView>, i: int)
    requires
        0 <= i < bs.len(),
    ensures
        i + 1 >= bs.len() ==> spec_vertex_at(bs, i) == Err::<crate::init::VertexShaderInitView, GatherError>(
            GatherError::MissingVertexProgram,
        ),
        i + 1 < bs.len() && bs[i + 1].kind != Type::VertexShaderProgram ==> spec_vertex_at(bs, i) == Err::<
            crate::init::VertexShaderInitView,
            GatherError,
        >(GatherError::UnexpectedVertexProgram(bs[i + 1].kind)),
        i + 1 < bs.len() && bs[i + 1].kind == Type::VertexShaderProgram && bs[i].data.len() < 308
            ==> spec_vertex_at(bs, i) == Err::<crate::init::VertexShaderInitView, GatherError>(
            GatherError::ShortVertexHeader,
        ),
        spec_vertex_at(bs, i) matches Ok(v) ==> {
            &&& i + 1 < bs.len()
            &&& bs[i + 1].kind == Type::VertexShaderProgram
            &&& bs[i].data.len() >= 308
            &&& v.shader_ptr == bs[i + 1].data
            &&& v.shader_size == be_u32_at(bs[i].data, 208)
            &&& v.num_uniform_blocks == be_u32_at(bs[i].data, 220)
            &&& v.num_uniforms == be_u32_at(bs[i].data, 228)
            &&& v.num_initial_values == be_u32_at(bs[i].data, 236)
            &&& v.num_loops == be_u32_at(bs[i].data, 244)
            &&& v.num_samplers == be_u32_at(bs[i].data, 252)
            &&& v.num_attribs == be_u32_at(bs[i].data, 260)
            &&& v.ring_itemsize == be_u32_at(bs[i].data, 268)
            &&& v.has_stream_output == be_u32_at(bs[i].data, 272) as i32
            &&& v.regs.len() == 52
            &&& forall|k: int| 0 <= k < 52 ==> #[trigger] v.regs[k] == be_u32_at(bs[i].data, 4 * k)
            &&& v.stream_out_vertex_stride.len() == 4
            &&& forall|k: int|
                0 <= k < 4 ==> #[trigger] v.stream_out_vertex_stride[k] == be_u32_at(bs[i].data, 276 + 4 * k)
        },
{
}

/// A pixel shader header block `i` needs a pixel program block right after it
/// and a payload of at least 232 bytes; the shader it gives has that program
/// block's payload as its program, and takes its registers and counts from the
/// header payload's words at their fixed offsets.
pub proof fn lemma_pixel_at(bs: Seq<BlockView>, i: int)
    requires
        0 <= i < bs.len(),
    ensures
        i + 1 >= bs.len() ==> spec_pixel_at(bs, i) == Err::<crate::init::PixelShaderInitView, GatherError>(
            GatherError::MissingPixelProgram,
        ),
        i + 1 < bs.len() && bs[i + 1].kind != Type::PixelShaderProgram ==> spec_pixel_at(bs, i) == Err::<
            crate::init::PixelShaderInitView,
            GatherError,
        >(GatherError::UnexpectedPixelProgram(bs[i + 1].kind)),
        i + 1 < bs.len() && bs[i + 1].kind == Type::PixelShaderProgram && bs[i].data.len() < 232
            ==> spec_pixel_at(bs, i) == Err::<crate::init::PixelShaderInitView, GatherError>(
            GatherError::ShortPixelHeader,
        ),
        spec_pixel_at(bs, i) matches Ok(v) ==> {
            &&& i + 1 < bs.len()
            &&& bs[i + 1].kind == Type::PixelShaderProgram
            &&& bs[i].data.len() >= 232
            &&& v.shader_ptr == bs[i + 1].data
            &&& v.shader_size == be_u32_at(bs[i].data, 164)
            &&& v.num_uniform_blocks == be_u32_at(bs[i].data, 176)
            &&& v.num_uniforms == be_u32_at(bs[i].data, 184)
            &&& v.num_initial_values == be_u32_at(bs[i].data, 192)
            &&& v.num_loops == be_u32_at(bs[i].data, 200)
            &&& v.num_samplers == be_u32_at(bs[i].data, 208)
            &&& v.regs.len() == 41
            &&& forall|k: int| 0 <= k < 41 ==> #[trigger] v.regs[k] == be_u32_at(bs[i].data, 4 * k)
        },
{
}

/// Which error a header gives: the first field, in file order, that is missing
/// or breaks its rule decides it.
pub proof fn lemma_header_errors(s: Seq<u8>, pos: int)
    requires
        0 <= pos,
    ensures
        (true) && s.len() < pos + 4 ==> Header::spec_error(s, pos) == Some(ParseError::UnexpectedEnd),
        (true) && pos + 4 <= s.len() && !(s.subrange(pos, pos + 4) == seq![0x47u8, 0x66u8, 0x78u8, 0x32u8]) ==> Header::spec_error(s, pos) == Some(ParseError::BadMagic),
        (pos + 4 <= s.len() && (s.subrange(pos, pos + 4) == seq![0x47u8, 0x66u8, 0x78u8, 0x32u8])) && s.len() < pos + 8 ==> Header::spec_error(s, pos) == Some(ParseError::UnexpectedEnd),
        (pos + 4 <= s.len() && (s.subrange(pos, pos + 4) == seq![0x47u8, 0x66u8, 0x78u8, 0x32u8])) && pos + 8 <= s.len() && !(be_u32_at(s, pos + 4) == 0x20) ==> Header::spec_error(s, pos) == Some(ParseError::BadSize),
        (pos + 4 <= s.len() && (s.subrange(pos, pos + 4) == seq![0x47u8, 0x66u8, 0x78u8, 0x32u8]) && pos + 8 <= s.len() && (be_u32_at(s, pos + 4) == 0x20)) && s.len() < pos + 16 ==> Header::spec_error(s, pos) == Some(ParseError::UnexpectedEnd),
        (pos + 4 <= s.len() && (s.subrange(pos, pos + 4) == seq![0x47u8, 0x66u8, 0x78u8, 0x32u8]) && pos + 8 <= s.len() && (be_u32_at(s, pos + 4) == 0x20)) && pos + 16 <= s.len() && !(be_u32_at(s, pos + 8) == 7 && be_u32_at(s, pos + 12) == 1) ==> Header::spec_error(s, pos) == Some(ParseError::BadVersion),
        (pos + 4 <= s.len() && (s.subrange(pos, pos + 4) == seq![0x47u8, 0x66u8, 0x78u8, 0x32u8]) && pos + 8 <= s.len() && (be_u32_at(s, pos + 4) == 0x20) && pos + 16 <= s.len() && (be_u32_at(s, pos + 8) == 7 && be_u32_at(s, pos + 12) == 1)) && s.len() < pos + 20 ==> Header::spec_error(s, pos) == Some(ParseError::UnexpectedEnd),
        (pos + 4 <= s.len() && (s.subrange(pos, pos + 4) == seq![0x47u8, 0x66u8, 0x78u8, 0x32u8]) && pos + 8 <= s.len() && (be_u32_at(s, pos + 4) == 0x20) && pos + 16 <= s.len() && (be_u32_at(s, pos + 8) == 7 && be_u32_at(s, pos + 12) == 1)) && pos + 20 <= s.len() && !(be_u32_at(s, pos + 16) == 2) ==> Header::spec_error(s, pos) == Some(ParseError::BadGpu),
        (pos + 4 <= s.len() && (s.subrange(pos, pos + 4) == seq![0x47u8, 0x66u8, 0x78u8, 0x32u8]) && pos + 8 <= s.len() && (be_u32_at(s, pos + 4) == 0x20) && pos + 16 <= s.len() && (be_u32_at(s, pos + 8) == 7 && be_u32_at(s, pos + 12) == 1) && pos + 20 <= s.len() && (be_u32_at(s, pos + 16) == 2)) && s.len() < pos + 24 ==> Header::spec_error(s, pos) == Some(ParseError::UnexpectedEnd),
        (pos + 4 <= s.len() && (s.subrange(pos, pos + 4) == seq![0x47u8, 0x66u8, 0x78u8, 0x32u8]) && pos + 8 <= s.len() && (be_u32_at(s, pos + 4) == 0x20) && pos + 16 <= s.len() && (be_u32_at(s, pos + 8) == 7 && be_u32_at(s, pos + 12) == 1) && pos + 20 <= s.len() && (be_u32_at(s, pos + 16) == 2)) && pos + 24 <= s.len() && !(be_u32_at(s, pos + 20) <= 1) ==> Header::spec_error(s, pos) == Some(ParseError::BadAlign),
        (pos + 4 <= s.len() && (s.subrange(pos, pos + 4) == seq![0x47u8, 0x66u8, 0x78u8, 0x32u8]) && pos + 8 <= s.len() && (be_u32_at(s, pos + 4) == 0x20) && pos + 16 <= s.len() && (be_u32_at(s, pos + 8) == 7 && be_u32_at(s, pos + 12) == 1) && pos + 20 <= s.len() && (be_u32_at(s, pos + 16) == 2) && pos + 24 <= s.len() && (be_u32_at(s, pos + 20) <= 1)) && s.len() < pos + 32 ==> Header::spec_error(s, pos) == Some(ParseError::UnexpectedEnd),
{
}

/// Which error a block gives: the first field, in file order, that is missing or
/// breaks its rule decides it; a short payload gives an unexpected end.
pub proof fn lemma_block_errors(s: Seq<u8>, pos: int)
    requires
        0 <= pos,
    ensures
        (true) && s.len() < pos + 4 ==> Block::spec_error(s, pos) == Some(ParseError::UnexpectedEnd),
        (true) && pos + 4 <= s.len() && !(s.subrange(pos, pos + 4) == seq![0x42u8, 0x4Cu8, 0x4Bu8, 0x7Bu8]) ==> Block::spec_error(s, pos) == Some(ParseError::BadMagic),
        (pos + 4 <= s.len() && (s.subrange(pos, pos + 4) == seq![0x42u8, 0x4Cu8, 0x4Bu8, 0x7Bu8])) && s.len() < pos + 8 ==> Block::spec_error(s, pos) == Some(ParseError::UnexpectedEnd),
        (pos + 4 <= s.len() && (s.subrange(pos, pos + 4) == seq![0x42u8, 0x4Cu8, 0x4Bu8, 0x7Bu8])) && pos + 8 <= s.len() && !(be_u32_at(s, pos + 4) == 0x20) ==> Block::spec_error(s, pos) == Some(ParseError::BadSize),
        (pos + 4 <= s.len() && (s.subrange(pos, pos + 4) == seq![0x42u8, 0x4Cu8, 0x4Bu8, 0x7Bu8]) && pos + 8 <= s.len() && (be_u32_at(s, pos + 4) == 0x20)) && s.len() < pos + 16 ==> Block::spec_error(s, pos) == Some(ParseError::UnexpectedEnd),
        (pos + 4 <= s.len() && (s.subrange(pos, pos + 4) == seq![0x42u8, 0x4Cu8, 0x4Bu8, 0x7Bu8]) && pos + 8 <= s.len() && (be_u32_at(s, pos + 4) == 0x20)) && pos + 16 <= s.len() && !(be_u32_at(s, pos + 8) == 1 && be_u32_at(s, pos + 12) == 0) ==> Block::spec_error(s, pos) == Some(ParseError::BadVersion),
        (pos + 4 <= s.len() && (s.subrange(pos, pos + 4) == seq![0x42u8, 0x4Cu8, 0x4Bu8, 0x7Bu8]) && pos + 8 <= s.len() && (be_u32_at(s, pos + 4) == 0x20) && pos + 16 <= s.len() && (be_u32_at(s, pos + 8) == 1 && be_u32_at(s, pos + 12) == 0)) && s.len() < pos + 20 ==> Block::spec_error(s, pos) == Some(ParseError::UnexpectedEnd),
        (pos + 4 <= s.len() && (s.subrange(pos, pos + 4) == seq![0x42u8, 0x4Cu8, 0x4Bu8, 0x7Bu8]) && pos + 8 <= s.len() && (be_u32_at(s, pos + 4) == 0x20) && pos + 16 <= s.len() && (be_u32_at(s, pos + 8) == 1 && be_u32_at(s, pos + 12) == 0)) && pos + 20 <= s.len() && !(Type::spec_from_code(be_u32_at(s, pos + 16)) is Some) ==> Block::spec_error(s, pos) == Some(ParseError::UnknownBlockType(be_u32_at(s, pos + 16))),
        (pos + 4 <= s.len() && (s.subrange(pos, pos + 4) == seq![0x42u8, 0x4Cu8, 0x4Bu8, 0x7Bu8]) && pos + 8 <= s.len() && (be_u32_at(s, pos + 4) == 0x20) && pos + 16 <= s.len() && (be_u32_at(s, pos + 8) == 1 && be_u32_at(s, pos + 12) == 0) && pos + 20 <= s.len() && (Type::spec_from_code(be_u32_at(s, pos + 16)) is Some)) && s.len() < pos + 32 + be_u32_at(s, pos + 20) ==> Block::spec_error(s, pos) == Some(ParseError::UnexpectedEnd),
{
}

/// Which error a relocation table gives: the first field, in file order, that
/// is missing or breaks its rule decides it.
pub proof fn lemma_relocation_errors(s: Seq<u8>, pos: int)
    requires
        0 <= pos,
    ensures
        (true) && s.len() < pos + 4 ==> RelocationInfo::spec_error(s, pos) == Some(ParseError::UnexpectedEnd),
        (true) && pos + 4 <= s.len() && !(s.subrange(pos, pos + 4) == seq![0x7Du8, 0x42u8, 0x4Cu8, 0x4Bu8]) ==> RelocationInfo::spec_error(s, pos) == Some(ParseError::BadMagic),
        (pos + 4 <= s.len() && (s.subrange(pos, pos + 4) == seq![0x7Du8, 0x42u8, 0x4Cu8, 0x4Bu8])) && s.len() < pos + 8 ==> RelocationInfo::spec_error(s, pos) == Some(ParseError::UnexpectedEnd),
        (pos + 4 <= s.len() && (s.subrange(pos, pos + 4) == seq![0x7Du8, 0x42u8, 0x4Cu8, 0x4Bu8])) && pos + 8 <= s.len() && !(be_u32_at(s, pos + 4) == 0x28) ==> RelocationInfo::spec_error(s, pos) == Some(ParseError::BadSize),
        (pos + 4 <= s.len() && (s.subrange(pos, pos + 4) == seq![0x7Du8, 0x42u8, 0x4Cu8, 0x4Bu8]) && pos + 8 <= s.len() && (be_u32_at(s, pos + 4) == 0x28)) && s.len() < pos + 12 ==> RelocationInfo::spec_error(s, pos) == Some(ParseError::UnexpectedEnd),
        (pos + 4 <= s.len() && (s.subrange(pos, pos + 4) == seq![0x7Du8, 0x42u8, 0x4Cu8, 0x4Bu8]) && pos + 8 <= s.len() && (be_u32_at(s, pos + 4) == 0x28)) && pos + 12 <= s.len() && !(be_u32_at(s, pos + 8) == 0) ==> RelocationInfo::spec_error(s, pos) == Some(ParseError::BadZero),
        (pos + 4 <= s.len() && (s.subrange(pos, pos + 4) == seq![0x7Du8, 0x42u8, 0x4Cu8, 0x4Bu8]) && pos + 8 <= s.len() && (be_u32_at(s, pos + 4) == 0x28) && pos + 12 <= s.len() && (be_u32_at(s, pos + 8) == 0)) && s.len() < pos + 20 ==> RelocationInfo::spec_error(s, pos) == Some(ParseError::UnexpectedEnd),
        (pos + 4 <= s.len() && (s.subrange(pos, pos + 4) == seq![0x7Du8, 0x42u8, 0x4Cu8, 0x4Bu8]) && pos + 8 <= s.len() && (be_u32_at(s, pos + 4) == 0x28) && pos + 12 <= s.len() && (be_u32_at(s, pos + 8) == 0)) && pos + 20 <= s.len() && !(be_u32_at(s, pos + 16) & 0xFFF0_0000 == 0xD060_0000) ==> RelocationInfo::spec_error(s, pos) == Some(ParseError::BadDataOffset),
        (pos + 4 <= s.len() && (s.subrange(pos, pos + 4) == seq![0x7Du8, 0x42u8, 0x4Cu8, 0x4Bu8]) && pos + 8 <= s.len() && (be_u32_at(s, pos + 4) == 0x28) && pos + 12 <= s.len() && (be_u32_at(s, pos + 8) == 0) && pos + 20 <= s.len() && (be_u32_at(s, pos + 16) & 0xFFF0_0000 == 0xD060_0000)) && s.len() < pos + 28 ==> RelocationInfo::spec_error(s, pos) == Some(ParseError::UnexpectedEnd),
        (pos + 4 <= s.len() && (s.subrange(pos, pos + 4) == seq![0x7Du8, 0x42u8, 0x4Cu8, 0x4Bu8]) && pos + 8 <= s.len() && (be_u32_at(s, pos + 4) == 0x28) && pos + 12 <= s.len() && (be_u32_at(s, pos + 8) == 0) && pos + 20 <= s.len() && (be_u32_at(s, pos + 16) & 0xFFF0_0000 == 0xD060_0000)) && pos + 28 <= s.len() && !(be_u32_at(s, pos + 24) & 0xFFF0_0000 == 0xD060_0000) ==> RelocationInfo::spec_error(s, pos) == Some(ParseError::BadTextOffset),
        (pos + 4 <= s.len() && (s.subrange(pos, pos + 4) == seq![0x7Du8, 0x42u8, 0x4Cu8, 0x4Bu8]) && pos + 8 <= s.len() && (be_u32_at(s, pos + 4) == 0x28) && pos + 12 <= s.len() && (be_u32_at(s, pos + 8) == 0) && pos + 20 <= s.len() && (be_u32_at(s, pos + 16) & 0xFFF0_0000 == 0xD060_0000) && pos + 28 <= s.len() && (be_u32_at(s, pos + 24) & 0xFFF0_0000 == 0xD060_0000)) && s.len() < pos + 32 ==> RelocationInfo::spec_error(s, pos) == Some(ParseError::UnexpectedEnd),
        (pos + 4 <= s.len() && (s.subrange(pos, pos + 4) == seq![0x7Du8, 0x42u8, 0x4Cu8, 0x4Bu8]) && pos + 8 <= s.len() && (be_u32_at(s, pos + 4) == 0x28) && pos + 12 <= s.len() && (be_u32_at(s, pos + 8) == 0) && pos + 20 <= s.len() && (be_u32_at(s, pos + 16) & 0xFFF0_0000 == 0xD060_0000) && pos + 28 <= s.len() && (be_u32_at(s, pos + 24) & 0xFFF0_0000 == 0xD060_0000)) && pos + 32 <= s.len() && !(be_u32_at(s, pos + 28) == 0) ==> RelocationInfo::spec_error(s, pos) == Some(ParseError::BadRelocationBase),
        (pos + 4 <= s.len() && (s.subrange(pos, pos + 4) == seq![0x7Du8, 0x42u8, 0x4Cu8, 0x4Bu8]) && pos + 8 <= s.len() && (be_u32_at(s, pos + 4) == 0x28) && pos + 12 <= s.len() && (be_u32_at(s, pos + 8) == 0) && pos + 20 <= s.len() && (be_u32_at(s, pos + 16) & 0xFFF0_0000 == 0xD060_0000) && pos + 28 <= s.len() && (be_u32_at(s, pos + 24) & 0xFFF0_0000 == 0xD060_0000) && pos + 32 <= s.len() && (be_u32_at(s, pos + 28) == 0)) && s.len() < pos + 40 ==> RelocationInfo::spec_error(s, pos) == Some(ParseError::UnexpectedEnd),
        (pos + 4 <= s.len() && (s.subrange(pos, pos + 4) == seq![0x7Du8, 0x42u8, 0x4Cu8, 0x4Bu8]) && pos + 8 <= s.len() && (be_u32_at(s, pos + 4) == 0x28) && pos + 12 <= s.len() && (be_u32_at(s, pos + 8) == 0) && pos + 20 <= s.len() && (be_u32_at(s, pos + 16) & 0xFFF0_0000 == 0xD060_0000) && pos + 28 <= s.len() && (be_u32_at(s, pos + 24) & 0xFFF0_0000 == 0xD060_0000) && pos + 32 <= s.len() && (be_u32_at(s, pos + 28) == 0)) && pos + 40 <= s.len() && !(be_u32_at(s, pos + 36) & 0xFFF0_0000 == 0xD060_0000) ==> RelocationInfo::spec_error(s, pos) == Some(ParseError::BadRelocationOffset),
{
}

} // verus!
