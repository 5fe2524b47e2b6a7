use cafe_shader::bytes::read_c_str;
use cafe_shader::gfd::{Block, Gfd, Header, ParseError, PixelShader, Type, VertexShader};
use cafe_shader::init::{pixel_shader, vertex_shader, DescribeError, ShaderMode, TableError};
use cafe_shader::shaders::{collect_shaders, read_shaders, GatherError};

fn be(v: u32) -> [u8; 4] {
    v.to_be_bytes()
}

fn header_bytes() -> Vec<u8> {
    let mut out = b"Gfx2".to_vec();
    for w in [0x20, 7, 1, 2, 0, 0, 0] {
        out.extend_from_slice(&be(w));
    }
    out
}

fn block_bytes(code: u32, payload: &[u8]) -> Vec<u8> {
    let mut out = b"BLK{".to_vec();
    for w in [0x20, 1, 0, code, payload.len() as u32, 0, 0] {
        out.extend_from_slice(&be(w));
    }
    out.extend_from_slice(payload);
    out
}

const DATA: u32 = 0xD060_0000;
const TEXT: u32 = 0xCA70_0000;

/// The words of a vertex shader whose registers are 0x100 + k, with the given
/// changes, followed by a uniform-block table of two entries at 308, an
/// attribute table of one entry at 332 and names at 348 and 352; the last name
/// runs to the end of the payload.
fn payload(changes: &[(usize, u32)]) -> Vec<u8> {
    let mut words = vec![0u32; 77];
    for (k, w) in words.iter_mut().enumerate().take(52) {
        *w = k as u32 + 0x100;
    }
    words[52] = 0x40;
    words[54] = 3;
    words[55] = 2;
    words[56] = DATA | 308;
    words[65] = 1;
    words[66] = DATA | 332;
    words[67] = 7;
    words[68] = 0xFFFF_FFFF;
    words[69] = 9;
    for &(k, v) in changes {
        words[k] = v;
    }
    let mut out = Vec::new();
    for w in words {
        out.extend_from_slice(&be(w));
    }
    for w in [TEXT | 348, 1, 16, 0, 2, 32] {
        out.extend_from_slice(&be(w));
    }
    for w in [TEXT | 352, 0x10, 1, 5] {
        out.extend_from_slice(&be(w));
    }
    out.extend_from_slice(b"ub0\0aPos");
    out
}

#[test]
fn vertex_shader_init() {
    let data = payload(&[]);
    let program = vec![7u8; 0x40];
    let vs = VertexShader::read(&data).unwrap();
    let init = vertex_shader(&vs, &data, &program).unwrap();
    assert_eq!(init.shader_size, 0x40);
    assert_eq!(init.shader_ptr, program);
    assert_eq!(init.shader_mode, ShaderMode::Compute);
    assert_eq!(init.num_uniform_blocks, 2);
    let ub = init.uniform_blocks.unwrap();
    assert_eq!(ub.len(), 2);
    assert_eq!(ub[0].name, Some(b"ub0".to_vec()));
    assert_eq!((ub[0].location, ub[0].size), (1, 16));
    assert_eq!(ub[1].name, None);
    assert_eq!((ub[1].location, ub[1].size), (2, 32));
    let av = init.attrib_vars.unwrap();
    assert_eq!(av.len(), 1);
    assert_eq!(av[0].name, Some(b"aPos".to_vec()));
    assert_eq!((av[0].kind, av[0].array_count, av[0].location), (0x10, 1, 5));
    assert_eq!(init.ring_itemsize, 7);
    assert_eq!(init.has_stream_output, -1);
    assert_eq!(init.stream_out_vertex_stride, [9, 0, 0, 0]);
    assert_eq!(init.regs.sq_pgm_resources_vs, 0x100);
    assert_eq!(init.regs.num_spi_vs_out_id, 0x103);
    assert_eq!(init.regs.spi_vs_out_id[0], 0x104);
    assert_eq!(init.regs.spi_vs_out_id[9], 0x10D);
    assert_eq!(init.regs.pa_cl_vs_out_cntl, 0x10E);
    assert_eq!(init.regs.sq_vtx_semantic[0], 0x111);
    assert_eq!(init.regs.sq_vtx_semantic[31], 0x130);
    assert_eq!(init.regs.vgt_strmout_buffer_en, 0x131);
    assert_eq!(init.regs.vgt_hos_reuse_depth, 0x133);
}

#[test]
fn null_tables() {
    let data = payload(&[(56, 0), (65, 0)]);
    let vs = VertexShader::read(&data).unwrap();
    assert!(vs.uniform_blocks(&data).unwrap().is_none());
    assert!(vs.attrib_vars(&data).unwrap().is_none());
    // A null uniform-block address is not followed even where the count is not zero;
    // attributes are looked for by their count, not by their address.
    let data = payload(&[(66, 0), (65, 0)]);
    let vs = VertexShader::read(&data).unwrap();
    assert!(vs.attrib_vars(&data).unwrap().is_none());
}

#[test]
fn shader_modes() {
    for (word, mode) in [
        (0, ShaderMode::UniformRegister),
        (1, ShaderMode::UniformBlock),
        (2, ShaderMode::Geometry),
        (3, ShaderMode::Compute),
    ] {
        let data = payload(&[(54, word)]);
        let vs = VertexShader::read(&data).unwrap();
        assert_eq!(vs.shader_mode(), mode);
    }
    let data = payload(&[(54, 4)]);
    let vs = VertexShader::read(&data).unwrap();
    assert_eq!(vertex_shader(&vs, &data, &[]).err(), Some(DescribeError::InvalidShaderMode));
}

#[test]
fn table_errors() {
    let data = payload(&[(56, DATA | 340)]);
    let vs = VertexShader::read(&data).unwrap();
    assert_eq!(
        vertex_shader(&vs, &data, &[]).err(),
        Some(DescribeError::UniformBlocks(TableError::TableOutOfBounds))
    );
    let data = payload(&[(56, DATA | 0x1000), (55, 0)]);
    let vs = VertexShader::read(&data).unwrap();
    assert_eq!(vs.uniform_blocks(&data).err(), Some(TableError::TableOutOfBounds));
    let data = payload(&[(66, DATA | 344)]);
    let vs = VertexShader::read(&data).unwrap();
    assert_eq!(
        vertex_shader(&vs, &data, &[]).err(),
        Some(DescribeError::AttribVars(TableError::TableOutOfBounds))
    );
    // The uniform-block table decides before the attribute table.
    let data = payload(&[(56, DATA | 340), (66, DATA | 340)]);
    let vs = VertexShader::read(&data).unwrap();
    assert_eq!(
        vertex_shader(&vs, &data, &[]).err(),
        Some(DescribeError::UniformBlocks(TableError::TableOutOfBounds))
    );
    // A name address beyond the payload.
    let mut data = payload(&[]);
    data[308..312].copy_from_slice(&be(TEXT | 0x1000));
    let vs = VertexShader::read(&data).unwrap();
    assert_eq!(vs.uniform_blocks(&data).err(), Some(TableError::NameOutOfBounds));
    let mut data = payload(&[]);
    data[332..336].copy_from_slice(&be(TEXT | 357));
    let vs = VertexShader::read(&data).unwrap();
    assert_eq!(vs.attrib_vars(&data).err(), Some(TableError::NameOutOfBounds));
    // A name that starts right at the end is empty.
    data[332..336].copy_from_slice(&be(TEXT | 356));
    let av = vs.attrib_vars(&data).unwrap().unwrap();
    assert_eq!(av[0].name, Some(vec![]));
}

#[test]
fn c_strings() {
    let data = b"ab\0cd".to_vec();
    assert_eq!(read_c_str(&data, 0), b"ab".to_vec());
    assert_eq!(read_c_str(&data, 2), Vec::<u8>::new());
    assert_eq!(read_c_str(&data, 3), b"cd".to_vec());
    assert_eq!(read_c_str(&data, 5), Vec::<u8>::new());
}

fn file_of(blocks: &[(u32, Vec<u8>)]) -> Vec<u8> {
    let mut file = header_bytes();
    for (code, p) in blocks {
        file.extend(block_bytes(*code, p));
    }
    file
}

#[test]
fn gathers_shaders_in_order() {
    let file = file_of(&[
        (2, vec![0; 8]),
        (3, payload(&[(52, 1)])),
        (5, vec![1]),
        (6, vec![0; 232]),
        (7, vec![2]),
        (6, vec![0; 232]),
        (7, vec![3]),
        (0x11, vec![]),
        (3, payload(&[(52, 2)])),
        (5, vec![4, 4]),
        (6, vec![0; 232]),
        (7, vec![5]),
        (1, vec![]),
    ]);
    let shaders = read_shaders(&file).unwrap();
    assert_eq!(shaders.vertex.len(), 2);
    assert_eq!(shaders.pixel.len(), 3);
    assert_eq!(shaders.pixel[0].shader_ptr, vec![2]);
    assert_eq!(shaders.pixel[1].shader_ptr, vec![3]);
    assert_eq!(shaders.pixel[2].shader_ptr, vec![5]);
    assert_eq!(shaders.pixel[2].shader_mode, ShaderMode::UniformRegister);
    assert_eq!(shaders.vertex[0].shader_size, 1);
    assert_eq!(shaders.vertex[0].shader_ptr, vec![1]);
    assert_eq!(shaders.vertex[1].shader_size, 2);
    assert_eq!(shaders.vertex[1].shader_ptr, vec![4, 4]);
}

#[test]
fn gather_errors() {
    let file = file_of(&[(3, payload(&[])), (1, vec![])]);
    assert_eq!(
        read_shaders(&file).err(),
        Some(GatherError::UnexpectedVertexProgram(Type::EndOfFile))
    );
    let file = file_of(&[(3, vec![0; 16]), (5, vec![]), (1, vec![])]);
    assert_eq!(read_shaders(&file).err(), Some(GatherError::ShortVertexHeader));
    let file = file_of(&[(6, vec![]), (5, vec![]), (1, vec![])]);
    assert_eq!(
        read_shaders(&file).err(),
        Some(GatherError::UnexpectedPixelProgram(Type::VertexShaderProgram))
    );
    let file = file_of(&[(6, vec![0; 231]), (7, vec![]), (1, vec![])]);
    assert_eq!(read_shaders(&file).err(), Some(GatherError::ShortPixelHeader));
    let file = file_of(&[(6, pixel_payload(4)), (7, vec![]), (1, vec![])]);
    assert_eq!(
        read_shaders(&file).err(),
        Some(GatherError::PixelShader(DescribeError::InvalidShaderMode))
    );
    let file = file_of(&[(3, payload(&[(54, 9)])), (5, vec![]), (1, vec![])]);
    assert_eq!(
        read_shaders(&file).err(),
        Some(GatherError::VertexShader(DescribeError::InvalidShaderMode))
    );
    let file = file_of(&[(2, vec![])]);
    assert_eq!(read_shaders(&file).err(), Some(GatherError::Parse(ParseError::UnexpectedEnd)));
    // A program block on its own is passed over.
    let file = file_of(&[(5, vec![1]), (7, vec![1]), (1, vec![])]);
    let shaders = read_shaders(&file).unwrap();
    assert_eq!((shaders.vertex.len(), shaders.pixel.len()), (0, 0));
}

fn block(kind: Type, data: Vec<u8>) -> Block {
    Block {
        magic: *b"BLK{",
        size: 0x20,
        version: (1, 0),
        kind,
        len: data.len() as u32,
        id: 0,
        index: 0,
        data,
    }
}

#[test]
fn header_as_last_block() {
    let header = Header::read(&header_bytes()).unwrap();
    let gfd = Gfd { header, blocks: vec![block(Type::Padding, vec![]), block(Type::VertexShaderHeader, payload(&[]))] };
    assert_eq!(collect_shaders(&gfd).err(), Some(GatherError::MissingVertexProgram));
    let header = Header::read(&header_bytes()).unwrap();
    let gfd = Gfd { header, blocks: vec![block(Type::PixelShaderHeader, vec![])] };
    assert_eq!(collect_shaders(&gfd).err(), Some(GatherError::MissingPixelProgram));
}

/// A pixel shader header whose registers are 0x200 + k, with mode `mode`.
fn pixel_payload(mode: u32) -> Vec<u8> {
    let mut out = Vec::new();
    for k in 0..58u32 {
        let w = match k {
            0..=40 => 0x200 + k,
            41 => 0x20,
            43 => mode,
            _ => k,
        };
        out.extend_from_slice(&be(w));
    }
    out
}

#[test]
fn pixel_shader_init() {
    let data = pixel_payload(2);
    let ps = PixelShader::read(&data).unwrap();
    let program = vec![9u8; 0x20];
    let init = pixel_shader(&ps, &program).unwrap();
    assert_eq!(init.shader_size, 0x20);
    assert_eq!(init.shader_ptr, program);
    assert_eq!(init.shader_mode, ShaderMode::Geometry);
    assert_eq!(init.num_uniform_blocks, 44);
    assert_eq!(init.num_uniforms, 46);
    assert_eq!(init.num_initial_values, 48);
    assert_eq!(init.num_loops, 50);
    assert_eq!(init.num_samplers, 52);
    assert_eq!(init.regs.sq_pgm_resources_ps, 0x200);
    assert_eq!(init.regs.num_spi_ps_input_cntl, 0x204);
    assert_eq!(init.regs.spi_ps_input_cntls[0], 0x205);
    assert_eq!(init.regs.spi_ps_input_cntls[31], 0x224);
    assert_eq!(init.regs.cb_shader_mask, 0x225);
    assert_eq!(init.regs.spi_input_z, 0x228);
    let ps = PixelShader::read(&pixel_payload(4)).unwrap();
    assert_eq!(pixel_shader(&ps, &[]).err(), Some(DescribeError::InvalidShaderMode));
}

#[test]
fn inserted_blocks_change_nothing() {
    let pairs = [
        (3, payload(&[(52, 1)])),
        (5, vec![1]),
        (6, pixel_payload(0)),
        (7, vec![2]),
        (1, vec![]),
    ];
    let plain = read_shaders(&file_of(&pairs)).unwrap();
    let padded = read_shaders(&file_of(&[
        (2, vec![0; 4]),
        pairs[0].clone(),
        pairs[1].clone(),
        (0x11, vec![1, 2]),
        (5, vec![7]),
        (0x14, vec![]),
        pairs[2].clone(),
        pairs[3].clone(),
        (0x08, vec![3]),
        pairs[4].clone(),
    ]))
    .unwrap();
    assert_eq!(plain.vertex.len(), padded.vertex.len());
    assert_eq!(plain.pixel.len(), padded.pixel.len());
    assert_eq!(plain.vertex[0].shader_ptr, padded.vertex[0].shader_ptr);
    assert_eq!(plain.vertex[0].regs.sq_vtx_semantic, padded.vertex[0].regs.sq_vtx_semantic);
    assert_eq!(plain.pixel[0].shader_ptr, padded.pixel[0].shader_ptr);
    assert_eq!(plain.pixel[0].regs.spi_ps_input_cntls, padded.pixel[0].regs.spi_ps_input_cntls);
}

#[test]
fn shader_kinds_exclusive() {
    for kind in [Type::VertexShaderHeader, Type::PixelShaderHeader, Type::Padding, Type::VertexShaderProgram] {
        let b = block(kind, vec![0; 308]);
        let v = b.vertex_shader().is_some();
        let p = b.pixel_shader().is_some();
        assert!(!(v && p));
        assert_eq!(v, kind == Type::VertexShaderHeader);
        assert_eq!(p, kind == Type::PixelShaderHeader);
    }
}
