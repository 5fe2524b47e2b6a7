use cafe_shader::gfd::{
    Block, Gfd, Header, ParseError, PixelShader, RelocationInfo, Type, VertexShader,
    PIXEL_SHADER_SIZE, RELOCATION_INFO_SIZE, VERTEX_SHADER_SIZE,
};

fn be(v: u32) -> [u8; 4] {
    v.to_be_bytes()
}

fn header_bytes() -> Vec<u8> {
    let mut out = b"Gfx2".to_vec();
    for w in [0x20, 7, 1, 2, 0, 0, 0] {
        out.extend_from_slice(&be(w));
    }
    out
}

fn block_bytes(code: u32, payload: &[u8]) -> Vec<u8> {
    let mut out = b"BLK{".to_vec();
    for w in [0x20, 1, 0, code, payload.len() as u32, 0, 0] {
        out.extend_from_slice(&be(w));
    }
    out.extend_from_slice(payload);
    out
}

fn relocation_bytes(relo_count: u32, relo_offset: u32) -> Vec<u8> {
    let mut out = b"}BLK".to_vec();
    for w in [0x28, 0, 0x200, 0xD060_0000, 0, 0xD060_0000, 0, relo_count, 0xD060_0000 | relo_offset] {
        out.extend_from_slice(&be(w));
    }
    out
}

/// A vertex shader header payload: the shader's words, a patch table of
/// `offsets`, then a relocation table.
fn vertex_header_payload(shader_size: u32, offsets: &[u32]) -> Vec<u8> {
    let mut words = vec![0u32; 77];
    for (k, w) in words.iter_mut().enumerate().take(52) {
        *w = k as u32 + 0x100;
    }
    words[52] = shader_size;
    words[54] = 1;
    let mut out = Vec::new();
    for w in words {
        out.extend_from_slice(&be(w));
    }
    let table_start = out.len() as u32;
    for &o in offsets {
        out.extend_from_slice(&be(o));
    }
    out.extend(relocation_bytes(offsets.len() as u32, table_start));
    out
}

fn pixel_header_payload(shader_size: u32) -> Vec<u8> {
    let mut out = Vec::new();
    for k in 0..58u32 {
        let w = if k == 41 { shader_size } else { k };
        out.extend_from_slice(&be(w));
    }
    out
}

/// A file with a vertex shader and a pixel shader.
fn shader() -> Vec<u8> {
    let vprog = vec![0xAAu8; 0x40];
    let pprog = vec![0xBBu8; 0x20];
    let mut file = header_bytes();
    file.extend(block_bytes(3, &vertex_header_payload(vprog.len() as u32, &[0xD060_0010, 0, 0xCA70_0000])));
    file.extend(block_bytes(5, &vprog));
    file.extend(block_bytes(6, &pixel_header_payload(pprog.len() as u32)));
    file.extend(block_bytes(7, &pprog));
    file.extend(block_bytes(1, &[]));
    file
}

#[test]
fn header() {
    let file = shader();
    let _ = Header::read(&file).unwrap();
}

#[test]
fn gfd() {
    let file = shader();
    let gfd = Gfd::read(&file).unwrap();

    assert!(gfd.blocks.len() == 5);

    assert!(gfd.blocks[0].kind == Type::VertexShaderHeader);
    assert!(gfd.blocks[1].kind == Type::VertexShaderProgram);
    assert!(gfd.blocks[2].kind == Type::PixelShaderHeader);
    assert!(gfd.blocks[3].kind == Type::PixelShaderProgram);
    assert!(gfd.blocks[4].kind == Type::EndOfFile);
}

#[test]
fn vertex_shader() {
    let file = shader();
    let gfd = Gfd::read(&file).unwrap();

    let data = &gfd.blocks[0].data;
    let program = &gfd.blocks[1].data;

    let relo = RelocationInfo::read_at(data, data.len() - RELOCATION_INFO_SIZE as usize).unwrap();

    let shader = gfd.blocks[0].vertex_shader().unwrap();

    assert_eq!(shader.shader_size, program.len() as u32);

    let patch_table = {
        let start = (relo.relo_offset & 0x000F_FFFF) as usize;
        let end = start + (relo.relo_count * 4) as usize;
        &data[start..end]
    };

    let mut offsets = vec![];
    for chunk in patch_table.chunks_exact(4) {
        let offset = u32::from_be_bytes(chunk.try_into().unwrap());

        if offset == 0 {
            continue;
        }

        offsets.push(offset);
    }

    assert_eq!(offsets, vec![0xD060_0010, 0xCA70_0000]);
}

#[test]
fn pixel_shader() {
    let file = shader();
    let gfd = Gfd::read(&file).unwrap();

    let program = &gfd.blocks[1].data;

    let shader = gfd.blocks[0].vertex_shader().unwrap();

    assert_eq!(shader.shader_size, program.len() as u32);
}

#[test]
fn pixel_shader_of_pixel_header() {
    let file = shader();
    let gfd = Gfd::read(&file).unwrap();
    let shader = gfd.blocks[2].pixel_shader().unwrap();
    assert_eq!(shader.shader_size, gfd.blocks[3].data.len() as u32);
    assert_eq!(shader.regs[40], 40);
    assert_eq!(shader.program, [54, 55, 56, 57]);
    assert!(gfd.blocks[0].pixel_shader().is_none());
    assert!(gfd.blocks[2].vertex_shader().is_none());
}

#[test]
fn vertex_shader_fields() {
    let payload = vertex_header_payload(0x1234, &[]);
    let vs = VertexShader::read(&payload).unwrap();
    assert_eq!(vs.regs[0], 0x100);
    assert_eq!(vs.regs[51], 0x100 + 51);
    assert_eq!(vs.shader_size, 0x1234);
    assert_eq!(vs.shader_mode, 1);
    assert_eq!(vs.program, [0, 0, 0, 0]);
    assert_eq!(
        VertexShader::read(&payload[..VERTEX_SHADER_SIZE - 1]).err(),
        Some(ParseError::UnexpectedEnd)
    );
    assert_eq!(
        PixelShader::read(&payload[..PIXEL_SHADER_SIZE - 1]).err(),
        Some(ParseError::UnexpectedEnd)
    );
}

#[test]
fn trailing_bytes_after_end_are_not_read() {
    let mut file = shader();
    file.extend_from_slice(b"garbage");
    let gfd = Gfd::read(&file).unwrap();
    assert_eq!(gfd.blocks.len(), 5);
}

#[test]
fn header_errors() {
    let good = header_bytes();
    assert_eq!(Header::read(&good[..3]).err(), Some(ParseError::UnexpectedEnd));
    let mut bad = good.clone();
    bad[0] = b'g';
    assert_eq!(Header::read(&bad).err(), Some(ParseError::BadMagic));
    // The magic is checked before the length of the rest.
    assert_eq!(Header::read(&bad[..4]).err(), Some(ParseError::BadMagic));
    let mut bad = good.clone();
    bad[7] = 0x21;
    assert_eq!(Header::read(&bad).err(), Some(ParseError::BadSize));
    let mut bad = good.clone();
    bad[11] = 6;
    assert_eq!(Header::read(&bad).err(), Some(ParseError::BadVersion));
    let mut bad = good.clone();
    bad[15] = 0;
    assert_eq!(Header::read(&bad).err(), Some(ParseError::BadVersion));
    let mut bad = good.clone();
    bad[19] = 1;
    assert_eq!(Header::read(&bad).err(), Some(ParseError::BadGpu));
    let mut bad = good.clone();
    bad[23] = 2;
    assert_eq!(Header::read(&bad).err(), Some(ParseError::BadAlign));
    let mut ok = good.clone();
    ok[23] = 1;
    assert_eq!(Header::read(&ok).unwrap().align, 1);
    assert_eq!(Header::read(&good[..31]).err(), Some(ParseError::UnexpectedEnd));
    let h = Header::read(&good).unwrap();
    assert_eq!(h.magic, *b"Gfx2");
    assert_eq!(h.size, 0x20);
    assert_eq!(h.version, (7, 1));
    assert_eq!(h.gpu, 2);
}

#[test]
fn block_errors() {
    let good = block_bytes(2, &[1, 2, 3]);
    let (b, end) = Block::read_at(&good, 0).unwrap();
    assert_eq!(end, good.len());
    assert_eq!(b.kind, Type::Padding);
    assert_eq!(b.len, 3);
    assert_eq!(b.data, vec![1, 2, 3]);
    assert_eq!(Block::read_at(&good, 1).err(), Some(ParseError::BadMagic));
    let mut bad = good.clone();
    bad[7] = 0x1F;
    assert_eq!(Block::read_at(&bad, 0).err(), Some(ParseError::BadSize));
    let mut bad = good.clone();
    bad[15] = 1;
    assert_eq!(Block::read_at(&bad, 0).err(), Some(ParseError::BadVersion));
    let mut bad = good.clone();
    bad[19] = 4;
    assert_eq!(Block::read_at(&bad, 0).err(), Some(ParseError::UnknownBlockType(4)));
    assert_eq!(Block::read_at(&good[..good.len() - 1], 0).err(), Some(ParseError::UnexpectedEnd));
    assert_eq!(Block::read_at(&good, good.len()).err(), Some(ParseError::UnexpectedEnd));
}

#[test]
fn file_errors() {
    // No end-of-file block.
    let mut file = header_bytes();
    file.extend(block_bytes(2, &[0; 4]));
    assert_eq!(Gfd::read(&file).err(), Some(ParseError::UnexpectedEnd));
    // A bad block after good ones.
    let mut file = header_bytes();
    file.extend(block_bytes(2, &[0; 4]));
    file.extend(block_bytes(0x16, &[]));
    assert_eq!(Gfd::read(&file).err(), Some(ParseError::UnknownBlockType(0x16)));
    // A bad header.
    let mut file = shader();
    file[16] = 9;
    assert_eq!(Gfd::read(&file).err(), Some(ParseError::BadGpu));
}

#[test]
fn relocation_errors() {
    let good = relocation_bytes(2, 0x10);
    let r = RelocationInfo::read_at(&good, 0).unwrap();
    assert_eq!(r.relo_count, 2);
    assert_eq!(r.relo_offset, 0xD060_0010);
    assert_eq!(r.data_size, 0x200);
    let mut bad = good.clone();
    bad[0] = 0;
    assert_eq!(RelocationInfo::read_at(&bad, 0).err(), Some(ParseError::BadMagic));
    let mut bad = good.clone();
    bad[7] = 0x20;
    assert_eq!(RelocationInfo::read_at(&bad, 0).err(), Some(ParseError::BadSize));
    let mut bad = good.clone();
    bad[11] = 1;
    assert_eq!(RelocationInfo::read_at(&bad, 0).err(), Some(ParseError::BadZero));
    let mut bad = good.clone();
    bad[16] = 0xCA;
    assert_eq!(RelocationInfo::read_at(&bad, 0).err(), Some(ParseError::BadDataOffset));
    let mut bad = good.clone();
    bad[24] = 0xCA;
    assert_eq!(RelocationInfo::read_at(&bad, 0).err(), Some(ParseError::BadTextOffset));
    let mut bad = good.clone();
    bad[31] = 1;
    assert_eq!(RelocationInfo::read_at(&bad, 0).err(), Some(ParseError::BadRelocationBase));
    let mut bad = good.clone();
    bad[36] = 0;
    assert_eq!(RelocationInfo::read_at(&bad, 0).err(), Some(ParseError::BadRelocationOffset));
    assert_eq!(RelocationInfo::read_at(&good[..39], 0).err(), Some(ParseError::UnexpectedEnd));
}

#[test]
fn type_codes() {
    let all = [
        Type::EndOfFile,
        Type::Padding,
        Type::VertexShaderHeader,
        Type::VertexShaderProgram,
        Type::PixelShaderHeader,
        Type::PixelShaderProgram,
        Type::GeometryShaderHeader,
        Type::GeometryShaderProgram,
        Type::GeometryShaderCopyProgram,
        Type::TextureHeader,
        Type::TextureImageData,
        Type::TextureMipmapData,
        Type::ComputeShaderHeader,
        Type::ComputeShaderProgram,
    ];
    for t in all {
        assert_eq!(Type::from_code(t.code()), Some(t));
    }
    assert_eq!(Type::VertexShaderProgram.code(), 5);
    assert_eq!(Type::GeometryShaderCopyProgram.code(), 0x10);
    assert_eq!(Type::from_code(4), None);
    assert_eq!(Type::from_code(0), None);
    assert_eq!(Type::from_code(0x0A), None);
}

#[test]
fn write_then_read() {
    let file = shader();
    let gfd = Gfd::read(&file).unwrap();
    let bytes = gfd.to_bytes();
    assert_eq!(bytes, file);
    let mut longer = bytes.clone();
    longer.extend_from_slice(&[1, 2, 3]);
    let again = Gfd::read(&longer).unwrap();
    assert_eq!(again.blocks.len(), gfd.blocks.len());
    for (a, b) in again.blocks.iter().zip(gfd.blocks.iter()) {
        assert_eq!(a.kind, b.kind);
        assert_eq!(a.data, b.data);
    }
}
