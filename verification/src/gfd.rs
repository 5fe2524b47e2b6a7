//! The GFD container: a file header, then blocks until an end-of-file block.
//! Every number in the file is a big-endian 32-bit word.

use vstd::prelude::*;
use crate::bytes::{be_u32_at, be_words, copy_range, read_u32_be, read_words};

verus! {

/// What a GFD file failed to satisfy when it was read.
#[derive(Clone, Copy, Debug, PartialEq, Eq, Structural)]
pub enum ParseError {
    /// The input ended inside a field.
    UnexpectedEnd,
    /// A header's or block's four magic bytes are not the expected ones.
    BadMagic,
    /// A header's or block's size field is not the size of its fixed part.
    BadSize,
    /// The version pair is not the supported one.
    BadVersion,
    /// The header names a GPU other than GX2.
    BadGpu,
    /// The header's alignment flag is neither 0 nor 1.
    BadAlign,
    /// A block's type word names no known block type.
    UnknownBlockType(u32),
    /// A relocation table's reserved word is not zero.
    BadZero,
    /// A relocation table's base is not zero.
    BadRelocationBase,
    /// A relocation table's data offset does not point into the data section.
    BadDataOffset,
    /// A relocation table's text offset does not point into the data section.
    BadTextOffset,
    /// A relocation table's own offset does not point into the data section.
    BadRelocationOffset,
}

/// The kind of a GFD block.
#[derive(Clone, Copy, Debug, PartialEq, Eq, Structural)]
pub enum Type {
    EndOfFile,
    Padding,
    VertexShaderHeader,
    VertexShaderProgram,
    PixelShaderHeader,
    PixelShaderProgram,
    GeometryShaderHeader,
    GeometryShaderProgram,
    GeometryShaderCopyProgram,
    TextureHeader,
    TextureImageData,
    TextureMipmapData,
    ComputeShaderHeader,
    ComputeShaderProgram,
}

impl Type {
    /// The word that stands for the block type in a file.
    pub open spec fn spec_code(self) -> u32 {
        match self {
            Type::EndOfFile => 0x01,
            Type::Padding => 0x02,
            Type::VertexShaderHeader => 0x03,
            Type::VertexShaderProgram => 0x05,
            Type::PixelShaderHeader => 0x06,
            Type::PixelShaderProgram => 0x07,
            Type::GeometryShaderHeader => 0x08,
            Type::GeometryShaderProgram => 0x09,
            Type::GeometryShaderCopyProgram => 0x10,
            Type::TextureHeader => 0x11,
            Type::TextureImageData => 0x12,
            Type::TextureMipmapData => 0x13,
            Type::ComputeShaderHeader => 0x14,
            Type::ComputeShaderProgram => 0x15,
        }
    }

    /// The block type that a word stands for, if any.
    pub open spec fn spec_from_code(v: u32) -> Option<Type> {
        if v == 0x01 {
            Some(Type::EndOfFile)
        } else if v == 0x02 {
            Some(Type::Padding)
        } else if v == 0x03 {
            Some(Type::VertexShaderHeader)
        } else if v == 0x05 {
            Some(Type::VertexShaderProgram)
        } else if v == 0x06 {
            Some(Type::PixelShaderHeader)
        } else if v == 0x07 {
            Some(Type::PixelShaderProgram)
        } else if v == 0x08 {
            Some(Type::GeometryShaderHeader)
        } else if v == 0x09 {
            Some(Type::GeometryShaderProgram)
        } else if v == 0x10 {
            Some(Type::GeometryShaderCopyProgram)
        } else if v == 0x11 {
            Some(Type::TextureHeader)
        } else if v == 0x12 {
            Some(Type::TextureImageData)
        } else if v == 0x13 {
            Some(Type::TextureMipmapData)
        } else if v == 0x14 {
            Some(Type::ComputeShaderHeader)
        } else if v == 0x15 {
            Some(Type::ComputeShaderProgram)
        } else {
            None
        }
    }

    /// The word that stands for this block type in a file.
    pub fn code(&self) -> (v: u32)
        ensures
            v == self.spec_code(),
    {
        match self {
            Type::EndOfFile => 0x01,
            Type::Padding => 0x02,
            Type::VertexShaderHeader => 0x03,
            Type::VertexShaderProgram => 0x05,
            Type::PixelShaderHeader => 0x06,
            Type::PixelShaderProgram => 0x07,
            Type::GeometryShaderHeader => 0x08,
            Type::GeometryShaderProgram => 0x09,
            Type::GeometryShaderCopyProgram => 0x10,
            Type::TextureHeader => 0x11,
            Type::TextureImageData => 0x12,
            Type::TextureMipmapData => 0x13,
            Type::ComputeShaderHeader => 0x14,
            Type::ComputeShaderProgram => 0x15,
        }
    }

    /// The block type that `v` stands for; `None` where it stands for none.
    pub fn from_code(v: u32) -> (t: Option<Type>)
        ensures
            t == Type::spec_from_code(v),
    {
        if v == 0x01 {
            Some(Type::EndOfFile)
        } else if v == 0x02 {
            Some(Type::Padding)
        } else if v == 0x03 {
            Some(Type::VertexShaderHeader)
        } else if v == 0x05 {
            Some(Type::VertexShaderProgram)
        } else if v == 0x06 {
            Some(Type::PixelShaderHeader)
        } else if v == 0x07 {
            Some(Type::PixelShaderProgram)
        } else if v == 0x08 {
            Some(Type::GeometryShaderHeader)
        } else if v == 0x09 {
            Some(Type::GeometryShaderProgram)
        } else if v == 0x10 {
            Some(Type::GeometryShaderCopyProgram)
        } else if v == 0x11 {
            Some(Type::TextureHeader)
        } else if v == 0x12 {
            Some(Type::TextureImageData)
        } else if v == 0x13 {
            Some(Type::TextureMipmapData)
        } else if v == 0x14 {
            Some(Type::ComputeShaderHeader)
        } else if v == 0x15 {
            Some(Type::ComputeShaderProgram)
        } else {
            None
        }
    }
}

/// Reading a block type back from the word that stands for it gives the same
/// type, and a word that stands for a type is that type's word.
pub proof fn lemma_type_code_roundtrip(t: Type, v: u32)
    ensures
        Type::spec_from_code(t.spec_code()) == Some(t),
        Type::spec_from_code(v) == Some(t) ==> t.spec_code() == v,
{
}

/// Four bytes at `pos` equal `m`.
pub open spec fn magic_at(s: Seq<u8>, pos: int, m: Seq<u8>) -> bool {
    s.subrange(pos, pos + 4) == m
}

/// The magic bytes of a file header, "Gfx2".
pub open spec fn header_magic() -> Seq<u8> {
    seq![0x47u8, 0x66u8, 0x78u8, 0x32u8]
}

/// The size in bytes of a file header.
pub const HEADER_SIZE: u32 = 0x20;

/// A GFD file header.
pub struct Header {
    pub magic: [u8; 4],
    pub size: u32,
    pub version: (u32, u32),
    pub gpu: u32,
    pub align: u32,
    pub reserved1: u32,
    pub reserved2: u32,
}

/// Whether `data` holds `n` bytes from `pos` on.
pub fn has_room(data: &[u8], pos: usize, n: usize) -> (b: bool)
    ensures
        b == (pos + n <= data@.len()),
        data@.len() <= usize::MAX,
{
    pos <= data.len() && n <= data.len() - pos
}

/// Whether the four bytes at `pos` equal `m0`..`m3`.
fn magic_is(data: &[u8], pos: usize, m0: u8, m1: u8, m2: u8, m3: u8) -> (b: bool)
    requires
        pos + 4 <= data@.len(),
    ensures
        b == magic_at(data@, pos as int, seq![m0, m1, m2, m3]),
{
    let b = data[pos] == m0 && data[pos + 1] == m1 && data[pos + 2] == m2 && data[pos + 3] == m3;
    assert(b == (data@.subrange(pos as int, pos + 4) =~= seq![m0, m1, m2, m3]));
    b
}

/// Copies the four bytes at `pos`.
fn read_magic(data: &[u8], pos: usize) -> (m: [u8; 4])
    requires
        pos + 4 <= data@.len(),
    ensures
        m@ == data@.subrange(pos as int, pos + 4),
{
    let m = [data[pos], data[pos + 1], data[pos + 2], data[pos + 3]];
    assert(m@ =~= data@.subrange(pos as int, pos + 4));
    m
}

impl Header {
    /// The first rule that the header at `pos` breaks, in the order in which its
    /// fields are read; `None` where it breaks none.
    pub open spec fn spec_error(s: Seq<u8>, pos: int) -> Option<ParseError> {
        if s.len() < pos + 4 {
            Some(ParseError::UnexpectedEnd)
        } else if !magic_at(s, pos, header_magic()) {
            Some(ParseError::BadMagic)
        } else if s.len() < pos + 8 {
            Some(ParseError::UnexpectedEnd)
        } else if be_u32_at(s, pos + 4) != HEADER_SIZE {
            Some(ParseError::BadSize)
        } else if s.len() < pos + 16 {
            Some(ParseError::UnexpectedEnd)
        } else if be_u32_at(s, pos + 8) != 7 || be_u32_at(s, pos + 12) != 1 {
            Some(ParseError::BadVersion)
        } else if s.len() < pos + 20 {
            Some(ParseError::UnexpectedEnd)
        } else if be_u32_at(s, pos + 16) != 2 {
            Some(ParseError::BadGpu)
        } else if s.len() < pos + 24 {
            Some(ParseError::UnexpectedEnd)
        } else if be_u32_at(s, pos + 20) != 0 && be_u32_at(s, pos + 20) != 1 {
            Some(ParseError::BadAlign)
        } else if s.len() < pos + 32 {
            Some(ParseError::UnexpectedEnd)
        } else {
            None
        }
    }

    /// Every field holds what the bytes at `pos` hold.
    pub open spec fn decoded_from(&self, s: Seq<u8>, pos: int) -> bool {
        &&& self.magic@ == s.subrange(pos, pos + 4)
        &&& self.size == be_u32_at(s, pos + 4)
        &&& self.version == (be_u32_at(s, pos + 8), be_u32_at(s, pos + 12))
        &&& self.gpu == be_u32_at(s, pos + 16)
        &&& self.align == be_u32_at(s, pos + 20)
        &&& self.reserved1 == be_u32_at(s, pos + 24)
        &&& self.reserved2 == be_u32_at(s, pos + 28)
    }

    /// A header of GX2 shaders in the supported version.
    pub open spec fn is_valid(&self) -> bool {
        &&& self.magic@ == header_magic()
        &&& self.size == HEADER_SIZE
        &&& self.version == (7u32, 1u32)
        &&& self.gpu == 2
        &&& (self.align == 0 || self.align == 1)
    }

    /// Reads the header that starts at `pos`.
    pub fn read_at(data: &[u8], pos: usize) -> (r: Result<Header, ParseError>)
        ensures
            match r {
                Ok(h) => Header::spec_error(data@, pos as int) is None && h.decoded_from(data@, pos as int)
                    && h.is_valid(),
                Err(e) => Header::spec_error(data@, pos as int) == Some(e),
            },
    {
        if !has_room(data, pos, 4) {
            return Err(ParseError::UnexpectedEnd);
        }
        if !magic_is(data, pos, 0x47, 0x66, 0x78, 0x32) {
            return Err(ParseError::BadMagic);
        }
        if !has_room(data, pos, 8) {
            return Err(ParseError::UnexpectedEnd);
        }
        let size = read_u32_be(data, pos + 4);
        if size != HEADER_SIZE {
            return Err(ParseError::BadSize);
        }
        if !has_room(data, pos, 16) {
            return Err(ParseError::UnexpectedEnd);
        }
        let major = read_u32_be(data, pos + 8);
        let minor = read_u32_be(data, pos + 12);
        if major != 7 || minor != 1 {
            return Err(ParseError::BadVersion);
        }
        if !has_room(data, pos, 20) {
            return Err(ParseError::UnexpectedEnd);
        }
        let gpu = read_u32_be(data, pos + 16);
        if gpu != 2 {
            return Err(ParseError::BadGpu);
        }
        if !has_room(data, pos, 24) {
            return Err(ParseError::UnexpectedEnd);
        }
        let align = read_u32_be(data, pos + 20);
        if align != 0 && align != 1 {
            return Err(ParseError::BadAlign);
        }
        if !has_room(data, pos, 32) {
            return Err(ParseError::UnexpectedEnd);
        }
        let magic = read_magic(data, pos);
        Ok(Header {
            magic,
            size,
            version: (major, minor),
            gpu,
            align,
            reserved1: read_u32_be(data, pos + 24),
            reserved2: read_u32_be(data, pos + 28),
        })
    }

    /// Reads the header at the start of `data`.
    pub fn read(data: &[u8]) -> (r: Result<Header, ParseError>)
        ensures
            match r {
                Ok(h) => Header::spec_error(data@, 0) is None && h.decoded_from(data@, 0) && h.is_valid(),
                Err(e) => Header::spec_error(data@, 0) == Some(e),
            },
    {
        Header::read_at(data, 0)
    }
}

/// The magic bytes of a block, "BLK{".
pub open spec fn block_magic() -> Seq<u8> {
    seq![0x42u8, 0x4Cu8, 0x4Bu8, 0x7Bu8]
}

/// The size in bytes of a block's fixed part, which its payload follows.
pub const BLOCK_HEADER_SIZE: u32 = 0x20;

/// One block of a GFD file: a fixed part and `len` bytes of payload.
pub struct Block {
    pub magic: [u8; 4],
    pub size: u32,
    pub version: (u32, u32),
    pub kind: Type,
    pub len: u32,
    pub id: u32,
    pub index: u32,
    pub data: Vec<u8>,
}

/// A block as a mathematical value.
pub struct BlockView {
    pub magic: Seq<u8>,
    pub size: u32,
    pub version: (u32, u32),
    pub kind: Type,
    pub len: u32,
    pub id: u32,
    pub index: u32,
    pub data: Seq<u8>,
}

impl View for Block {
    type V = BlockView;

    open spec fn view(&self) -> BlockView {
        BlockView {
            magic: self.magic@,
            size: self.size,
            version: self.version,
            kind: self.kind,
            len: self.len,
            id: self.id,
            index: self.index,
            data: self.data@,
        }
    }
}

impl BlockView {
    /// A block with the fixed magic, size and version whose payload is `len` bytes long.
    pub open spec fn is_valid(self) -> bool {
        &&& self.magic == block_magic()
        &&& self.size == BLOCK_HEADER_SIZE
        &&& self.version == (1u32, 0u32)
        &&& self.data.len() == self.len
    }
}

impl Block {
    /// Base of the text section in the addresses that a shader header holds.
    pub const TEXT: u32 = 0xCA70_0000;

    /// Base of the data section in the addresses that a shader header holds.
    pub const DATA: u32 = 0xD060_0000;

    /// The first rule that the block at `pos` breaks, in the order in which its
    /// fields are read; `None` where it breaks none.
    pub open spec fn spec_error(s: Seq<u8>, pos: int) -> Option<ParseError> {
        if s.len() < pos + 4 {
            Some(ParseError::UnexpectedEnd)
        } else if !magic_at(s, pos, block_magic()) {
            Some(ParseError::BadMagic)
        } else if s.len() < pos + 8 {
            Some(ParseError::UnexpectedEnd)
        } else if be_u32_at(s, pos + 4) != BLOCK_HEADER_SIZE {
            Some(ParseError::BadSize)
        } else if s.len() < pos + 16 {
            Some(ParseError::UnexpectedEnd)
        } else if be_u32_at(s, pos + 8) != 1 || be_u32_at(s, pos + 12) != 0 {
            Some(ParseError::BadVersion)
        } else if s.len() < pos + 20 {
            Some(ParseError::UnexpectedEnd)
        } else if Type::spec_from_code(be_u32_at(s, pos + 16)) is None {
            Some(ParseError::UnknownBlockType(be_u32_at(s, pos + 16)))
        } else if s.len() < pos + 32 + be_u32_at(s, pos + 20) {
            Some(ParseError::UnexpectedEnd)
        } else {
            None
        }
    }

    /// The block that the bytes at `pos` hold, where they hold one.
    pub open spec fn spec_at(s: Seq<u8>, pos: int) -> BlockView {
        let len = be_u32_at(s, pos + 20);
        BlockView {
            magic: s.subrange(pos, pos + 4),
            size: be_u32_at(s, pos + 4),
            version: (be_u32_at(s, pos + 8), be_u32_at(s, pos + 12)),
            kind: Type::spec_from_code(be_u32_at(s, pos + 16)).unwrap(),
            len,
            id: be_u32_at(s, pos + 24),
            index: be_u32_at(s, pos + 28),
            data: s.subrange(pos + 32, pos + 32 + len),
        }
    }

    /// Reads the block that starts at `pos`, and gives the position just after it.
    pub fn read_at(data: &[u8], pos: usize) -> (r: Result<(Block, usize), ParseError>)
        ensures
            match r {
                Ok((b, end)) => {
                    &&& Block::spec_error(data@, pos as int) is None
                    &&& b@ == Block::spec_at(data@, pos as int)
                    &&& b@.is_valid()
                    &&& end == pos + BLOCK_HEADER_SIZE + b.len
                },
                Err(e) => Block::spec_error(data@, pos as int) == Some(e),
            },
    {
        if !has_room(data, pos, 4) {
            return Err(ParseError::UnexpectedEnd);
        }
        if !magic_is(data, pos, 0x42, 0x4C, 0x4B, 0x7B) {
            return Err(ParseError::BadMagic);
        }
        if !has_room(data, pos, 8) {
            return Err(ParseError::UnexpectedEnd);
        }
        let size = read_u32_be(data, pos + 4);
        if size != BLOCK_HEADER_SIZE {
            return Err(ParseError::BadSize);
        }
        if !has_room(data, pos, 16) {
            return Err(ParseError::UnexpectedEnd);
        }
        let major = read_u32_be(data, pos + 8);
        let minor = read_u32_be(data, pos + 12);
        if major != 1 || minor != 0 {
            return Err(ParseError::BadVersion);
        }
        if !has_room(data, pos, 20) {
            return Err(ParseError::UnexpectedEnd);
        }
        let code = read_u32_be(data, pos + 16);
        let kind = match Type::from_code(code) {
            Some(t) => t,
            None => return Err(ParseError::UnknownBlockType(code)),
        };
        if !has_room(data, pos, 32) {
            return Err(ParseError::UnexpectedEnd);
        }
        let len = read_u32_be(data, pos + 20);
        if !has_room(data, pos + 32, len as usize) {
            return Err(ParseError::UnexpectedEnd);
        }
        let start = pos + 32;
        let end = start + len as usize;
        let payload = copy_range(data, start, end);
        let b = Block {
            magic: read_magic(data, pos),
            size,
            version: (major, minor),
            kind,
            len,
            id: read_u32_be(data, pos + 24),
            index: read_u32_be(data, pos + 28),
            data: payload,
        };
        assert(b@.magic =~= block_magic());
        Ok((b, end))
    }
}

/// The blocks that follow position `pos`: blocks are read one after another up to
/// and including the first end-of-file block; the first block that cannot be read
/// makes the whole sequence fail.
pub open spec fn spec_blocks_from(s: Seq<u8>, pos: int) -> Result<Seq<BlockView>, ParseError>
    decreases s.len() - pos,
{
    match Block::spec_error(s, pos) {
        Some(e) => Err(e),
        None => {
            let b = Block::spec_at(s, pos);
            if b.kind == Type::EndOfFile {
                Ok(seq![b])
            } else if pos + BLOCK_HEADER_SIZE + b.len <= s.len() {
                match spec_blocks_from(s, pos + BLOCK_HEADER_SIZE + b.len) {
                    Ok(rest) => Ok(seq![b] + rest),
                    Err(e) => Err(e),
                }
            } else {
                Err(ParseError::UnexpectedEnd)
            }
        },
    }
}

/// `blocks` followed by what `rest` holds, or the error of `rest`.
pub open spec fn prepend_blocks(blocks: Seq<BlockView>, rest: Result<Seq<BlockView>, ParseError>) -> Result<
    Seq<BlockView>,
    ParseError,
> {
    match rest {
        Ok(r) => Ok(blocks + r),
        Err(e) => Err(e),
    }
}

/// Each block of a sequence that reading produced is valid, and only its last
/// block is an end-of-file block.
pub open spec fn well_terminated(bs: Seq<BlockView>) -> bool {
    &&& bs.len() > 0
    &&& bs.last().kind == Type::EndOfFile
    &&& forall|i: int| 0 <= i < bs.len() - 1 ==> bs[i].kind != Type::EndOfFile
    &&& forall|i: int| 0 <= i < bs.len() ==> (#[trigger] bs[i]).is_valid()
}

/// Whatever sequence of blocks reading gives is well terminated.
pub proof fn lemma_blocks_well_terminated(s: Seq<u8>, pos: int)
    requires
        0 <= pos,
        spec_blocks_from(s, pos) is Ok,
    ensures
        well_terminated(spec_blocks_from(s, pos)->Ok_0),
    decreases s.len() - pos,
{
    let b = Block::spec_at(s, pos);
    if b.kind != Type::EndOfFile {
        let next = pos + BLOCK_HEADER_SIZE + b.len;
        lemma_blocks_well_terminated(s, next);
        let rest = spec_blocks_from(s, next)->Ok_0;
        let all = seq![b] + rest;
        assert(all.last() == rest.last());
        assert forall|i: int| 0 <= i < all.len() - 1 implies all[i].kind != Type::EndOfFile by {
            if i > 0 {
                assert(all[i] == rest[i - 1]);
            }
        }
        assert forall|i: int| 0 <= i < all.len() implies (#[trigger] all[i]).is_valid() by {
            if i > 0 {
                assert(all[i] == rest[i - 1]);
            } else {
                assert(b.magic =~= block_magic());
            }
        }
    } else {
        assert(b.magic =~= block_magic());
    }
}

/// Bytes after the end-of-file block are never looked at: appending bytes to a
/// sequence of blocks that can be read gives the same blocks.
pub proof fn lemma_blocks_ignore_trailing(s: Seq<u8>, t: Seq<u8>, pos: int)
    requires
        0 <= pos,
        spec_blocks_from(s, pos) is Ok,
    ensures
        spec_blocks_from(s + t, pos) == spec_blocks_from(s, pos),
    decreases s.len() - pos,
{
    let st = s + t;
    let len = be_u32_at(s, pos + 20);
    assert forall|i: int| 0 <= i < s.len() implies st[i] == s[i] by {}
    assert(be_u32_at(st, pos + 4) == be_u32_at(s, pos + 4));
    assert(be_u32_at(st, pos + 8) == be_u32_at(s, pos + 8));
    assert(be_u32_at(st, pos + 12) == be_u32_at(s, pos + 12));
    assert(be_u32_at(st, pos + 16) == be_u32_at(s, pos + 16));
    assert(be_u32_at(st, pos + 20) == len);
    assert(be_u32_at(st, pos + 24) == be_u32_at(s, pos + 24));
    assert(be_u32_at(st, pos + 28) == be_u32_at(s, pos + 28));
    assert(st.subrange(pos, pos + 4) =~= s.subrange(pos, pos + 4));
    assert(st.subrange(pos + 32, pos + 32 + len) =~= s.subrange(pos + 32, pos + 32 + len));
    assert(Block::spec_error(st, pos) == Block::spec_error(s, pos));
    assert(Block::spec_at(st, pos) == Block::spec_at(s, pos));
    if Block::spec_at(s, pos).kind != Type::EndOfFile {
        lemma_blocks_ignore_trailing(s, t, pos + BLOCK_HEADER_SIZE + len);
    }
}

/// A whole GFD file.
pub struct Gfd {
    pub header: Header,
    pub blocks: Vec<Block>,
}

impl Gfd {
    /// The blocks as mathematical values.
    pub open spec fn blocks_view(&self) -> Seq<BlockView> {
        Seq::new(self.blocks@.len(), |i: int| self.blocks@[i]@)
    }

    /// The first rule that `s` breaks as a GFD file; `None` where it breaks none.
    pub open spec fn spec_error(s: Seq<u8>) -> Option<ParseError> {
        match Header::spec_error(s, 0) {
            Some(e) => Some(e),
            None => match spec_blocks_from(s, HEADER_SIZE as int) {
                Ok(_) => None,
                Err(e) => Some(e),
            },
        }
    }

    /// Reads a GFD file: its header, then blocks up to and including the first
    /// end-of-file block. Bytes after that block are not read.
    pub fn read(data: &[u8]) -> (r: Result<Gfd, ParseError>)
        ensures
            match r {
                Ok(g) => {
                    &&& Gfd::spec_error(data@) is None
                    &&& g.header.decoded_from(data@, 0)
                    &&& g.header.is_valid()
                    &&& spec_blocks_from(data@, HEADER_SIZE as int) == Ok::<Seq<BlockView>, ParseError>(
                        g.blocks_view(),
                    )
                    &&& well_terminated(g.blocks_view())
                },
                Err(e) => Gfd::spec_error(data@) == Some(e),
            },
    {
        let header = match Header::read(data) {
            Ok(h) => h,
            Err(e) => return Err(e),
        };
        let mut blocks: Vec<Block> = Vec::new();
        let mut pos: usize = 32;
        let ghost s = data@;
        loop
            invariant
                header.decoded_from(s, 0),
                header.is_valid(),
                Header::spec_error(s, 0) is None,
                s == data@,
                pos <= s.len(),
                spec_blocks_from(s, HEADER_SIZE as int) == prepend_blocks(
                    Seq::new(blocks@.len(), |i: int| blocks@[i]@),
                    spec_blocks_from(s, pos as int),
                ),
            decreases s.len() - pos,
        {
            let ghost before = Seq::new(blocks@.len(), |i: int| blocks@[i]@);
            match Block::read_at(data, pos) {
                Err(e) => {
                    return Err(e);
                },
                Ok((b, end)) => {
                    let done = b.kind == Type::EndOfFile;
                    let ghost bv = b@;
                    blocks.push(b);
                    let ghost after = Seq::new(blocks@.len(), |i: int| blocks@[i]@);
                    assert(after =~= before + seq![bv]);
                    if done {
                        let g = Gfd { header, blocks };
                        assert(g.blocks_view() =~= after);
                        proof {
                            lemma_blocks_well_terminated(s, HEADER_SIZE as int);
                        }
                        return Ok(g);
                    }
                    assert(before + (seq![bv] + spec_blocks_from(s, end as int)->Ok_0) =~= after
                        + spec_blocks_from(s, end as int)->Ok_0);
                    pos = end;
                },
            }
        }
    }
}

/// The magic bytes of a relocation table, "}BLK".
pub open spec fn relocation_magic() -> Seq<u8> {
    seq![0x7Du8, 0x42u8, 0x4Cu8, 0x4Bu8]
}

/// The size in bytes of a relocation table.
pub const RELOCATION_INFO_SIZE: u32 = 0x28;

/// Mask of the section bits of an address.
pub const SECTION_MASK: u32 = 0xFFF0_0000;

/// Whether address `a` points into the data section.
pub open spec fn in_data_section(a: u32) -> bool {
    a & SECTION_MASK == Block::DATA
}

/// The relocation table that ends a shader header's payload.
pub struct RelocationInfo {
    pub magic: [u8; 4],
    pub size: u32,
    pub zero: u32,
    pub data_size: u32,
    pub data_offset: u32,
    pub text_size: u32,
    pub text_offset: u32,
    pub relo_base: u32,
    pub relo_count: u32,
    pub relo_offset: u32,
}

impl RelocationInfo {
    /// The first rule that the table at `pos` breaks, in the order in which its
    /// fields are read; `None` where it breaks none.
    pub open spec fn spec_error(s: Seq<u8>, pos: int) -> Option<ParseError> {
        if s.len() < pos + 4 {
            Some(ParseError::UnexpectedEnd)
        } else if !magic_at(s, pos, relocation_magic()) {
            Some(ParseError::BadMagic)
        } else if s.len() < pos + 8 {
            Some(ParseError::UnexpectedEnd)
        } else if be_u32_at(s, pos + 4) != RELOCATION_INFO_SIZE {
            Some(ParseError::BadSize)
        } else if s.len() < pos + 12 {
            Some(ParseError::UnexpectedEnd)
        } else if be_u32_at(s, pos + 8) != 0 {
            Some(ParseError::BadZero)
        } else if s.len() < pos + 20 {
            Some(ParseError::UnexpectedEnd)
        } else if !in_data_section(be_u32_at(s, pos + 16)) {
            Some(ParseError::BadDataOffset)
        } else if s.len() < pos + 28 {
            Some(ParseError::UnexpectedEnd)
        } else if !in_data_section(be_u32_at(s, pos + 24)) {
            Some(ParseError::BadTextOffset)
        } else if s.len() < pos + 32 {
            Some(ParseError::UnexpectedEnd)
        } else if be_u32_at(s, pos + 28) != 0 {
            Some(ParseError::BadRelocationBase)
        } else if s.len() < pos + 40 {
            Some(ParseError::UnexpectedEnd)
        } else if !in_data_section(be_u32_at(s, pos + 36)) {
            Some(ParseError::BadRelocationOffset)
        } else {
            None
        }
    }

    /// Every field holds what the bytes at `pos` hold.
    pub open spec fn decoded_from(&self, s: Seq<u8>, pos: int) -> bool {
        &&& self.magic@ == s.subrange(pos, pos + 4)
        &&& self.size == be_u32_at(s, pos + 4)
        &&& self.zero == be_u32_at(s, pos + 8)
        &&& self.data_size == be_u32_at(s, pos + 12)
        &&& self.data_offset == be_u32_at(s, pos + 16)
        &&& self.text_size == be_u32_at(s, pos + 20)
        &&& self.text_offset == be_u32_at(s, pos + 24)
        &&& self.relo_base == be_u32_at(s, pos + 28)
        &&& self.relo_count == be_u32_at(s, pos + 32)
        &&& self.relo_offset == be_u32_at(s, pos + 36)
    }

    /// Reads the relocation table that starts at `pos`.
    pub fn read_at(data: &[u8], pos: usize) -> (r: Result<RelocationInfo, ParseError>)
        ensures
            match r {
                Ok(t) => RelocationInfo::spec_error(data@, pos as int) is None && t.decoded_from(
                    data@,
                    pos as int,
                ),
                Err(e) => RelocationInfo::spec_error(data@, pos as int) == Some(e),
            },
    {
        if !has_room(data, pos, 4) {
            return Err(ParseError::UnexpectedEnd);
        }
        if !magic_is(data, pos, 0x7D, 0x42, 0x4C, 0x4B) {
            return Err(ParseError::BadMagic);
        }
        if !has_room(data, pos, 8) {
            return Err(ParseError::UnexpectedEnd);
        }
        let size = read_u32_be(data, pos + 4);
        if size != RELOCATION_INFO_SIZE {
            return Err(ParseError::BadSize);
        }
        if !has_room(data, pos, 12) {
            return Err(ParseError::UnexpectedEnd);
        }
        let zero = read_u32_be(data, pos + 8);
        if zero != 0 {
            return Err(ParseError::BadZero);
        }
        if !has_room(data, pos, 20) {
            return Err(ParseError::UnexpectedEnd);
        }
        let data_offset = read_u32_be(data, pos + 16);
        if data_offset & SECTION_MASK != Block::DATA {
            return Err(ParseError::BadDataOffset);
        }
        if !has_room(data, pos, 28) {
            return Err(ParseError::UnexpectedEnd);
        }
        let text_offset = read_u32_be(data, pos + 24);
        if text_offset & SECTION_MASK != Block::DATA {
            return Err(ParseError::BadTextOffset);
        }
        if !has_room(data, pos, 32) {
            return Err(ParseError::UnexpectedEnd);
        }
        let relo_base = read_u32_be(data, pos + 28);
        if relo_base != 0 {
            return Err(ParseError::BadRelocationBase);
        }
        if !has_room(data, pos, 40) {
            return Err(ParseError::UnexpectedEnd);
        }
        let relo_offset = read_u32_be(data, pos + 36);
        if relo_offset & SECTION_MASK != Block::DATA {
            return Err(ParseError::BadRelocationOffset);
        }
        Ok(RelocationInfo {
            magic: read_magic(data, pos),
            size,
            zero,
            data_size: read_u32_be(data, pos + 12),
            data_offset,
            text_size: read_u32_be(data, pos + 20),
            text_offset,
            relo_base,
            relo_count: read_u32_be(data, pos + 32),
            relo_offset,
        })
    }
}

/// Reads `N` consecutive big-endian words that start at byte `off`.
fn read_word_array<const N: usize>(data: &[u8], off: usize) -> (a: [u32; N])
    requires
        off + 4 * N <= data@.len(),
    ensures
        a@ == be_words(data@, off as int, N as nat),
{
    let ws = read_words(data, off, N);
    let mut a: [u32; N] = [0u32; N];
    let mut i: usize = 0;
    while i < N
        invariant
            i <= N,
            ws@ == be_words(data@, off as int, N as nat),
            forall|j: int| 0 <= j < i ==> a@[j] == ws@[j],
        decreases N - i,
    {
        a[i] = ws[i];
        i = i + 1;
    }
    assert(a@ =~= ws@);
    a
}

/// The size in bytes of a GX2 vertex shader header.
pub const VERTEX_SHADER_SIZE: usize = 308;
/// A GX2 vertex shader header, as the payload of its header block starts with it.
pub struct VertexShader {
    pub regs: [u32; 52],
    pub shader_size: u32,
    pub shader_ptr: u32,
    pub shader_mode: u32,
    pub num_uniform_blocks: u32,
    pub uniform_blocks: u32,
    pub num_uniforms: u32,
    pub uniform_vars: u32,
    pub num_initial_values: u32,
    pub initial_values: u32,
    pub num_loops: u32,
    pub loop_vars: u32,
    pub num_samplers: u32,
    pub sampler_vars: u32,
    pub num_attribs: u32,
    pub attrib_vars: u32,
    pub ring_itemsize: u32,
    pub has_stream_output: u32,
    pub stream_out_vertex_stride: [u32; 4],
    pub program: [u32; 4],
}

impl VertexShader {
    /// The 77 words of the shader, in the order in which they are stored.
    pub open spec fn words(&self) -> Seq<u32> {
        self.regs@ + seq![
            self.shader_size,
            self.shader_ptr,
            self.shader_mode,
            self.num_uniform_blocks,
            self.uniform_blocks,
            self.num_uniforms,
            self.uniform_vars,
            self.num_initial_values,
            self.initial_values,
            self.num_loops,
            self.loop_vars,
            self.num_samplers,
            self.sampler_vars,
            self.num_attribs,
            self.attrib_vars,
            self.ring_itemsize,
            self.has_stream_output,
        ] + self.stream_out_vertex_stride@ + self.program@
    }

    /// Reads the shader from the first 308 bytes of `data`; more bytes are not read.
    pub fn read(data: &[u8]) -> (r: Result<VertexShader, ParseError>)
        ensures
            match r {
                Ok(v) => data@.len() >= VERTEX_SHADER_SIZE && v.words() == be_words(data@, 0, 77),
                Err(e) => data@.len() < VERTEX_SHADER_SIZE && e == ParseError::UnexpectedEnd,
            },
    {
        if data.len() < VERTEX_SHADER_SIZE {
            return Err(ParseError::UnexpectedEnd);
        }
        let v = VertexShader {
            regs: read_word_array(data, 0),
            shader_size: read_u32_be(data, 208),
            shader_ptr: read_u32_be(data, 212),
            shader_mode: read_u32_be(data, 216),
            num_uniform_blocks: read_u32_be(data, 220),
            uniform_blocks: read_u32_be(data, 224),
            num_uniforms: read_u32_be(data, 228),
            uniform_vars: read_u32_be(data, 232),
            num_initial_values: read_u32_be(data, 236),
            initial_values: read_u32_be(data, 240),
            num_loops: read_u32_be(data, 244),
            loop_vars: read_u32_be(data, 248),
            num_samplers: read_u32_be(data, 252),
            sampler_vars: read_u32_be(data, 256),
            num_attribs: read_u32_be(data, 260),
            attrib_vars: read_u32_be(data, 264),
            ring_itemsize: read_u32_be(data, 268),
            has_stream_output: read_u32_be(data, 272),
            stream_out_vertex_stride: read_word_array(data, 276),
            program: read_word_array(data, 292),
        };
        assert(v.words() =~= be_words(data@, 0, 77));
        Ok(v)
    }
}

/// The size in bytes of a GX2 pixel shader header.
pub const PIXEL_SHADER_SIZE: usize = 232;
/// A GX2 pixel shader header, as the payload of its header block starts with it.
pub struct PixelShader {
    pub regs: [u32; 41],
    pub shader_size: u32,
    pub shader_ptr: u32,
    pub shader_mode: u32,
    pub num_uniform_blocks: u32,
    pub uniform_blocks: u32,
    pub num_uniforms: u32,
    pub uniform_vars: u32,
    pub num_initial_values: u32,
    pub initial_values: u32,
    pub num_loops: u32,
    pub loop_vars: u32,
    pub num_samplers: u32,
    pub sampler_vars: u32,
    pub program: [u32; 4],
}

impl PixelShader {
    /// The 58 words of the shader, in the order in which they are stored.
    pub open spec fn words(&self) -> Seq<u32> {
        self.regs@ + seq![
            self.shader_size,
            self.shader_ptr,
            self.shader_mode,
            self.num_uniform_blocks,
            self.uniform_blocks,
            self.num_uniforms,
            self.uniform_vars,
            self.num_initial_values,
            self.initial_values,
            self.num_loops,
            self.loop_vars,
            self.num_samplers,
            self.sampler_vars,
        ] + self.program@
    }

    /// Reads the shader from the first 232 bytes of `data`; more bytes are not read.
    pub fn read(data: &[u8]) -> (r: Result<PixelShader, ParseError>)
        ensures
            match r {
                Ok(v) => data@.len() >= PIXEL_SHADER_SIZE && v.words() == be_words(data@, 0, 58),
                Err(e) => data@.len() < PIXEL_SHADER_SIZE && e == ParseError::UnexpectedEnd,
            },
    {
        if data.len() < PIXEL_SHADER_SIZE {
            return Err(ParseError::UnexpectedEnd);
        }
        let v = PixelShader {
            regs: read_word_array(data, 0),
            shader_size: read_u32_be(data, 164),
            shader_ptr: read_u32_be(data, 168),
            shader_mode: read_u32_be(data, 172),
            num_uniform_blocks: read_u32_be(data, 176),
            uniform_blocks: read_u32_be(data, 180),
            num_uniforms: read_u32_be(data, 184),
            uniform_vars: read_u32_be(data, 188),
            num_initial_values: read_u32_be(data, 192),
            initial_values: read_u32_be(data, 196),
            num_loops: read_u32_be(data, 200),
            loop_vars: read_u32_be(data, 204),
            num_samplers: read_u32_be(data, 208),
            sampler_vars: read_u32_be(data, 212),
            program: read_word_array(data, 216),
        };
        assert(v.words() =~= be_words(data@, 0, 58));
        Ok(v)
    }
}

/// A uniform block of a shader: the address of its name, its location and its size.
pub struct UniformBlock {
    pub name: u32,
    pub location: u32,
    pub size: u32,
}

impl UniformBlock {
    /// The size in bytes of one entry.
    pub const SIZE: usize = 12;

    /// Every field holds what the bytes at `pos` hold.
    pub open spec fn decoded_from(&self, s: Seq<u8>, pos: int) -> bool {
        &&& self.name == be_u32_at(s, pos + 0)
        &&& self.location == be_u32_at(s, pos + 4)
        &&& self.size == be_u32_at(s, pos + 8)
    }

    /// Reads the entry that starts at `pos`.
    pub fn read_at(data: &[u8], pos: usize) -> (r: Result<UniformBlock, ParseError>)
        ensures
            match r {
                Ok(v) => pos + 12 <= data@.len() && v.decoded_from(data@, pos as int),
                Err(e) => pos + 12 > data@.len() && e == ParseError::UnexpectedEnd,
            },
    {
        if !has_room(data, pos, 12) {
            return Err(ParseError::UnexpectedEnd);
        }
        Ok(UniformBlock {
            name: read_u32_be(data, pos + 0),
            location: read_u32_be(data, pos + 4),
            size: read_u32_be(data, pos + 8),
        })
    }
}

/// A uniform variable of a shader.
pub struct UniformVar {
    pub name: u32,
    pub kind: u32,
    pub array_count: u32,
    pub offset: u32,
    pub block_index: u32,
}

impl UniformVar {
    /// The size in bytes of one entry.
    pub const SIZE: usize = 20;

    /// Every field holds what the bytes at `pos` hold.
    pub open spec fn decoded_from(&self, s: Seq<u8>, pos: int) -> bool {
        &&& self.name == be_u32_at(s, pos + 0)
        &&& self.kind == be_u32_at(s, pos + 4)
        &&& self.array_count == be_u32_at(s, pos + 8)
        &&& self.offset == be_u32_at(s, pos + 12)
        &&& self.block_index == be_u32_at(s, pos + 16)
    }

    /// Reads the entry that starts at `pos`.
    pub fn read_at(data: &[u8], pos: usize) -> (r: Result<UniformVar, ParseError>)
        ensures
            match r {
                Ok(v) => pos + 20 <= data@.len() && v.decoded_from(data@, pos as int),
                Err(e) => pos + 20 > data@.len() && e == ParseError::UnexpectedEnd,
            },
    {
        if !has_room(data, pos, 20) {
            return Err(ParseError::UnexpectedEnd);
        }
        Ok(UniformVar {
            name: read_u32_be(data, pos + 0),
            kind: read_u32_be(data, pos + 4),
            array_count: read_u32_be(data, pos + 8),
            offset: read_u32_be(data, pos + 12),
            block_index: read_u32_be(data, pos + 16),
        })
    }
}

/// A loop variable of a shader.
pub struct LoopVar {
    pub offset: u32,
    pub value: u32,
}

impl LoopVar {
    /// The size in bytes of one entry.
    pub const SIZE: usize = 8;

    /// Every field holds what the bytes at `pos` hold.
    pub open spec fn decoded_from(&self, s: Seq<u8>, pos: int) -> bool {
        &&& self.offset == be_u32_at(s, pos + 0)
        &&& self.value == be_u32_at(s, pos + 4)
    }

    /// Reads the entry that starts at `pos`.
    pub fn read_at(data: &[u8], pos: usize) -> (r: Result<LoopVar, ParseError>)
        ensures
            match r {
                Ok(v) => pos + 8 <= data@.len() && v.decoded_from(data@, pos as int),
                Err(e) => pos + 8 > data@.len() && e == ParseError::UnexpectedEnd,
            },
    {
        if !has_room(data, pos, 8) {
            return Err(ParseError::UnexpectedEnd);
        }
        Ok(LoopVar {
            offset: read_u32_be(data, pos + 0),
            value: read_u32_be(data, pos + 4),
        })
    }
}

/// A sampler variable of a shader.
pub struct SamplerVar {
    pub name: u32,
    pub kind: u32,
    pub location: u32,
}

impl SamplerVar {
    /// The size in bytes of one entry.
    pub const SIZE: usize = 12;

    /// Every field holds what the bytes at `pos` hold.
    pub open spec fn decoded_from(&self, s: Seq<u8>, pos: int) -> bool {
        &&& self.name == be_u32_at(s, pos + 0)
        &&& self.kind == be_u32_at(s, pos + 4)
        &&& self.location == be_u32_at(s, pos + 8)
    }

    /// Reads the entry that starts at `pos`.
    pub fn read_at(data: &[u8], pos: usize) -> (r: Result<SamplerVar, ParseError>)
        ensures
            match r {
                Ok(v) => pos + 12 <= data@.len() && v.decoded_from(data@, pos as int),
                Err(e) => pos + 12 > data@.len() && e == ParseError::UnexpectedEnd,
            },
    {
        if !has_room(data, pos, 12) {
            return Err(ParseError::UnexpectedEnd);
        }
        Ok(SamplerVar {
            name: read_u32_be(data, pos + 0),
            kind: read_u32_be(data, pos + 4),
            location: read_u32_be(data, pos + 8),
        })
    }
}

/// An attribute variable of a vertex shader: the address of its name, its type,
/// its array count and its location.
pub struct AttribVar {
    pub name: u32,
    pub kind: u32,
    pub array_count: u32,
    pub location: u32,
}

impl AttribVar {
    /// The size in bytes of one entry.
    pub const SIZE: usize = 16;

    /// Every field holds what the bytes at `pos` hold.
    pub open spec fn decoded_from(&self, s: Seq<u8>, pos: int) -> bool {
        &&& self.name == be_u32_at(s, pos + 0)
        &&& self.kind == be_u32_at(s, pos + 4)
        &&& self.array_count == be_u32_at(s, pos + 8)
        &&& self.location == be_u32_at(s, pos + 12)
    }

    /// Reads the entry that starts at `pos`.
    pub fn read_at(data: &[u8], pos: usize) -> (r: Result<AttribVar, ParseError>)
        ensures
            match r {
                Ok(v) => pos + 16 <= data@.len() && v.decoded_from(data@, pos as int),
                Err(e) => pos + 16 > data@.len() && e == ParseError::UnexpectedEnd,
            },
    {
        if !has_room(data, pos, 16) {
            return Err(ParseError::UnexpectedEnd);
        }
        Ok(AttribVar {
            name: read_u32_be(data, pos + 0),
            kind: read_u32_be(data, pos + 4),
            array_count: read_u32_be(data, pos + 8),
            location: read_u32_be(data, pos + 12),
        })
    }
}

impl BlockView {
    /// The words of the vertex shader whose header this block holds; `None` where
    /// the block is not a vertex shader header.
    pub open spec fn spec_vertex_shader(self) -> Option<Seq<u32>> {
        if self.kind == Type::VertexShaderHeader {
            Some(be_words(self.data, 0, 77))
        } else {
            None
        }
    }

    /// The words of the pixel shader whose header this block holds; `None` where
    /// the block is not a pixel shader header.
    pub open spec fn spec_pixel_shader(self) -> Option<Seq<u32>> {
        if self.kind == Type::PixelShaderHeader {
            Some(be_words(self.data, 0, 58))
        } else {
            None
        }
    }
}

/// No block holds both a vertex shader and a pixel shader, and a block that is
/// neither kind of shader header holds neither.
pub proof fn lemma_shader_kinds_exclusive(b: BlockView)
    ensures
        !(b.spec_vertex_shader() is Some && b.spec_pixel_shader() is Some),
        b.kind != Type::VertexShaderHeader && b.kind != Type::PixelShaderHeader ==> b.spec_vertex_shader()
            is None && b.spec_pixel_shader() is None,
{
}

impl Block {
    /// The vertex shader whose header this block holds; `None` where the block is
    /// not a vertex shader header. The payload of such a block must hold at least
    /// the shader's words.
    pub fn vertex_shader(&self) -> (r: Option<VertexShader>)
        requires
            self.kind == Type::VertexShaderHeader ==> self.data@.len() >= VERTEX_SHADER_SIZE,
        ensures
            r is Some <==> self.kind == Type::VertexShaderHeader,
            r matches Some(v) ==> v.words() == be_words(self.data@, 0, 77),
            r matches Some(v) ==> self@.spec_vertex_shader() == Some(v.words()),
            r is None ==> self@.spec_vertex_shader() is None,
    {
        if self.kind != Type::VertexShaderHeader {
            None
        } else {
            match VertexShader::read(self.data.as_slice()) {
                Ok(v) => Some(v),
                Err(_) => None,
            }
        }
    }

    /// The pixel shader whose header this block holds; `None` where the block is
    /// not a pixel shader header. The payload of such a block must hold at least
    /// the shader's words.
    pub fn pixel_shader(&self) -> (r: Option<PixelShader>)
        requires
            self.kind == Type::PixelShaderHeader ==> self.data@.len() >= PIXEL_SHADER_SIZE,
        ensures
            r is Some <==> self.kind == Type::PixelShaderHeader,
            r matches Some(v) ==> v.words() == be_words(self.data@, 0, 58),
            r matches Some(v) ==> self@.spec_pixel_shader() == Some(v.words()),
            r is None ==> self@.spec_pixel_shader() is None,
    {
        if self.kind != Type::PixelShaderHeader {
            None
        } else {
            match PixelShader::read(self.data.as_slice()) {
                Ok(v) => Some(v),
                Err(_) => None,
            }
        }
    }
}


/// Bytes after a file's end-of-file block are never looked at: appending bytes to
/// a file that can be read gives the same header bytes and the same blocks.
pub proof fn lemma_gfd_ignore_trailing(s: Seq<u8>, t: Seq<u8>)
    requires
        Gfd::spec_error(s) is None,
    ensures
        Gfd::spec_error(s + t) is None,
        (s + t).subrange(0, HEADER_SIZE as int) == s.subrange(0, HEADER_SIZE as int),
        spec_blocks_from(s + t, HEADER_SIZE as int) == spec_blocks_from(s, HEADER_SIZE as int),
{
    let st = s + t;
    assert(st.subrange(0, 32) =~= s.subrange(0, 32));
    assert forall|i: int| 0 <= i < s.len() implies st[i] == s[i] by {}
    assert(st.subrange(0, 4) =~= s.subrange(0, 4));
    assert(be_u32_at(st, 4) == be_u32_at(s, 4));
    assert(be_u32_at(st, 8) == be_u32_at(s, 8));
    assert(be_u32_at(st, 12) == be_u32_at(s, 12));
    assert(be_u32_at(st, 16) == be_u32_at(s, 16));
    assert(be_u32_at(st, 20) == be_u32_at(s, 20));
    lemma_blocks_ignore_trailing(s, t, HEADER_SIZE as int);
}

} // verus!
