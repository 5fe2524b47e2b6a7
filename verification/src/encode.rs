//! Writing GFD files back out: every number as a big-endian word, every block
//! as its fixed part followed by its payload.

use vstd::prelude::*;
use crate::bytes::be_u32_at;
use crate::gfd::{
    lemma_type_code_roundtrip, spec_blocks_from, well_terminated, Block, BlockView, Gfd,
    Header, Type, BLOCK_HEADER_SIZE, HEADER_SIZE,
};

verus! {

/// The four bytes of `v`, most significant first.
pub open spec fn be_bytes(v: u32) -> Seq<u8> {
    seq![(v >> 24u32) as u8, (v >> 16u32) as u8, (v >> 8u32) as u8, v as u8]
}

/// The word that four bytes hold is the word they were written from.
pub proof fn lemma_be_bytes(s: Seq<u8>, i: int, v: u32)
    requires
        0 <= i,
        i + 4 <= s.len(),
        s.subrange(i, i + 4) == be_bytes(v),
    ensures
        be_u32_at(s, i) == v,
{
    assert(s[i] == s.subrange(i, i + 4)[0]);
    assert(s[i + 1] == s.subrange(i, i + 4)[1]);
    assert(s[i + 2] == s.subrange(i, i + 4)[2]);
    assert(s[i + 3] == s.subrange(i, i + 4)[3]);
    let b0 = (v >> 24u32) as u8;
    let b1 = (v >> 16u32) as u8;
    let b2 = (v >> 8u32) as u8;
    let b3 = v as u8;
    assert((b0 as u32) * 0x100_0000u32 + (b1 as u32) * 0x1_0000u32 + (b2 as u32) * 0x100u32 + (b3
        as u32) == v) by (bit_vector)
        requires
            b0 == (v >> 24u32) as u8,
            b1 == (v >> 16u32) as u8,
            b2 == (v >> 8u32) as u8,
            b3 == v as u8,
    ;
}

/// Appends the four bytes of `v`, most significant first.
pub fn push_u32_be(out: &mut Vec<u8>, v: u32)
    ensures
        final(out)@ == old(out)@ + be_bytes(v),
{
    out.push((v >> 24u32) as u8);
    out.push((v >> 16u32) as u8);
    out.push((v >> 8u32) as u8);
    out.push(v as u8);
    assert(out@ =~= old(out)@ + be_bytes(v));
}

impl Header {
    /// The bytes that a header is written as.
    pub open spec fn spec_bytes(&self) -> Seq<u8> {
        self.magic@ + be_bytes(self.size) + be_bytes(self.version.0) + be_bytes(self.version.1)
            + be_bytes(self.gpu) + be_bytes(self.align) + be_bytes(self.reserved1) + be_bytes(
            self.reserved2,
        )
    }

    /// Appends the bytes of the header.
    pub fn write_to(&self, out: &mut Vec<u8>)
        ensures
            final(out)@ == old(out)@ + self.spec_bytes(),
    {
        let ghost start = out@;
        out.push(self.magic[0]);
        out.push(self.magic[1]);
        out.push(self.magic[2]);
        out.push(self.magic[3]);
        assert(out@ =~= start + self.magic@);
        push_u32_be(out, self.size);
        push_u32_be(out, self.version.0);
        push_u32_be(out, self.version.1);
        push_u32_be(out, self.gpu);
        push_u32_be(out, self.align);
        push_u32_be(out, self.reserved1);
        push_u32_be(out, self.reserved2);
        assert(out@ =~= start + self.spec_bytes());
    }
}

impl BlockView {
    /// The bytes that a block is written as: its fixed part, then its whole payload.
    pub open spec fn spec_bytes(self) -> Seq<u8> {
        self.magic + be_bytes(self.size) + be_bytes(self.version.0) + be_bytes(self.version.1)
            + be_bytes(self.kind.spec_code()) + be_bytes(self.len) + be_bytes(self.id) + be_bytes(
            self.index,
        ) + self.data
    }
}

/// The bytes that a sequence of blocks is written as, one after another.
pub open spec fn blocks_bytes(bs: Seq<BlockView>) -> Seq<u8>
    decreases bs.len(),
{
    if bs.len() == 0 {
        seq![]
    } else {
        bs[0].spec_bytes() + blocks_bytes(bs.skip(1))
    }
}

impl Block {
    /// Appends the bytes of the block.
    pub fn write_to(&self, out: &mut Vec<u8>)
        ensures
            final(out)@ == old(out)@ + self@.spec_bytes(),
    {
        let ghost start = out@;
        out.push(self.magic[0]);
        out.push(self.magic[1]);
        out.push(self.magic[2]);
        out.push(self.magic[3]);
        assert(out@ =~= start + self.magic@);
        push_u32_be(out, self.size);
        push_u32_be(out, self.version.0);
        push_u32_be(out, self.version.1);
        push_u32_be(out, self.kind.code());
        push_u32_be(out, self.len);
        push_u32_be(out, self.id);
        push_u32_be(out, self.index);
        let ghost fixed = out@;
        let mut i: usize = 0;
        while i < self.data.len()
            invariant
                i <= self.data@.len(),
                out@ == fixed + self.data@.subrange(0, i as int),
            decreases self.data@.len() - i,
        {
            out.push(self.data[i]);
            i = i + 1;
            assert(out@ =~= fixed + self.data@.subrange(0, i as int));
        }
        assert(self.data@.subrange(0, self.data@.len() as int) =~= self.data@);
        assert(out@ =~= start + self@.spec_bytes());
    }
}

impl Gfd {
    /// The bytes that a whole file is written as.
    pub open spec fn spec_bytes(&self) -> Seq<u8> {
        self.header.spec_bytes() + blocks_bytes(self.blocks_view())
    }

    /// Writes the whole file: its header, then its blocks in order.
    pub fn to_bytes(&self) -> (r: Vec<u8>)
        ensures
            r@ == self.spec_bytes(),
    {
        let mut out: Vec<u8> = Vec::new();
        self.header.write_to(&mut out);
        let n = self.blocks.len();
        let mut i: usize = 0;
        assert(self.blocks_view().skip(0) =~= self.blocks_view());
        while i < n
            invariant
                n == self.blocks@.len(),
                i <= n,
                out@ + blocks_bytes(self.blocks_view().skip(i as int)) == self.spec_bytes(),
            decreases n - i,
        {
            let ghost before = out@;
            self.blocks[i].write_to(&mut out);
            let ghost rest = self.blocks_view().skip(i as int);
            assert(rest[0] == self.blocks@[i as int]@);
            assert(rest.skip(1) =~= self.blocks_view().skip(i + 1));
            assert(out@ + blocks_bytes(self.blocks_view().skip(i + 1)) =~= before + blocks_bytes(rest));
            i = i + 1;
        }
        assert(self.blocks_view().skip(n as int) =~= Seq::<BlockView>::empty());
        assert(out@ + Seq::<u8>::empty() =~= out@);
        out
    }
}

/// The word at `off` of bytes `b`, which stand at `p` in `s`, is `v` where `b`
/// holds the bytes of `v` there.
proof fn lemma_word_within(s: Seq<u8>, p: int, b: Seq<u8>, off: int, v: u32)
    requires
        0 <= p,
        0 <= off,
        off + 4 <= b.len(),
        p + b.len() <= s.len(),
        s.subrange(p, p + b.len()) == b,
        b.subrange(off, off + 4) == be_bytes(v),
    ensures
        be_u32_at(s, p + off) == v,
{
    assert(s.subrange(p + off, p + off + 4) =~= b.subrange(off, off + 4));
    lemma_be_bytes(s, p + off, v);
}

/// A valid block reads back from the bytes it is written as.
pub proof fn lemma_block_roundtrip(s: Seq<u8>, p: int, b: BlockView)
    requires
        0 <= p,
        b.is_valid(),
        p + b.spec_bytes().len() <= s.len(),
        s.subrange(p, p + b.spec_bytes().len()) == b.spec_bytes(),
    ensures
        b.spec_bytes().len() == BLOCK_HEADER_SIZE + b.len,
        Block::spec_error(s, p) is None,
        Block::spec_at(s, p) == b,
{
    let bs = b.spec_bytes();
    assert(bs.subrange(4, 8) =~= be_bytes(b.size));
    assert(bs.subrange(8, 12) =~= be_bytes(b.version.0));
    assert(bs.subrange(12, 16) =~= be_bytes(b.version.1));
    assert(bs.subrange(16, 20) =~= be_bytes(b.kind.spec_code()));
    assert(bs.subrange(20, 24) =~= be_bytes(b.len));
    assert(bs.subrange(24, 28) =~= be_bytes(b.id));
    assert(bs.subrange(28, 32) =~= be_bytes(b.index));
    lemma_word_within(s, p, bs, 4, b.size);
    lemma_word_within(s, p, bs, 8, b.version.0);
    lemma_word_within(s, p, bs, 12, b.version.1);
    lemma_word_within(s, p, bs, 16, b.kind.spec_code());
    lemma_word_within(s, p, bs, 20, b.len);
    lemma_word_within(s, p, bs, 24, b.id);
    lemma_word_within(s, p, bs, 28, b.index);
    lemma_type_code_roundtrip(b.kind, 0);
    assert(s.subrange(p, p + 4) =~= bs.subrange(0, 4));
    assert(bs.subrange(0, 4) =~= b.magic);
    assert(s.subrange(p + 32, p + 32 + b.len) =~= bs.subrange(32, 32 + b.len));
    assert(bs.subrange(32, 32 + b.len) =~= b.data);
    let r = Block::spec_at(s, p);
    assert(r.magic == b.magic);
    assert(r.data == b.data);
}

/// A valid header reads back from the bytes it is written as.
#[verifier::rlimit(40)]
pub proof fn lemma_header_roundtrip(s: Seq<u8>, h: Header)
    requires
        h.is_valid(),
        h.spec_bytes().len() <= s.len(),
        s.subrange(0, h.spec_bytes().len() as int) == h.spec_bytes(),
    ensures
        h.spec_bytes().len() == HEADER_SIZE,
        Header::spec_error(s, 0) is None,
        h.decoded_from(s, 0),
{
    let hs = h.spec_bytes();
    assert(hs.subrange(4, 8) =~= be_bytes(h.size));
    assert(hs.subrange(8, 12) =~= be_bytes(h.version.0));
    assert(hs.subrange(12, 16) =~= be_bytes(h.version.1));
    assert(hs.subrange(16, 20) =~= be_bytes(h.gpu));
    assert(hs.subrange(20, 24) =~= be_bytes(h.align));
    assert(hs.subrange(24, 28) =~= be_bytes(h.reserved1));
    assert(hs.subrange(28, 32) =~= be_bytes(h.reserved2));
    lemma_word_within(s, 0, hs, 4, h.size);
    lemma_word_within(s, 0, hs, 8, h.version.0);
    lemma_word_within(s, 0, hs, 12, h.version.1);
    lemma_word_within(s, 0, hs, 16, h.gpu);
    lemma_word_within(s, 0, hs, 20, h.align);
    lemma_word_within(s, 0, hs, 24, h.reserved1);
    lemma_word_within(s, 0, hs, 28, h.reserved2);
    assert(s.subrange(0, 4) =~= hs.subrange(0, 4));
    assert(hs.subrange(0, 4) =~= h.magic@);
}

/// A well-terminated sequence of blocks reads back from the bytes it is written as.
pub proof fn lemma_blocks_roundtrip(s: Seq<u8>, p: int, bs: Seq<BlockView>)
    requires
        0 <= p,
        well_terminated(bs),
        p + blocks_bytes(bs).len() <= s.len(),
        s.subrange(p, p + blocks_bytes(bs).len()) == blocks_bytes(bs),
    ensures
        spec_blocks_from(s, p) == Ok::<Seq<BlockView>, crate::gfd::ParseError>(bs),
    decreases bs.len(),
{
    let b = bs[0];
    let tail = bs.skip(1);
    let bb = b.spec_bytes();
    let all = blocks_bytes(bs);
    assert(all == bb + blocks_bytes(tail));
    assert(b.is_valid());
    assert(s.subrange(p, p + bb.len()) =~= all.subrange(0, bb.len() as int));
    assert(all.subrange(0, bb.len() as int) =~= bb);
    lemma_block_roundtrip(s, p, b);
    if b.kind == Type::EndOfFile {
        assert(bs.len() == 1);
        assert(bs =~= seq![b]);
    } else {
        assert(bs.len() > 1);
        assert(tail.last() == bs.last());
        assert forall|i: int| 0 <= i < tail.len() - 1 implies tail[i].kind != Type::EndOfFile by {
            assert(tail[i] == bs[i + 1]);
        }
        assert forall|i: int| 0 <= i < tail.len() implies (#[trigger] tail[i]).is_valid() by {
            assert(tail[i] == bs[i + 1]);
        }
        let q = p + bb.len();
        assert(s.subrange(q, q + blocks_bytes(tail).len()) =~= all.subrange(
            bb.len() as int,
            all.len() as int,
        ));
        assert(all.subrange(bb.len() as int, all.len() as int) =~= blocks_bytes(tail));
        lemma_blocks_roundtrip(s, q, tail);
        assert(seq![b] + tail =~= bs);
    }
}

/// Reading the bytes that a file with a valid header and well-terminated blocks
/// is written as, followed by any bytes at all, gives back that header and those
/// blocks.
pub proof fn lemma_gfd_roundtrip(g: Gfd, rest: Seq<u8>)
    requires
        g.header.is_valid(),
        well_terminated(g.blocks_view()),
    ensures
        Gfd::spec_error(g.spec_bytes() + rest) is None,
        g.header.decoded_from(g.spec_bytes() + rest, 0),
        spec_blocks_from(g.spec_bytes() + rest, HEADER_SIZE as int) == Ok::<
            Seq<BlockView>,
            crate::gfd::ParseError,
        >(g.blocks_view()),
{
    let s = g.spec_bytes() + rest;
    let hb = g.header.spec_bytes();
    let bb = blocks_bytes(g.blocks_view());
    assert(s.subrange(0, hb.len() as int) =~= hb);
    lemma_header_roundtrip(s, g.header);
    assert(s.subrange(32, 32 + bb.len() as int) =~= bb);
    lemma_blocks_roundtrip(s, 32, g.blocks_view());
}

/// The bytes of the word that four bytes hold are those four bytes.
pub proof fn lemma_bytes_of_word(s: Seq<u8>, i: int)
    requires
        0 <= i,
        i + 4 <= s.len(),
    ensures
        be_bytes(be_u32_at(s, i)) == s.subrange(i, i + 4),
{
    let b0 = s[i];
    let b1 = s[i + 1];
    let b2 = s[i + 2];
    let b3 = s[i + 3];
    let v = be_u32_at(s, i);
    assert(v == (b0 as u32) * 0x100_0000u32 + (b1 as u32) * 0x1_0000u32 + (b2 as u32) * 0x100u32
        + (b3 as u32));
    assert((v >> 24u32) as u8 == b0 && (v >> 16u32) as u8 == b1 && (v >> 8u32) as u8 == b2 && v as u8
        == b3) by (bit_vector)
        requires
            v == (b0 as u32) * 0x100_0000u32 + (b1 as u32) * 0x1_0000u32 + (b2 as u32) * 0x100u32
                + (b3 as u32),
    ;
    assert(be_bytes(v) =~= s.subrange(i, i + 4));
}

/// A header that was read is written back as the bytes it was read from.
pub proof fn lemma_header_written_back(s: Seq<u8>, h: Header)
    requires
        Header::spec_error(s, 0) is None,
        h.decoded_from(s, 0),
    ensures
        h.spec_bytes() == s.subrange(0, HEADER_SIZE as int),
{
    lemma_bytes_of_word(s, 4);
    lemma_bytes_of_word(s, 8);
    lemma_bytes_of_word(s, 12);
    lemma_bytes_of_word(s, 16);
    lemma_bytes_of_word(s, 20);
    lemma_bytes_of_word(s, 24);
    lemma_bytes_of_word(s, 28);
    assert(h.spec_bytes() =~= s.subrange(0, 32));
}

/// A block that was read is written back as the bytes it was read from.
pub proof fn lemma_block_written_back(s: Seq<u8>, p: int)
    requires
        0 <= p,
        Block::spec_error(s, p) is None,
    ensures
        Block::spec_at(s, p).spec_bytes() == s.subrange(
            p,
            p + BLOCK_HEADER_SIZE + Block::spec_at(s, p).len,
        ),
{
    let b = Block::spec_at(s, p);
    lemma_bytes_of_word(s, p + 4);
    lemma_bytes_of_word(s, p + 8);
    lemma_bytes_of_word(s, p + 12);
    lemma_bytes_of_word(s, p + 16);
    lemma_bytes_of_word(s, p + 20);
    lemma_bytes_of_word(s, p + 24);
    lemma_bytes_of_word(s, p + 28);
    lemma_type_code_roundtrip(b.kind, be_u32_at(s, p + 16));
    assert(b.spec_bytes() =~= s.subrange(p, p + 32 + b.len));
}

/// Blocks that were read are written back as the bytes they were read from.
pub proof fn lemma_blocks_written_back(s: Seq<u8>, p: int)
    requires
        0 <= p,
        spec_blocks_from(s, p) is Ok,
    ensures
        p + blocks_bytes(spec_blocks_from(s, p)->Ok_0).len() <= s.len(),
        blocks_bytes(spec_blocks_from(s, p)->Ok_0) == s.subrange(
            p,
            p + blocks_bytes(spec_blocks_from(s, p)->Ok_0).len(),
        ),
    decreases s.len() - p,
{
    let bs = spec_blocks_from(s, p)->Ok_0;
    let b = Block::spec_at(s, p);
    lemma_block_written_back(s, p);
    let q = p + BLOCK_HEADER_SIZE + b.len;
    if b.kind == Type::EndOfFile {
        assert(bs.skip(1) =~= Seq::<BlockView>::empty());
        assert(blocks_bytes(bs.skip(1)) =~= Seq::<u8>::empty());
        assert(blocks_bytes(bs) =~= b.spec_bytes());
    } else {
        lemma_blocks_written_back(s, q);
        let tail = spec_blocks_from(s, q)->Ok_0;
        assert(bs.skip(1) =~= tail);
        assert(blocks_bytes(bs) =~= s.subrange(p, q) + s.subrange(q, q + blocks_bytes(tail).len()));
        assert(s.subrange(p, q) + s.subrange(q, q + blocks_bytes(tail).len()) =~= s.subrange(
            p,
            q + blocks_bytes(tail).len(),
        ));
    }
}

/// A file that was read is written back as the bytes it was read from, up to and
/// including its end-of-file block.
pub proof fn lemma_gfd_written_back(s: Seq<u8>, g: Gfd)
    requires
        Gfd::spec_error(s) is None,
        g.header.decoded_from(s, 0),
        spec_blocks_from(s, HEADER_SIZE as int) == Ok::<Seq<BlockView>, crate::gfd::ParseError>(
            g.blocks_view(),
        ),
    ensures
        g.spec_bytes().len() <= s.len(),
        g.spec_bytes() == s.subrange(0, g.spec_bytes().len() as int),
{
    lemma_header_written_back(s, g.header);
    lemma_blocks_written_back(s, 32);
    let n = blocks_bytes(g.blocks_view()).len();
    assert(g.spec_bytes() =~= s.subrange(0, 32 + n as int));
}

} // verus!
