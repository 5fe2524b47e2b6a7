//! Big-endian words and NUL-terminated strings inside a byte buffer.

use vstd::prelude::*;

verus! {

/// The big-endian 32-bit word held by the four bytes of `s` that start at `i`.
pub open spec fn be_u32_at(s: Seq<u8>, i: int) -> u32 {
    (s[i] as int * 0x100_0000 + s[i + 1] as int * 0x1_0000 + s[i + 2] as int * 0x100
        + s[i + 3] as int) as u32
}

/// The `n` consecutive big-endian words of `s` that start at byte `off`.
pub open spec fn be_words(s: Seq<u8>, off: int, n: nat) -> Seq<u32> {
    Seq::new(n, |k: int| be_u32_at(s, off + 4 * k))
}

/// Reads the big-endian word at `pos`.
pub fn read_u32_be(data: &[u8], pos: usize) -> (v: u32)
    requires
        pos + 4 <= data@.len(),
    ensures
        v == be_u32_at(data@, pos as int),
{
    let b0 = data[pos] as u32;
    let b1 = data[pos + 1] as u32;
    let b2 = data[pos + 2] as u32;
    let b3 = data[pos + 3] as u32;
    b0 * 0x100_0000 + b1 * 0x1_0000 + b2 * 0x100 + b3
}

/// Reads the `n` consecutive big-endian words that start at byte `off`.
pub fn read_words(data: &[u8], off: usize, n: usize) -> (ws: Vec<u32>)
    requires
        off + 4 * n <= data@.len(),
    ensures
        ws@ == be_words(data@, off as int, n as nat),
{
    let mut ws: Vec<u32> = Vec::new();
    let mut k: usize = 0;
    let len = data.len();
    while k < n
        invariant
            k <= n,
            len == data@.len(),
            off + 4 * n <= data@.len(),
            ws@ == be_words(data@, off as int, k as nat),
        decreases n - k,
    {
        let w = read_u32_be(data, off + 4 * k);
        ws.push(w);
        k = k + 1;
        assert(ws@ =~= be_words(data@, off as int, k as nat));
    }
    ws
}

/// Number of bytes from `off` up to, and not including, the first zero byte at or
/// after `off`, or up to the end of `s` where no zero byte follows.
pub open spec fn c_str_len(s: Seq<u8>, off: int) -> nat
    decreases s.len() - off,
{
    if off < 0 || off >= s.len() || s[off] == 0 {
        0
    } else {
        1 + c_str_len(s, off + 1)
    }
}

/// The NUL-terminated string that starts at `off`, without its terminator; a string
/// that runs to the end of `s` has none.
pub open spec fn c_str_at(s: Seq<u8>, off: int) -> Seq<u8> {
    s.subrange(off, off + c_str_len(s, off))
}

/// `c_str_at` holds no zero byte, and is followed by a zero byte or by the end of `s`.
pub proof fn lemma_c_str_at(s: Seq<u8>, off: int)
    requires
        0 <= off <= s.len(),
    ensures
        off + c_str_len(s, off) <= s.len(),
        forall|i: int| 0 <= i < c_str_at(s, off).len() ==> c_str_at(s, off)[i] != 0,
        off + c_str_len(s, off) == s.len() || s[off + c_str_len(s, off)] == 0,
    decreases s.len() - off,
{
    if off < s.len() && s[off] != 0 {
        lemma_c_str_at(s, off + 1);
        assert forall|i: int| 0 <= i < c_str_at(s, off).len() implies c_str_at(s, off)[i] != 0 by {
            if i > 0 {
                assert(c_str_at(s, off)[i] == c_str_at(s, off + 1)[i - 1]);
            }
        }
    }
}

/// Copies the NUL-terminated string that starts at `off`, without its terminator.
pub fn read_c_str(data: &[u8], off: usize) -> (r: Vec<u8>)
    requires
        off <= data@.len(),
    ensures
        r@ == c_str_at(data@, off as int),
{
    let mut r: Vec<u8> = Vec::new();
    let mut i: usize = off;
    while i < data.len() && data[i] != 0
        invariant
            off <= i <= data@.len(),
            r@ == data@.subrange(off as int, i as int),
            c_str_len(data@, off as int) == (i - off) + c_str_len(data@, i as int),
        decreases data@.len() - i,
    {
        r.push(data[i]);
        i = i + 1;
        assert(r@ =~= data@.subrange(off as int, i as int));
    }
    r
}

/// Copies the bytes from `start` up to, not including, `end`.
pub fn copy_range(data: &[u8], start: usize, end: usize) -> (r: Vec<u8>)
    requires
        start <= end <= data@.len(),
    ensures
        r@ == data@.subrange(start as int, end as int),
{
    let mut r: Vec<u8> = Vec::new();
    let mut i = start;
    while i < end
        invariant
            start <= i <= end,
            end <= data@.len(),
            r@ == data@.subrange(start as int, i as int),
        decreases end - i,
    {
        r.push(data[i]);
        i = i + 1;
        assert(r@ =~= data@.subrange(start as int, i as int));
    }
    r
}

} // verus!
