//! Big-endian integers and byte strings, as the wire holds them.

use vstd::prelude::*;

verus! {

/// The two bytes that hold `n`, most significant first.
pub open spec fn be16(n: nat) -> Seq<u8> {
    seq![(n / 256 % 256) as u8, (n % 256) as u8]
}

/// The number that the first two bytes of `s` hold, most significant first.
pub open spec fn be16_value(s: Seq<u8>) -> nat {
    (s[0] as nat) * 256 + (s[1] as nat)
}

/// The four bytes that hold `n`, most significant first.
pub open spec fn be32(n: nat) -> Seq<u8> {
    seq![
        (n / 256 / 256 / 256 % 256) as u8,
        (n / 256 / 256 % 256) as u8,
        (n / 256 % 256) as u8,
        (n % 256) as u8,
    ]
}

/// The number that the first four bytes of `s` hold, most significant first.
pub open spec fn be32_value(s: Seq<u8>) -> nat {
    (((s[0] as nat) * 256 + (s[1] as nat)) * 256 + (s[2] as nat)) * 256 + (s[3] as nat)
}

/// Reading back what `be16` wrote gives the number that was written.
pub proof fn lemma_be16_value(n: nat)
    requires
        n < 65536,
    ensures
        be16(n).len() == 2,
        be16_value(be16(n)) == n,
{
}

/// Appends `n` to `out` as two bytes, most significant first.
pub fn push_be16(out: &mut Vec<u8>, n: u16)
    ensures
        final(out)@ == old(out)@ + be16(n as nat),
{
    out.push((n / 256) as u8);
    out.push((n % 256) as u8);
    assert(out@ =~= old(out)@ + be16(n as nat));
}

/// Reads the two bytes of `buf` that start at `at` as a number.
pub fn read_be16(buf: &Vec<u8>, at: usize) -> (n: u16)
    requires
        at + 2 <= buf.len(),
    ensures
        n as nat == be16_value(buf@.subrange(at as int, at + 2)),
{
    let high: u16 = buf[at] as u16;
    let low: u16 = buf[at + 1] as u16;
    high * 256 + low
}

/// Appends `n` to `out` as four bytes, most significant first.
pub fn push_be32(out: &mut Vec<u8>, n: u32)
    ensures
        final(out)@ == old(out)@ + be32(n as nat),
{
    out.push((n / 256 / 256 / 256) as u8);
    out.push((n / 256 / 256 % 256) as u8);
    out.push((n / 256 % 256) as u8);
    out.push((n % 256) as u8);
    assert(out@ =~= old(out)@ + be32(n as nat));
}

/// Reads the four bytes of `buf` that start at `at` as a number.
pub fn read_be32(buf: &Vec<u8>, at: usize) -> (n: u32)
    requires
        at + 4 <= buf.len(),
    ensures
        n as nat == be32_value(buf@.subrange(at as int, at + 4)),
{
    let b0: u32 = buf[at] as u32;
    let b1: u32 = buf[at + 1] as u32;
    let b2: u32 = buf[at + 2] as u32;
    let b3: u32 = buf[at + 3] as u32;
    ((b0 * 256 + b1) * 256 + b2) * 256 + b3
}

/// Appends the bytes of `src` to `out`.
pub fn append(out: &mut Vec<u8>, src: &Vec<u8>)
    ensures
        final(out)@ == old(out)@ + src@,
{
    let mut i: usize = 0;
    while i < src.len()
        invariant
            i <= src@.len(),
            out@ == old(out)@ + src@.subrange(0, i as int),
        decreases src@.len() - i,
    {
        out.push(src[i]);
        i = i + 1;
        assert(out@ =~= old(out)@ + src@.subrange(0, i as int));
    }
    assert(src@.subrange(0, i as int) =~= src@);
}

/// The bytes of `src` from index `from` up to, not including, index `to`.
pub fn range(src: &Vec<u8>, from: usize, to: usize) -> (out: Vec<u8>)
    requires
        from <= to <= src.len(),
    ensures
        out@ == src@.subrange(from as int, to as int),
{
    let mut out: Vec<u8> = Vec::new();
    let mut i: usize = from;
    while i < to
        invariant
            from <= i <= to <= src@.len(),
            out@ == src@.subrange(from as int, i as int),
        decreases to - i,
    {
        out.push(src[i]);
        i = i + 1;
        assert(out@ =~= src@.subrange(from as int, i as int));
    }
    out
}

/// A copy of the bytes of `src`.
pub fn copy(src: &Vec<u8>) -> (out: Vec<u8>)
    ensures
        out@ == src@,
{
    let out = range(src, 0, src.len());
    assert(out@ =~= src@);
    out
}

/// Whether `a` and `b` hold the same bytes.
pub fn same(a: &Vec<u8>, b: &Vec<u8>) -> (equal: bool)
    ensures
        equal == (a@ == b@),
{
    if a.len() != b.len() {
        return false;
    }
    let mut i: usize = 0;
    while i < a.len()
        invariant
            i <= a@.len(),
            a@.len() == b@.len(),
            a@.subrange(0, i as int) == b@.subrange(0, i as int),
        decreases a@.len() - i,
    {
        if a[i] != b[i] {
            assert(a@[i as int] != b@[i as int]);
            return false;
        }
        i = i + 1;
        assert(a@.subrange(0, i as int) =~= a@.subrange(0, i - 1).push(a@[i - 1]));
        assert(b@.subrange(0, i as int) =~= b@.subrange(0, i - 1).push(b@[i - 1]));
    }
    assert(a@.subrange(0, i as int) =~= a@);
    assert(b@.subrange(0, i as int) =~= b@);
    true
}

} // verus!
