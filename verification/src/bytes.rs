//! Big-endian byte readers and writers, and the ones'-complement internet
//! checksum, stated over sequences of bytes.

use vstd::prelude::*;

verus! {

/// The big-endian value of the two bytes at `i`.
pub open spec fn be16(s: Seq<u8>, i: int) -> int {
    s[i] * 0x100 + s[i + 1]
}

/// The big-endian value of the four bytes at `i`.
pub open spec fn be32(s: Seq<u8>, i: int) -> int {
    s[i] * 0x1000000 + s[i + 1] * 0x10000 + s[i + 2] * 0x100 + s[i + 3]
}

/// The big-endian value of the six bytes at `i`.
pub open spec fn be48(s: Seq<u8>, i: int) -> int {
    be16(s, i) * 0x100000000 + be32(s, i + 2)
}

/// The big-endian value of the sixteen bytes at `i`.
pub open spec fn be128(s: Seq<u8>, i: int) -> int {
    be32(s, i) * 0x1000000000000000000000000 + be32(s, i + 4) * 0x10000000000000000 + be32(
        s,
        i + 8,
    ) * 0x100000000 + be32(s, i + 12)
}

/// Read the big-endian 16-bit value at `i`.
pub fn read_be16(data: &[u8], i: usize) -> (r: u16)
    requires
        i + 2 <= data@.len(),
    ensures
        r == be16(data@, i as int),
{
    (data[i] as u16) * 0x100 + (data[i + 1] as u16)
}

/// Read the big-endian 32-bit value at `i`.
pub fn read_be32(data: &[u8], i: usize) -> (r: u32)
    requires
        i + 4 <= data@.len(),
    ensures
        r == be32(data@, i as int),
{
    (data[i] as u32) * 0x1000000 + (data[i + 1] as u32) * 0x10000 + (data[i + 2] as u32) * 0x100 + (
    data[i + 3] as u32)
}

/// Read the big-endian 48-bit value at `i`.
pub fn read_be48(data: &[u8], i: usize) -> (r: u64)
    requires
        i + 6 <= data@.len(),
    ensures
        r == be48(data@, i as int),
{
    let len = data.len();
    (read_be16(data, i) as u64) * 0x100000000 + (read_be32(data, i + 2) as u64)
}

/// Read the big-endian 128-bit value at `i`.
pub fn read_be128(data: &[u8], i: usize) -> (r: u128)
    requires
        i + 16 <= data@.len(),
    ensures
        r == be128(data@, i as int),
{
    let len = data.len();
    let a = read_be32(data, i) as u128;
    let b = read_be32(data, i + 4) as u128;
    let c = read_be32(data, i + 8) as u128;
    let d = read_be32(data, i + 12) as u128;
    a * 0x1000000000000000000000000 + b * 0x10000000000000000 + c * 0x100000000 + d
}

/// The two bytes of a 16-bit value, most significant first.
pub open spec fn be16_pair(x: u16) -> Seq<u8> {
    seq![(x / 0x100) as u8, (x % 0x100) as u8]
}

/// The four bytes of a 32-bit value, most significant first.
pub open spec fn be32_quad(x: u32) -> Seq<u8> {
    seq![
        (x / 0x1000000) as u8,
        ((x / 0x10000) % 0x100) as u8,
        ((x / 0x100) % 0x100) as u8,
        (x % 0x100) as u8,
    ]
}

/// Append the two big-endian bytes of `x`.
pub fn push_be16(out: &mut Vec<u8>, x: u16)
    ensures
        final(out)@ == old(out)@ + be16_pair(x),
{
    out.push((x / 0x100) as u8);
    out.push((x % 0x100) as u8);
    proof {
        assert(final(out)@ =~= old(out)@ + be16_pair(x));
    }
}

/// Append the four big-endian bytes of `x`.
pub fn push_be32(out: &mut Vec<u8>, x: u32)
    ensures
        final(out)@ == old(out)@ + be32_quad(x),
{
    out.push((x / 0x1000000) as u8);
    out.push(((x / 0x10000) % 0x100) as u8);
    out.push(((x / 0x100) % 0x100) as u8);
    out.push((x % 0x100) as u8);
    proof {
        assert(final(out)@ =~= old(out)@ + be32_quad(x));
    }
}

/// The six bytes of a 48-bit value, most significant first.
pub open spec fn be48_bytes(x: u64) -> Seq<u8> {
    be16_pair((x / 0x100000000) as u16) + be32_quad((x % 0x100000000) as u32)
}

/// The sixteen bytes of a 128-bit value, most significant first.
pub open spec fn be128_bytes(x: u128) -> Seq<u8> {
    be32_quad((x / 0x1000000000000000000000000) as u32) + be32_quad(
        ((x / 0x10000000000000000) % 0x100000000) as u32,
    ) + be32_quad(((x / 0x100000000) % 0x100000000) as u32) + be32_quad((x % 0x100000000) as u32)
}

/// Append the six big-endian bytes of a 48-bit value.
pub fn push_be48(out: &mut Vec<u8>, x: u64)
    requires
        x < 0x1000000000000,
    ensures
        final(out)@ == old(out)@ + be48_bytes(x),
{
    push_be16(out, (x / 0x100000000) as u16);
    push_be32(out, (x % 0x100000000) as u32);
    proof {
        assert(final(out)@ =~= old(out)@ + be48_bytes(x));
    }
}

/// Append the sixteen big-endian bytes of a 128-bit value.
pub fn push_be128(out: &mut Vec<u8>, x: u128)
    ensures
        final(out)@ == old(out)@ + be128_bytes(x),
{
    push_be32(out, (x / 0x1000000000000000000000000) as u32);
    push_be32(out, ((x / 0x10000000000000000) % 0x100000000) as u32);
    push_be32(out, ((x / 0x100000000) % 0x100000000) as u32);
    push_be32(out, (x % 0x100000000) as u32);
    proof {
        assert(final(out)@ =~= old(out)@ + be128_bytes(x));
    }
}

/// The ones'-complement sum of a byte sequence read as big-endian 16-bit
/// words, an odd trailing byte padded with zero, before carry folding.
pub open spec fn sum16(s: Seq<u8>) -> int
    decreases s.len(),
{
    if s.len() == 0 {
        0
    } else if s.len() == 1 {
        s[0] * 0x100
    } else {
        be16(s, 0) + sum16(s.skip(2))
    }
}

/// Fold the carries of a ones'-complement accumulator until it fits 16 bits.
pub open spec fn fold_carries(x: int) -> int
    decreases x,
{
    if x < 0 {
        0
    } else if x < 0x10000 {
        x
    } else {
        proof {
            assert(x / 0x10000 + x % 0x10000 < x) by (nonlinear_arith)
                requires
                    x >= 0x10000,
            ;
        }
        fold_carries(x / 0x10000 + x % 0x10000)
    }
}

/// The internet checksum of a byte sequence: the complement of the folded
/// ones'-complement sum.
pub open spec fn internet_checksum(s: Seq<u8>) -> int {
    0xffff - fold_carries(sum16(s))
}

/// The sum of any prefix split: summing a sequence equals summing its first
/// `2k` bytes plus the sum of the rest.
proof fn lemma_sum16_split(s: Seq<u8>, k: int)
    requires
        0 <= 2 * k <= s.len(),
    ensures
        sum16(s) == sum16(s.take(2 * k)) + sum16(s.skip(2 * k)),
    decreases k,
{
    if k > 0 {
        lemma_sum16_split(s.skip(2), k - 1);
        assert(s.skip(2).take(2 * k - 2) =~= s.take(2 * k).skip(2));
        assert(s.skip(2).skip(2 * k - 2) =~= s.skip(2 * k));
        assert(sum16(s.take(2 * k)) == be16(s.take(2 * k), 0) + sum16(s.take(2 * k).skip(2)));
        assert(be16(s.take(2 * k), 0) == be16(s, 0));
    } else {
        assert(s.take(0) =~= Seq::<u8>::empty());
        assert(s.skip(0) =~= s);
    }
}

/// Extending an even-length prefix by one word adds that word to its sum.
proof fn lemma_sum16_extend(s: Seq<u8>, i: int)
    requires
        0 <= i,
        i % 2 == 0,
        i + 2 <= s.len(),
    ensures
        sum16(s.take(i + 2)) == sum16(s.take(i)) + be16(s, i),
{
    lemma_sum16_split(s.take(i + 2), i / 2);
    assert(s.take(i + 2).take(i) =~= s.take(i));
    let t = s.take(i + 2).skip(i);
    assert(t.len() == 2);
    assert(sum16(t) == be16(t, 0) + sum16(t.skip(2)));
    assert(t.skip(2) =~= Seq::<u8>::empty());
    assert(sum16(Seq::<u8>::empty()) == 0);
    assert(t[0] == s[i] && t[1] == s[i + 1]);
}

/// Compute the internet checksum of `data`.
pub fn checksum(data: &[u8]) -> (r: u16)
    requires
        data@.len() <= 0xffff,
    ensures
        r == internet_checksum(data@),
{
    let n = data.len();
    let mut acc: u32 = 0;
    let mut i: usize = 0;
    while i + 2 <= n
        invariant
            i <= n,
            n == data@.len(),
            n <= 0xffff,
            i % 2 == 0,
            acc == sum16(data@.take(i as int)),
            acc <= 0xffff * (i / 2),
        decreases n - i,
    {
        proof {
            lemma_sum16_extend(data@, i as int);
        }
        let word = read_be16(data, i) as u32;
        acc = acc + word;
        i = i + 2;
    }
    if i < n {
        proof {
            lemma_sum16_split(data@, i as int / 2);
            assert(data@.take(2 * (i as int / 2)) =~= data@.take(i as int));
            assert(data@.skip(i as int).len() == 1);
        }
        acc = acc + (data[i] as u32) * 0x100;
        proof {
            assert(data@.skip(i as int)[0] == data@[i as int]);
            assert(acc == sum16(data@.take(i as int)) + sum16(data@.skip(i as int)));
        }
    } else {
        proof {
            assert(data@.take(i as int) =~= data@);
        }
    }
    assert(acc == sum16(data@));
    while acc >= 0x10000
        invariant
            fold_carries(acc as int) == fold_carries(sum16(data@)),
        decreases acc,
    {
        proof {
            assert(acc / 0x10000 + acc % 0x10000 < acc) by (nonlinear_arith)
                requires
                    acc >= 0x10000,
            ;
        }
        acc = acc / 0x10000 + acc % 0x10000;
    }
    0xffffu16 - (acc as u16)
}

} // verus!
