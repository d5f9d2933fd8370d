//! Little-endian integers inside byte sequences, and in-place overwriting.

use vstd::prelude::*;

verus! {

/// The unsigned 16-bit number stored little-endian at `off` in `s`.
pub open spec fn le_u16(s: Seq<u8>, off: int) -> nat {
    s[off] as nat + 256 * (s[off + 1] as nat)
}

/// The unsigned 32-bit number stored little-endian at `off` in `s`.
pub open spec fn le_u32(s: Seq<u8>, off: int) -> nat {
    s[off] as nat + 256 * (s[off + 1] as nat + 256 * (s[off + 2] as nat + 256 * (s[off
        + 3] as nat)))
}

/// The two bytes that store `v` little-endian.
#[verifier::opaque]
pub open spec fn u16_bytes(v: u16) -> Seq<u8> {
    seq![(v % 256) as u8, (v / 256) as u8]
}

/// The four bytes that store `v` little-endian.
#[verifier::opaque]
pub open spec fn u32_bytes(v: u32) -> Seq<u8> {
    seq![
        (v % 256) as u8,
        (v / 256 % 256) as u8,
        (v / 256 / 256 % 256) as u8,
        (v / 256 / 256 / 256) as u8,
    ]
}

/// `s` with the bytes from `off` on replaced by `data`; the length stays.
pub open spec fn overwrite(s: Seq<u8>, off: int, data: Seq<u8>) -> Seq<u8> {
    Seq::new(
        s.len(),
        |i: int|
            if off <= i < off + data.len() {
                data[i - off]
            } else {
                s[i]
            },
    )
}

/// How long `s` is after `data` were written at `off` as a file takes a
/// write: a write that ends behind the end makes it longer, and a write of
/// nothing changes nothing.
pub open spec fn written_len(s: Seq<u8>, off: int, data: Seq<u8>) -> nat {
    if data.len() > 0 && off + data.len() > s.len() {
        (off + data.len()) as nat
    } else {
        s.len()
    }
}

/// `s` after `data` were written at `off` as a file takes a write: the
/// bytes from `off` on are `data`, every other byte of `s` stays, and where
/// the write begins behind the end of `s` the bytes between are zero.
pub open spec fn written(s: Seq<u8>, off: int, data: Seq<u8>) -> Seq<u8> {
    Seq::new(
        written_len(s, off, data),
        |i: int|
            if off <= i < off + data.len() {
                data[i - off]
            } else if i < s.len() {
                s[i]
            } else {
                0u8
            },
    )
}

/// A write that ends inside the bytes it is made to replaces them and
/// leaves the length.
pub proof fn lemma_written_inside(s: Seq<u8>, off: int, data: Seq<u8>)
    requires
        0 <= off,
        off + data.len() <= s.len(),
    ensures
        written(s, off, data) == overwrite(s, off, data),
{
    assert(written(s, off, data) =~= overwrite(s, off, data));
}

/// A 16-bit number takes two bytes and a 32-bit number four.
pub proof fn lemma_field_bytes_len()
    ensures
        forall|v: u16| #[trigger] u16_bytes(v).len() == 2,
        forall|v: u32| #[trigger] u32_bytes(v).len() == 4,
{
    reveal(u16_bytes);
    reveal(u32_bytes);
}

/// Decoding the bytes of a 16-bit number gives the number back.
pub proof fn lemma_u16_bytes_decode(v: u16)
    ensures
        u16_bytes(v).len() == 2,
        le_u16(u16_bytes(v), 0) == v,
{
    reveal(u16_bytes);
}

/// Decoding the bytes of a 32-bit number gives the number back.
pub proof fn lemma_u32_bytes_decode(v: u32)
    ensures
        u32_bytes(v).len() == 4,
        le_u32(u32_bytes(v), 0) == v,
{
    reveal(u32_bytes);
    let x1 = v / 256;
    let x2 = x1 / 256;
    let x3 = x2 / 256;
    assert(v == v % 256 + 256 * x1);
    assert(x1 == x1 % 256 + 256 * x2);
    assert(x2 == x2 % 256 + 256 * x3);
    assert(x3 < 256);
}

/// Encoding a decoded 16-bit number gives the bytes it was decoded from.
pub proof fn lemma_le_u16_encode(s: Seq<u8>, off: int)
    requires
        0 <= off,
        off + 2 <= s.len(),
    ensures
        le_u16(s, off) <= u16::MAX,
        u16_bytes(le_u16(s, off) as u16) == s.subrange(off, off + 2),
{
    reveal(u16_bytes);
    let v = le_u16(s, off) as u16;
    assert(u16_bytes(v) =~= s.subrange(off, off + 2));
}

/// Encoding a decoded 32-bit number gives the bytes it was decoded from.
pub proof fn lemma_le_u32_encode(s: Seq<u8>, off: int)
    requires
        0 <= off,
        off + 4 <= s.len(),
    ensures
        le_u32(s, off) <= u32::MAX,
        u32_bytes(le_u32(s, off) as u32) == s.subrange(off, off + 4),
{
    reveal(u32_bytes);
    let b0 = s[off] as int;
    let b1 = s[off + 1] as int;
    let b2 = s[off + 2] as int;
    let b3 = s[off + 3] as int;
    let x2 = b2 + 256 * b3;
    let x1 = b1 + 256 * x2;
    let v = le_u32(s, off) as int;
    assert(v == b0 + 256 * x1);
    assert(v % 256 == b0 && v / 256 == x1);
    assert(x1 % 256 == b1 && x1 / 256 == x2);
    assert(x2 % 256 == b2 && x2 / 256 == b3);
    let bytes = u32_bytes(v as u32);
    assert(bytes[0] == s[off]);
    assert(bytes[1] == s[off + 1]);
    assert(bytes[2] == s[off + 2]);
    assert(bytes[3] == s[off + 3]);
    assert(bytes =~= s.subrange(off, off + 4));
}

/// Overwriting bytes with a prefix of what they already hold changes
/// nothing.
pub proof fn lemma_overwrite_with_same(s: Seq<u8>, off: int, data: Seq<u8>, n: int)
    requires
        0 <= off,
        0 <= n <= data.len(),
        off + data.len() <= s.len(),
        data == s.subrange(off, off + data.len()),
    ensures
        overwrite(s, off, data.subrange(0, n)) == s,
        overwrite(s, off, data) == s,
{
    assert(overwrite(s, off, data.subrange(0, n)) =~= s);
    assert(overwrite(s, off, data) =~= s);
}

/// Reads the 16-bit number stored little-endian at `off`.
pub fn read_u16(s: &[u8], off: usize) -> (v: u16)
    requires
        off + 2 <= s.len(),
    ensures
        v == le_u16(s@, off as int),
{
    let b0: u16 = s[off] as u16;
    let b1: u16 = s[off + 1] as u16;
    b0 + b1 * 256
}

/// Reads the 32-bit number stored little-endian at `off`.
pub fn read_u32(s: &[u8], off: usize) -> (v: u32)
    requires
        off + 4 <= s.len(),
    ensures
        v == le_u32(s@, off as int),
{
    let b0: u32 = s[off] as u32;
    let b1: u32 = s[off + 1] as u32;
    let b2: u32 = s[off + 2] as u32;
    let b3: u32 = s[off + 3] as u32;
    b0 + 256 * (b1 + 256 * (b2 + 256 * b3))
}

/// Appends the two little-endian bytes of `v`.
pub fn push_u16(out: &mut Vec<u8>, v: u16)
    ensures
        final(out)@ == old(out)@ + u16_bytes(v),
{
    out.push((v % 256) as u8);
    out.push((v / 256) as u8);
    assert(out@ =~= old(out)@ + u16_bytes(v)) by {
        reveal(u16_bytes);
    }
}

/// Appends the four little-endian bytes of `v`.
pub fn push_u32(out: &mut Vec<u8>, v: u32)
    ensures
        final(out)@ == old(out)@ + u32_bytes(v),
{
    out.push((v % 256) as u8);
    out.push((v / 256 % 256) as u8);
    out.push((v / 256 / 256 % 256) as u8);
    out.push((v / 256 / 256 / 256) as u8);
    assert(out@ =~= old(out)@ + u32_bytes(v)) by {
        reveal(u32_bytes);
    }
}

/// Replaces the bytes of `image` from `off` on by `data`.
pub fn write_at(image: &mut Vec<u8>, off: usize, data: &[u8])
    requires
        off + data.len() <= old(image).len(),
    ensures
        final(image)@ == overwrite(old(image)@, off as int, data@),
{
    let n: usize = data.len();
    let mut i: usize = 0;
    while i < n
        invariant
            n == data.len(),
            i <= n,
            off + n <= image.len(),
            image.len() == old(image).len(),
            image@ == overwrite(old(image)@, off as int, data@.subrange(0, i as int)),
        decreases n - i,
    {
        image.set(off + i, data[i]);
        i = i + 1;
        assert(image@ =~= overwrite(old(image)@, off as int, data@.subrange(0, i as int)));
    }
    assert(data@.subrange(0, n as int) =~= data@);
}

/// Writes `data` into `image` from `off` on as a file takes a write: where
/// the write ends behind the end of `image`, the image grows to hold it,
/// with zero bytes between its old end and `off`.
pub fn write_growing(image: &mut Vec<u8>, off: u64, data: &[u8])
    requires
        off + data.len() <= u64::MAX,
    ensures
        final(image)@ == written(old(image)@, off as int, data@),
{
    let n: usize = data.len();
    if n == 0 {
        assert(image@ =~= written(old(image)@, off as int, data@));
        return ;
    }
    while (image.len() as u64) < off
        invariant
            old(image).len() <= image.len(),
            image.len() <= old(image).len() || image.len() <= off,
            forall|j: int| 0 <= j < old(image).len() ==> image@[j] == old(image)@[j],
            forall|j: int| old(image).len() <= j < image.len() ==> image@[j] == 0u8,
        decreases off - image.len(),
    {
        image.push(0);
    }
    let ghost filled = image@;
    let mut i: usize = 0;
    while i < n
        invariant
            n == data.len(),
            i <= n,
            off + n <= u64::MAX,
            off <= filled.len(),
            filled.len() <= image.len(),
            image.len() == (if off + i > filled.len() {
                off + i
            } else {
                filled.len() as int
            }),
            forall|j: int|
                0 <= j < image.len() ==> image@[j] == (if off <= j < off + i {
                    data@[j - off]
                } else {
                    filled[j]
                }),
        decreases n - i,
    {
        let pos: u64 = off + i as u64;
        if pos < image.len() as u64 {
            image.set(pos as usize, data[i]);
        } else {
            image.push(data[i]);
        }
        i = i + 1;
    }
    assert(image@ =~= written(old(image)@, off as int, data@));
}

} // verus!
