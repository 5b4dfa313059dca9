//! Primitive decoders shared by all record handlers: little-endian
//! integers, length-prefixed names, OMF variable indices, and OMF
//! variable-length numbers.
//!
//! Each executable decoder is proved to return exactly what its spec
//! function denotes, so higher-level record specifications can be written
//! over the spec functions alone.

use vstd::prelude::*;

verus! {

/// The 16-bit little-endian value stored at `p`.
pub open spec fn spec_le16(b: Seq<u8>, p: int) -> int
    recommends
        0 <= p,
        p + 2 <= b.len(),
{
    b[p] + 256 * b[p + 1]
}

/// The 32-bit little-endian value stored at `p`.
pub open spec fn spec_le32(b: Seq<u8>, p: int) -> int
    recommends
        0 <= p,
        p + 4 <= b.len(),
{
    b[p] + 256 * b[p + 1] + 65536 * b[p + 2] + 16777216 * b[p + 3]
}

/// A length-prefixed name at `p`: one length byte, then that many bytes.
/// Yields the name bytes and the position after them; `None` when the
/// buffer is too short.
pub open spec fn spec_name(b: Seq<u8>, p: int) -> Option<(Seq<u8>, int)>
    recommends
        0 <= p,
{
    if p < b.len() && p + 1 + b[p] <= b.len() {
        Some((b.subrange(p + 1, p + 1 + b[p]), p + 1 + b[p]))
    } else {
        None
    }
}

/// An OMF variable index at `p`: a byte below 0x80 is the index itself;
/// otherwise the low 7 bits are the high byte of a 2-byte big-endian
/// index.  Yields the index and the position after it.
pub open spec fn spec_index(b: Seq<u8>, p: int) -> Option<(int, int)>
    recommends
        0 <= p,
{
    if p >= b.len() {
        None
    } else if b[p] < 128 {
        Some((b[p] as int, p + 1))
    } else if p + 2 <= b.len() {
        Some(((b[p] - 128) * 256 + b[p + 1], p + 2))
    } else {
        None
    }
}

/// Whether `c` may open an OMF variable-length number: a literal byte up
/// to 0x80, or a prefix announcing a 1-, 2- or 4-byte unsigned value.
pub open spec fn spec_varnum_prefix_ok(c: u8) -> bool {
    c <= 0x80 || c == 0x81 || c == 0x82 || c == 0x84
}

/// An OMF variable-length number at `p` (used by COMDEF lengths): a byte
/// up to 0x80 is the value itself; 0x81, 0x82 and 0x84 announce a 1-, 2-
/// or 4-byte little-endian unsigned value.  `None` when the buffer is too
/// short or the prefix is not one of these.
pub open spec fn spec_varnum(b: Seq<u8>, p: int) -> Option<(int, int)>
    recommends
        0 <= p,
{
    if p >= b.len() {
        None
    } else if b[p] <= 0x80 {
        Some((b[p] as int, p + 1))
    } else if b[p] == 0x81 && p + 2 <= b.len() {
        Some((b[p + 1] as int, p + 2))
    } else if b[p] == 0x82 && p + 3 <= b.len() {
        Some((spec_le16(b, p + 1), p + 3))
    } else if b[p] == 0x84 && p + 5 <= b.len() {
        Some((spec_le32(b, p + 1), p + 5))
    } else {
        None
    }
}

/// A decoded name always advances and stays inside the buffer.
pub proof fn lemma_name_advances(b: Seq<u8>, p: int)
    requires
        0 <= p,
    ensures
        spec_name(b, p) matches Some(m) ==> p < m.1 <= b.len(),
{
}

/// A decoded variable index always advances and stays inside the buffer.
pub proof fn lemma_index_advances(b: Seq<u8>, p: int)
    requires
        0 <= p,
    ensures
        spec_index(b, p) matches Some(m) ==> p < m.1 <= b.len() && 0 <= m.0 <= 32767,
{
}

/// A decoded variable-length number always advances and stays inside
/// the buffer.
pub proof fn lemma_varnum_advances(b: Seq<u8>, p: int)
    requires
        0 <= p,
    ensures
        spec_varnum(b, p) matches Some(m) ==> p < m.1 <= b.len() && 0 <= m.0 <= u32::MAX,
{
}

/// Reads the 16-bit little-endian value at `p`.
pub fn read_le16(b: &[u8], p: usize) -> (r: u16)
    requires
        p + 2 <= b@.len(),
    ensures
        r as int == spec_le16(b@, p as int),
{
    let lo: u16 = b[p] as u16;
    let hi: u16 = b[p + 1] as u16;
    lo + 256 * hi
}

/// Reads the 32-bit little-endian value at `p`.
pub fn read_le32(b: &[u8], p: usize) -> (r: u32)
    requires
        p + 4 <= b@.len(),
    ensures
        r as int == spec_le32(b@, p as int),
{
    let b0: u32 = b[p] as u32;
    let b1: u32 = b[p + 1] as u32;
    let b2: u32 = b[p + 2] as u32;
    let b3: u32 = b[p + 3] as u32;
    b0 + 256 * b1 + 65536 * b2 + 16777216 * b3
}

/// Copies `b[from..to]` into a fresh vector.
pub fn copy_range(b: &[u8], from: usize, to: usize) -> (r: Vec<u8>)
    requires
        from <= to <= b@.len(),
    ensures
        r@ == b@.subrange(from as int, to as int),
{
    let mut out: Vec<u8> = Vec::new();
    let mut i: usize = from;
    while i < to
        invariant
            from <= i <= to <= b@.len(),
            out@ == b@.subrange(from as int, i as int),
        decreases to - i,
    {
        out.push(b[i]);
        i = i + 1;
        proof {
            assert(out@ =~= b@.subrange(from as int, i as int));
        }
    }
    out
}

/// Appends `src` to `dst`.
pub fn append_bytes(dst: &mut Vec<u8>, src: &Vec<u8>)
    ensures
        final(dst)@ == old(dst)@ + src@,
{
    let mut j: usize = 0;
    while j < src.len()
        invariant
            0 <= j <= src@.len(),
            dst@ == old(dst)@ + src@.take(j as int),
        decreases src@.len() - j,
    {
        dst.push(src[j]);
        j = j + 1;
        proof {
            assert(old(dst)@ + src@.take(j - 1) + seq![src@[j - 1]] =~= old(dst)@ + src@.take(
                j as int,
            ));
        }
    }
    proof {
        assert(old(dst)@ + src@.take(src@.len() as int) =~= old(dst)@ + src@);
    }
}

/// Reads the length-prefixed name at `p`.
pub fn read_name(b: &[u8], p: usize) -> (r: Option<(Vec<u8>, usize)>)
    ensures
        match r {
            Some(v) => {
                &&& spec_name(b@, p as int) matches Some(m)
                &&& v.0@ == m.0
                &&& v.1 as int == m.1
            },
            None => spec_name(b@, p as int) is None,
        },
{
    if p < b.len() {
        let n: usize = b[p] as usize;
        if n <= b.len() - p - 1 {
            let bytes: Vec<u8> = copy_range(b, p + 1, p + 1 + n);
            Some((bytes, p + 1 + n))
        } else {
            None
        }
    } else {
        None
    }
}

/// Reads the OMF variable index at `p`.
pub fn read_index(b: &[u8], p: usize) -> (r: Option<(u16, usize)>)
    ensures
        match r {
            Some(v) => {
                &&& spec_index(b@, p as int) matches Some(m)
                &&& v.0 as int == m.0
                &&& v.1 as int == m.1
            },
            None => spec_index(b@, p as int) is None,
        },
{
    if p >= b.len() {
        None
    } else {
        let c: u8 = b[p];
        if c < 128 {
            Some((c as u16, p + 1))
        } else if b.len() - p >= 2 {
            let hi: u16 = (c - 128) as u16;
            let lo: u16 = b[p + 1] as u16;
            Some((hi * 256 + lo, p + 2))
        } else {
            None
        }
    }
}

/// Reads the OMF variable-length number at `p`.
pub fn read_varnum(b: &[u8], p: usize) -> (r: Option<(u32, usize)>)
    ensures
        match r {
            Some(v) => {
                &&& spec_varnum(b@, p as int) matches Some(m)
                &&& v.0 as int == m.0
                &&& v.1 as int == m.1
            },
            None => spec_varnum(b@, p as int) is None,
        },
{
    if p >= b.len() {
        None
    } else {
        let c: u8 = b[p];
        if c <= 0x80 {
            Some((c as u32, p + 1))
        } else if c == 0x81 && b.len() - p >= 2 {
            Some((b[p + 1] as u32, p + 2))
        } else if c == 0x82 && b.len() - p >= 3 {
            Some((read_le16(b, p + 1) as u32, p + 3))
        } else if c == 0x84 && b.len() - p >= 5 {
            Some((read_le32(b, p + 1), p + 5))
        } else {
            None
        }
    }
}

} // verus!
