//! Expansion of LIDATA iterated data blocks.
//!
//! An iterated block is `[repeat][block count][body]`, where `repeat` is
//! 16 bits (32 in the LIDATA32 form) and the count is 16 bits.  A zero
//! count makes the body one length-prefixed run of literal bytes; a
//! non-zero count makes it that many nested iterated blocks.  The block
//! denotes its body's bytes repeated `repeat` times.
//!
//! Expansion is bounded to defeat decompression bombs: nesting deeper
//! than [`LIDATA_MAX_DEPTH`] or output growing past
//! [`LIDATA_EXPANSION_CAP`] times the encoded length fails with
//! `LidataBomb`.  The reader stores LIDATA chunks unexpanded; expansion
//! happens here, on demand.

use vstd::prelude::*;

use crate::error::OmfErrorKind;
use crate::prims::{append_bytes, read_le16, read_le32, spec_le16, spec_le32};

verus! {

/// Deepest accepted nesting of iterated blocks.
pub const LIDATA_MAX_DEPTH: u32 = 16;

/// Largest accepted ratio of expanded size to encoded size.
pub const LIDATA_EXPANSION_CAP: u64 = 64;

/// `s` repeated `n` times.
pub open spec fn spec_repeat_seq(s: Seq<u8>, n: int) -> Seq<u8>
    decreases n,
{
    if n <= 0 {
        Seq::<u8>::empty()
    } else {
        spec_repeat_seq(s, n - 1) + s
    }
}

/// Repeating multiplies the length.
pub proof fn lemma_repeat_seq_len(s: Seq<u8>, n: int)
    requires
        n >= 0,
    ensures
        spec_repeat_seq(s, n).len() == n * s.len(),
    decreases n,
{
    if n == 0 {
        assert(n * s.len() == 0) by (nonlinear_arith)
            requires n == 0;
    } else {
        lemma_repeat_seq_len(s, n - 1);
        assert((n - 1) * s.len() + s.len() == n * s.len()) by (nonlinear_arith);
    }
}

/// Expands the single iterated block at `p`.  Yields the expanded bytes
/// and the position after the block.  Fails with `Truncated` when the
/// block runs past the buffer, and with `LidataBomb` when `depth` is
/// exhausted or the expansion would exceed `budget` bytes.
pub open spec fn spec_expand_block(
    b: Seq<u8>,
    p: int,
    is32: bool,
    depth: int,
    budget: int,
) -> Result<(Seq<u8>, int), OmfErrorKind>
    recommends
        0 <= p,
    decreases depth, 0int,
{
    if depth <= 0 {
        Err(OmfErrorKind::LidataBomb)
    } else {
        let hdr: int = if is32 { 6 } else { 4 };
        if p + hdr > b.len() {
            Err(OmfErrorKind::Truncated)
        } else {
            let repeat: int = if is32 {
                spec_le32(b, p)
            } else {
                spec_le16(b, p)
            };
            let count: int = spec_le16(b, p + hdr - 2);
            let q: int = p + hdr;
            if count == 0 {
                if q >= b.len() || q + 1 + b[q] > b.len() {
                    Err(OmfErrorKind::Truncated)
                } else {
                    let content = b.subrange(q + 1, q + 1 + b[q]);
                    if repeat * content.len() > budget {
                        Err(OmfErrorKind::LidataBomb)
                    } else {
                        Ok((spec_repeat_seq(content, repeat), q + 1 + b[q]))
                    }
                }
            } else {
                match spec_expand_children(b, q, count, is32, depth - 1, budget) {
                    Err(e) => Err(e),
                    Ok(m) => {
                        if repeat * m.0.len() > budget {
                            Err(OmfErrorKind::LidataBomb)
                        } else {
                            Ok((spec_repeat_seq(m.0, repeat), m.1))
                        }
                    },
                }
            }
        }
    }
}

/// Expands `n` consecutive iterated blocks at `p`, concatenating their
/// expansions; the budget shrinks as output accumulates.
pub open spec fn spec_expand_children(
    b: Seq<u8>,
    p: int,
    n: int,
    is32: bool,
    depth: int,
    budget: int,
) -> Result<(Seq<u8>, int), OmfErrorKind>
    recommends
        0 <= p,
    decreases depth, n + 1,
{
    if n <= 0 {
        Ok((Seq::<u8>::empty(), p))
    } else {
        match spec_expand_block(b, p, is32, depth, budget) {
            Err(e) => Err(e),
            Ok(c) => match spec_expand_children(b, c.1, n - 1, is32, depth, budget - c.0.len()) {
                Err(e) => Err(e),
                Ok(r) => Ok((c.0 + r.0, r.1)),
            },
        }
    }
}

/// An expanded block stays inside the buffer, consumes at least its
/// header, and never exceeds its budget.
pub proof fn lemma_expand_block_bounds(b: Seq<u8>, p: int, is32: bool, depth: int, budget: int)
    requires
        0 <= p,
    ensures
        spec_expand_block(b, p, is32, depth, budget) matches Ok(m) ==> p < m.1 <= b.len()
            && 0 <= m.0.len() <= budget,
    decreases depth, 0int,
{
    if depth > 0 {
        let hdr: int = if is32 { 6 } else { 4 };
        if p + hdr <= b.len() {
            let repeat: int = if is32 {
                spec_le32(b, p)
            } else {
                spec_le16(b, p)
            };
            let count: int = spec_le16(b, p + hdr - 2);
            let q: int = p + hdr;
            if count == 0 {
                if !(q >= b.len() || q + 1 + b[q] > b.len()) {
                    let content = b.subrange(q + 1, q + 1 + b[q]);
                    lemma_repeat_seq_len(content, repeat);
                    assert(repeat * content.len() >= 0) by (nonlinear_arith)
                        requires repeat >= 0 && content.len() >= 0;
                }
            } else {
                lemma_expand_children_bounds(b, q, count, is32, depth - 1, budget);
                match spec_expand_children(b, q, count, is32, depth - 1, budget) {
                    Ok(m) => {
                        lemma_repeat_seq_len(m.0, repeat);
                        assert(repeat * m.0.len() >= 0) by (nonlinear_arith)
                            requires repeat >= 0 && m.0.len() >= 0;
                    },
                    Err(_) => {},
                }
            }
        }
    }
}

/// Expanded children stay inside the buffer and within budget.
pub proof fn lemma_expand_children_bounds(
    b: Seq<u8>,
    p: int,
    n: int,
    is32: bool,
    depth: int,
    budget: int,
)
    requires
        0 <= p,
    ensures
        spec_expand_children(b, p, n, is32, depth, budget) matches Ok(m) ==> p <= m.1 <= b.len()
            && 0 <= m.0.len() <= budget || n <= 0,
        n <= 0 && p <= b.len() ==> (spec_expand_children(b, p, n, is32, depth, budget) matches
            Ok(m) && m.1 == p && m.0.len() == 0),
    decreases depth, n + 1,
{
    if n > 0 {
        lemma_expand_block_bounds(b, p, is32, depth, budget);
        match spec_expand_block(b, p, is32, depth, budget) {
            Ok(c) => {
                lemma_expand_children_bounds(b, c.1, n - 1, is32, depth, budget - c.0.len());
            },
            Err(_) => {},
        }
    }
}

/// Expands a whole LIDATA data region: consecutive iterated blocks from
/// `p` to the end of the buffer.
pub open spec fn spec_expand_run(b: Seq<u8>, p: int, is32: bool, budget: int) -> Result<
    Seq<u8>,
    OmfErrorKind,
>
    recommends
        0 <= p,
    decreases b.len() - p,
    via spec_expand_run_dec
{
    if p < 0 || p >= b.len() {
        Ok(Seq::<u8>::empty())
    } else {
        match spec_expand_block(b, p, is32, LIDATA_MAX_DEPTH as int, budget) {
            Err(e) => Err(e),
            Ok(c) => match spec_expand_run(b, c.1, is32, budget - c.0.len()) {
                Err(e) => Err(e),
                Ok(r) => Ok(c.0 + r),
            },
        }
    }
}

#[via_fn]
proof fn spec_expand_run_dec(b: Seq<u8>, p: int, is32: bool, budget: int) {
    if 0 <= p < b.len() {
        lemma_expand_block_bounds(b, p, is32, LIDATA_MAX_DEPTH as int, budget);
    }
}

/// The expansion of a LIDATA data region, with the default size cap of
/// [`LIDATA_EXPANSION_CAP`] times the encoded length.
pub open spec fn spec_expand_lidata(b: Seq<u8>, is32: bool) -> Result<Seq<u8>, OmfErrorKind> {
    spec_expand_run(b, 0, is32, LIDATA_EXPANSION_CAP as int * b.len())
}

/// Builds `content` repeated `n` times.
fn repeat_bytes(content: &Vec<u8>, n: u32) -> (r: Vec<u8>)
    requires
        n * content@.len() <= u64::MAX,
    ensures
        r@ == spec_repeat_seq(content@, n as int),
{
    let mut out: Vec<u8> = Vec::new();
    let mut k: u32 = 0;
    while k < n
        invariant
            0 <= k <= n,
            out@ == spec_repeat_seq(content@, k as int),
        decreases n - k,
    {
        append_bytes(&mut out, content);
        k = k + 1;
    }
    out
}

/// Expands the iterated block at `p`; see [`spec_expand_block`].
fn expand_block(b: &[u8], p: usize, is32: bool, depth: u32, budget: u64) -> (r: Result<
    (Vec<u8>, usize),
    OmfErrorKind,
>)
    ensures
        match r {
            Ok(v) => {
                &&& spec_expand_block(b@, p as int, is32, depth as int, budget as int) matches Ok(
                    m,
                )
                &&& v.0@ == m.0
                &&& v.1 as int == m.1
            },
            Err(e) => spec_expand_block(b@, p as int, is32, depth as int, budget as int) == Err::<
                (Seq<u8>, int),
                OmfErrorKind,
            >(e),
        },
    decreases depth,
{
    if depth == 0 {
        return Err(OmfErrorKind::LidataBomb);
    }
    let hdr: usize = if is32 {
        6
    } else {
        4
    };
    if p > b.len() || b.len() - p < hdr {
        return Err(OmfErrorKind::Truncated);
    }
    let repeat: u32 = if is32 {
        read_le32(b, p)
    } else {
        read_le16(b, p) as u32
    };
    let count: u16 = read_le16(b, p + hdr - 2);
    let q: usize = p + hdr;
    if count == 0 {
        if q >= b.len() {
            return Err(OmfErrorKind::Truncated);
        }
        let ell: usize = b[q] as usize;
        if b.len() - q - 1 < ell {
            return Err(OmfErrorKind::Truncated);
        }
        let content: Vec<u8> = crate::prims::copy_range(b, q + 1, q + 1 + ell);
        proof {
            assert((repeat as int) * (content@.len() as int) <= u128::MAX) by (nonlinear_arith)
                requires
                    0 <= repeat as int <= 0xFFFF_FFFF,
                    0 <= content@.len() as int <= 0xFFFF_FFFF_FFFF_FFFF,
            ;
        }
        if (repeat as u128) * (content.len() as u128) > budget as u128 {
            return Err(OmfErrorKind::LidataBomb);
        }
        let expanded: Vec<u8> = repeat_bytes(&content, repeat);
        Ok((expanded, q + 1 + ell))
    } else {
        // The children loop mirrors `spec_expand_children` at depth - 1.
        let ghost child_depth: int = depth as int - 1;
        let mut acc: Vec<u8> = Vec::new();
        let mut pos: usize = q;
        let mut k: u16 = 0;
        let mut failed: Option<OmfErrorKind> = None;
        while k < count && failed.is_none()
            invariant
                0 <= k <= count,
                0 <= pos <= b@.len(),
                acc@.len() <= budget,
                failed is None ==> spec_expand_children(
                    b@,
                    q as int,
                    count as int,
                    is32,
                    child_depth,
                    budget as int,
                ) == (match spec_expand_children(
                    b@,
                    pos as int,
                    count - k,
                    is32,
                    child_depth,
                    budget - acc@.len(),
                ) {
                    Ok(m) => Ok::<(Seq<u8>, int), OmfErrorKind>((acc@ + m.0, m.1)),
                    Err(e) => Err(e),
                }),
                failed matches Some(e) ==> spec_expand_children(
                    b@,
                    q as int,
                    count as int,
                    is32,
                    child_depth,
                    budget as int,
                ) == Err::<(Seq<u8>, int), OmfErrorKind>(e),
                child_depth == depth - 1,
                depth >= 1,
            decreases count - k + (if failed.is_none() { 1int } else { 0int }),
        {
            match expand_block(b, pos, is32, depth - 1, budget - acc.len() as u64) {
                Err(e) => {
                    failed = Some(e);
                },
                Ok(v) => {
                    proof {
                        lemma_expand_block_bounds(
                            b@,
                            pos as int,
                            is32,
                            child_depth,
                            budget - acc@.len(),
                        );
                        let rest = spec_expand_children(
                            b@,
                            v.1 as int,
                            count - k - 1,
                            is32,
                            child_depth,
                            budget - acc@.len() - v.0@.len(),
                        );
                        match rest {
                            Ok(m) => {
                                assert(acc@ + (v.0@ + m.0) =~= (acc@ + v.0@) + m.0);
                            },
                            Err(_) => {},
                        }
                    }
                    append_bytes(&mut acc, &v.0);
                    pos = v.1;
                    k = k + 1;
                },
            }
        }
        match failed {
            Some(e) => Err(e),
            None => {
                proof {
                    assert(acc@ + Seq::<u8>::empty() =~= acc@);
                    assert((repeat as int) * (acc@.len() as int) <= u128::MAX) by (nonlinear_arith)
                        requires
                            0 <= repeat as int <= 0xFFFF_FFFF,
                            0 <= acc@.len() as int <= 0xFFFF_FFFF_FFFF_FFFF,
                    ;
                }
                if (repeat as u128) * (acc.len() as u128) > budget as u128 {
                    return Err(OmfErrorKind::LidataBomb);
                }
                let expanded: Vec<u8> = repeat_bytes(&acc, repeat);
                Ok((expanded, pos))
            },
        }
    }
}

/// Expands a LIDATA data region (the bytes of a LIDATA chunk after its
/// segment index and offset): consecutive iterated blocks to the end.
/// Expansion is pure; expanding the same bytes twice gives the same
/// result.  Fails with `Truncated` on a block that runs past the end,
/// and with `LidataBomb` when nesting passes [`LIDATA_MAX_DEPTH`] or the
/// output would exceed [`LIDATA_EXPANSION_CAP`] times the input length.
pub fn expand_lidata(raw: &[u8], is32: bool) -> (r: Result<Vec<u8>, OmfErrorKind>)
    requires
        raw@.len() * LIDATA_EXPANSION_CAP <= u64::MAX,
    ensures
        match r {
            Ok(v) => spec_expand_lidata(raw@, is32) == Ok::<Seq<u8>, OmfErrorKind>(v@),
            Err(e) => spec_expand_lidata(raw@, is32) == Err::<Seq<u8>, OmfErrorKind>(e),
        },
{
    let cap: u64 = raw.len() as u64 * LIDATA_EXPANSION_CAP;
    let mut out: Vec<u8> = Vec::new();
    let mut p: usize = 0;
    let mut failed: Option<OmfErrorKind> = None;
    while p < raw.len() && failed.is_none()
        invariant
            0 <= p <= raw@.len(),
            out@.len() <= cap,
            cap == raw@.len() * LIDATA_EXPANSION_CAP,
            failed is None ==> spec_expand_run(raw@, 0, is32, cap as int) == (
            match spec_expand_run(raw@, p as int, is32, cap - out@.len()) {
                Ok(m) => Ok::<Seq<u8>, OmfErrorKind>(out@ + m),
                Err(e) => Err(e),
            }),
            failed matches Some(e) ==> spec_expand_run(raw@, 0, is32, cap as int) == Err::<
                Seq<u8>,
                OmfErrorKind,
            >(e),
        decreases raw@.len() - p + (if failed.is_none() { 1int } else { 0int }),
    {
        match expand_block(raw, p, is32, LIDATA_MAX_DEPTH, cap - out.len() as u64) {
            Err(e) => {
                failed = Some(e);
            },
            Ok(v) => {
                proof {
                    lemma_expand_block_bounds(
                        raw@,
                        p as int,
                        is32,
                        LIDATA_MAX_DEPTH as int,
                        cap - out@.len(),
                    );
                    let rest = spec_expand_run(
                        raw@,
                        v.1 as int,
                        is32,
                        cap - out@.len() - v.0@.len(),
                    );
                    match rest {
                        Ok(m) => {
                            assert(out@ + (v.0@ + m) =~= (out@ + v.0@) + m);
                        },
                        Err(_) => {},
                    }
                }
                append_bytes(&mut out, &v.0);
                p = v.1;
            },
        }
    }
    match failed {
        Some(e) => Err(e),
        None => {
            proof {
                assert(out@ + Seq::<u8>::empty() =~= out@);
            }
            Ok(out)
        },
    }
}

} // verus!

verus! {

/// The plainest encoding of literal bytes as one iterated block (16-bit
/// form): repeat 1, block count 0, then the length-prefixed bytes.
pub open spec fn spec_literal_encoding(s: Seq<u8>) -> Seq<u8>
    recommends
        s.len() <= 255,
{
    seq![1u8, 0u8, 0u8, 0u8, s.len() as u8] + s
}

/// Expanding the literal encoding of bytes gives those bytes back.
pub proof fn lemma_literal_encoding_expands(s: Seq<u8>)
    requires
        s.len() <= 255,
    ensures
        spec_expand_lidata(spec_literal_encoding(s), false) == Ok::<Seq<u8>, OmfErrorKind>(s),
{
    let b = spec_literal_encoding(s);
    let budget: int = LIDATA_EXPANSION_CAP as int * b.len();
    assert(b.len() == 5 + s.len());
    assert(b[0] == 1u8 && b[1] == 0u8 && b[2] == 0u8 && b[3] == 0u8);
    assert(b[4] == s.len() as u8);
    assert(spec_le16(b, 0) == 1);
    assert(spec_le16(b, 2) == 0);
    let content = b.subrange(5, 5 + b[4]);
    assert(content =~= s);
    assert(spec_repeat_seq(content, 0) =~= Seq::<u8>::empty());
    assert(spec_repeat_seq(content, 1) =~= content);
    assert(spec_expand_block(b, 0, false, LIDATA_MAX_DEPTH as int, budget) == Ok::<
        (Seq<u8>, int),
        OmfErrorKind,
    >((s, b.len() as int)));
    assert(spec_expand_run(b, b.len() as int, false, budget - s.len()) == Ok::<
        Seq<u8>,
        OmfErrorKind,
    >(Seq::<u8>::empty()));
    assert(s + Seq::<u8>::empty() =~= s);
}

/// Expansion is idempotent: re-encoding an expansion as literal bytes
/// and expanding again yields the same bytes.
pub proof fn lemma_expansion_idempotent(raw: Seq<u8>, is32: bool, e: Seq<u8>)
    requires
        spec_expand_lidata(raw, is32) == Ok::<Seq<u8>, OmfErrorKind>(e),
        e.len() <= 255,
    ensures
        spec_expand_lidata(spec_literal_encoding(e), false) == Ok::<Seq<u8>, OmfErrorKind>(e),
{
    lemma_literal_encoding_expands(e);
}

} // verus!
