//! Canonical big-endian encoding of unsigned 64-bit values as byte buffers.
//!
//! Arguments and finished results travel through the harness as byte buffers;
//! a buffer stands for the unsigned integer that its bytes spell in base 256,
//! most significant byte first. The canonical spelling of a value is the
//! shortest one: no leading zero byte, and the empty buffer for zero.

use vstd::prelude::*;

verus! {

/// 256 raised to the power `k`: the first value that does not fit in `k`
/// bytes.
pub open spec fn pow256(k: nat) -> nat
    decreases k,
{
    if k == 0 {
        1
    } else {
        256 * pow256((k - 1) as nat)
    }
}

/// The unsigned value that a byte buffer spells in base 256, most significant
/// byte first. The empty buffer spells zero.
pub open spec fn be_value(s: Seq<u8>) -> nat
    decreases s.len(),
{
    if s.len() == 0 {
        0
    } else {
        be_value(s.drop_last()) * 256 + (s.last() as nat)
    }
}

/// The canonical encoding of `v`: its base-256 digits, most significant
/// first, with no leading zero byte. Zero encodes as the empty buffer.
pub open spec fn canonical_bytes(v: nat) -> Seq<u8>
    decreases v,
{
    if v == 0 {
        Seq::empty()
    } else {
        canonical_bytes(v / 256).push((v % 256) as u8)
    }
}

/// Every power of 256 is positive.
pub proof fn lemma_pow256_positive(k: nat)
    ensures
        pow256(k) >= 1,
    decreases k,
{
    if k > 0 {
        lemma_pow256_positive((k - 1) as nat);
    }
}

/// Eight bytes hold exactly the unsigned 64-bit values.
pub proof fn lemma_pow256_eight()
    ensures
        pow256(8) == 0x1_0000_0000_0000_0000,
{
    reveal_with_fuel(pow256, 9);
}

/// Concatenation decomposes: the bytes of `a` followed by those of `b` spell
/// the value of `a` shifted left by `b`'s length, plus the value of `b`.
pub proof fn lemma_be_value_concat(a: Seq<u8>, b: Seq<u8>)
    ensures
        be_value(a + b) == be_value(a) * pow256(b.len()) + be_value(b),
    decreases b.len(),
{
    if b.len() == 0 {
        assert(a + b =~= a);
        assert(pow256(b.len()) == 1);
        assert(be_value(b) == 0);
        assert(be_value(a + b) == be_value(a));
        assert(be_value(a + b) == be_value(a) * pow256(b.len()) + be_value(b));
    } else {
        lemma_be_value_concat(a, b.drop_last());
        assert((a + b).drop_last() =~= a + b.drop_last());
        assert((a + b).last() == b.last());
        let x = be_value(a);
        let p = pow256((b.len() - 1) as nat);
        let y = be_value(b.drop_last());
        assert(pow256(b.len()) == 256 * p);
        assert(be_value(a + b) == be_value(a + b.drop_last()) * 256 + (b.last() as nat));
        assert(be_value(a + b.drop_last()) == x * p + y);
        assert(be_value(b) == y * 256 + (b.last() as nat));
        assert((x * p + y) * 256 == x * (256 * p) + y * 256) by (nonlinear_arith);
    }
}

/// Decoding inverts encoding: the canonical bytes of `v` spell `v`.
pub proof fn lemma_canonical_round_trip(v: nat)
    ensures
        be_value(canonical_bytes(v)) == v,
    decreases v,
{
    if v > 0 {
        lemma_canonical_round_trip(v / 256);
        let c = canonical_bytes(v);
        assert(c.drop_last() =~= canonical_bytes(v / 256));
    }
}

/// Builds the canonical encoding of `v`.
pub fn encode_u64(v: u64) -> (r: Vec<u8>)
    ensures
        r@ == canonical_bytes(v as nat),
    decreases v,
{
    if v == 0 {
        Vec::new()
    } else {
        let mut r = encode_u64(v / 256);
        r.push((v % 256) as u8);
        r
    }
}

/// Reads a byte buffer back as an unsigned 64-bit value; `None` exactly when
/// the buffer spells a value too large for 64 bits.
pub fn decode_u64(bytes: &Vec<u8>) -> (r: Option<u64>)
    ensures
        be_value(bytes@) < pow256(8) ==> r == Some((be_value(bytes@) as u64)),
        be_value(bytes@) >= pow256(8) ==> r is None,
{
    proof {
        lemma_pow256_eight();
    }
    let mut acc: u64 = 0;
    let mut i: usize = 0;
    while i < bytes.len()
        invariant
            i <= bytes.len(),
            acc as nat == be_value(bytes@.take(i as int)),
            pow256(8) == 0x1_0000_0000_0000_0000,
        decreases bytes.len() - i,
    {
        if acc > 0x00FF_FFFF_FFFF_FFFF {
            proof {
                lemma_split_bound(bytes@, i as int);
            }
            return None;
        }
        let b: u8 = bytes[i];
        proof {
            assert(bytes@.take(i as int + 1).drop_last() =~= bytes@.take(i as int));
        }
        acc = acc * 256 + (b as u64);
        i = i + 1;
    }
    proof {
        assert(bytes@.take(bytes@.len() as int) =~= bytes@);
    }
    Some(acc)
}

/// A buffer whose first `i` bytes already spell a value of at least
/// `pow256(7)` spells, as a whole, a value of at least `pow256(8)`.
proof fn lemma_split_bound(s: Seq<u8>, i: int)
    requires
        0 <= i < s.len(),
        be_value(s.take(i)) >= 0x0100_0000_0000_0000,
    ensures
        be_value(s) >= pow256(8),
{
    let head = s.take(i);
    let tail = s.skip(i);
    assert(head + tail =~= s);
    lemma_be_value_concat(head, tail);
    lemma_pow256_positive((tail.len() - 1) as nat);
    assert(pow256(tail.len()) >= 256);
    assert(be_value(head) * pow256(tail.len()) >= 0x0100_0000_0000_0000 * 256) by (nonlinear_arith)
        requires
            be_value(head) >= 0x0100_0000_0000_0000,
            pow256(tail.len()) >= 256,
    ;
    reveal_with_fuel(pow256, 9);
}

} // verus!
