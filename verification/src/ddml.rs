//! Schema-driven codec over a sponge context.
//!
//! A message schema is the same sequence of verbs (`absorb`, `mask`,
//! `squeeze`, `commit`, ...) executed under three contexts: [`sizeof`]
//! computes the wire length, [`wrap`] emits bytes, [`unwrap`] consumes them.
//! Running the same schema under each context keeps the emitted and consumed
//! layouts in agreement by construction.
//!
//! Wire primitives: fixed-width big-endian integers, `size` values encoded as
//! a length-of-length byte (`0..=8`) followed by the big-endian value, raw
//! byte runs, and `size`-prefixed byte runs.

pub mod sizeof;
pub mod unwrap;
pub mod wrap;

use vstd::prelude::*;

verus! {

/// `256^k`.
pub open spec fn pow256(k: nat) -> int
    decreases k,
{
    if k == 0 {
        1
    } else {
        256 * pow256((k - 1) as nat)
    }
}

/// The `k`-byte big-endian encoding of `n` (most significant byte first).
pub open spec fn be_bytes(n: int, k: nat) -> Seq<u8>
    decreases k,
{
    if k == 0 {
        Seq::empty()
    } else {
        be_bytes(n / 256, (k - 1) as nat).push((n % 256) as u8)
    }
}

/// The value of a big-endian byte run.
pub open spec fn be_val(b: Seq<u8>) -> int
    decreases b.len(),
{
    if b.len() == 0 {
        0
    } else {
        be_val(b.drop_last()) * 256 + b.last()
    }
}

/// How many bytes the `size` encoding spends on the value `n`.
pub open spec fn size_len(n: int) -> nat {
    if n <= 0 { 0 }
    else if n < 0x100 { 1 }
    else if n < 0x1_0000 { 2 }
    else if n < 0x100_0000 { 3 }
    else if n < 0x1_0000_0000 { 4 }
    else if n < 0x100_0000_0000 { 5 }
    else if n < 0x1_0000_0000_0000 { 6 }
    else if n < 0x100_0000_0000_0000 { 7 }
    else { 8 }
}

/// The variable-length `size` encoding: length-of-length byte, then the
/// big-endian value. `0` encodes as the single byte `0`.
pub open spec fn size_bytes(n: int) -> Seq<u8> {
    seq![size_len(n) as u8] + be_bytes(n, size_len(n))
}

/// Whether `input` holds a canonical `size` encoding at `pos`: a
/// length-of-length of at most eight, that many bytes behind it, and no
/// shorter encoding of the same value.
pub open spec fn size_parses(input: Seq<u8>, pos: int) -> bool {
    pos + 1 <= input.len() && input[pos] <= 8 && pos + 1 + input[pos] <= input.len()
        && size_len(be_val(input.subrange(pos + 1, pos + 1 + input[pos]))) == input[pos]
}

/// The value of the canonical `size` field at `pos` (given
/// [`size_parses`]).
pub open spec fn size_parsed_val(input: Seq<u8>, pos: int) -> int {
    be_val(input.subrange(pos + 1, pos + 1 + input[pos]))
}

pub proof fn lemma_pow256_values()
    ensures
        pow256(0) == 1,
        pow256(1) == 0x100,
        pow256(2) == 0x1_0000,
        pow256(3) == 0x100_0000,
        pow256(4) == 0x1_0000_0000,
        pow256(5) == 0x100_0000_0000,
        pow256(6) == 0x1_0000_0000_0000,
        pow256(7) == 0x100_0000_0000_0000,
        pow256(8) == 0x1_0000_0000_0000_0000,
{
    assert(pow256(0) == 1);
    assert(pow256(1) == 0x100);
    assert(pow256(2) == 0x1_0000);
    assert(pow256(3) == 0x100_0000);
    assert(pow256(4) == 0x1_0000_0000);
    assert(pow256(5) == 0x100_0000_0000);
    assert(pow256(6) == 0x1_0000_0000_0000);
    assert(pow256(7) == 0x100_0000_0000_0000);
    assert(pow256(8) == 0x1_0000_0000_0000_0000);
}

/// Every `u64` fits in eight big-endian bytes.
pub proof fn lemma_size_len_bound(n: u64)
    ensures
        size_len(n as int) <= 8,
        n < pow256(size_len(n as int)),
{
    lemma_pow256_values();
}

/// A big-endian byte run decodes to the value it was encoded from.
pub proof fn lemma_be_val_of_bytes(n: int, k: nat)
    requires
        0 <= n,
        n < pow256(k),
    ensures
        be_bytes(n, k).len() == k,
        be_val(be_bytes(n, k)) == n,
    decreases k,
{
    if k == 0 {
    } else {
        assert(pow256(k) == 256 * pow256((k - 1) as nat));
        lemma_pow256_pos((k - 1) as nat);
        assert(n / 256 < pow256((k - 1) as nat)) by (nonlinear_arith)
            requires
                0 <= n,
                n < 256 * pow256((k - 1) as nat),
                pow256((k - 1) as nat) > 0,
        ;
        lemma_be_val_of_bytes(n / 256, (k - 1) as nat);
        assert(be_bytes(n, k).drop_last() =~= be_bytes(n / 256, (k - 1) as nat));
        assert(be_val(be_bytes(n, k)) == (n / 256) * 256 + n % 256);
        assert((n / 256) * 256 + n % 256 == n) by (nonlinear_arith);
    }
}

pub proof fn lemma_pow256_pos(k: nat)
    ensures
        pow256(k) > 0,
    decreases k,
{
    if k > 0 {
        lemma_pow256_pos((k - 1) as nat);
    }
}

/// The value of a big-endian byte run is bounded by `256^len`.
pub proof fn lemma_be_val_bound(b: Seq<u8>)
    ensures
        0 <= be_val(b) < pow256(b.len()),
    decreases b.len(),
{
    if b.len() == 0 {
    } else {
        lemma_be_val_bound(b.drop_last());
        let prev = be_val(b.drop_last());
        assert(prev * 256 + b.last() < 256 * pow256((b.len() - 1) as nat)) by (nonlinear_arith)
            requires
                0 <= prev,
                prev < pow256((b.len() - 1) as nat),
                0 <= b.last() < 256,
        ;
        assert(prev * 256 >= 0) by (nonlinear_arith)
            requires 0 <= prev,
        ;
    }
}


/// Two equally long big-endian byte runs with the same value are equal.
pub proof fn lemma_be_val_injective(a: Seq<u8>, b: Seq<u8>)
    requires
        a.len() == b.len(),
        be_val(a) == be_val(b),
    ensures
        a == b,
    decreases a.len(),
{
    if a.len() == 0 {
        assert(a =~= b);
    } else {
        let fa = be_val(a.drop_last());
        let fb = be_val(b.drop_last());
        lemma_be_val_bound(a.drop_last());
        lemma_be_val_bound(b.drop_last());
        assert(fa * 256 + a.last() == fb * 256 + b.last());
        assert(fa == fb && a.last() == b.last()) by (nonlinear_arith)
            requires
                fa * 256 + a.last() == fb * 256 + b.last(),
                0 <= a.last() < 256,
                0 <= b.last() < 256,
                0 <= fa,
                0 <= fb,
        ;
        lemma_be_val_injective(a.drop_last(), b.drop_last());
        assert forall|i: int| 0 <= i < a.len() implies a[i] == b[i] by {
            if i < a.len() - 1 {
                assert(a[i] == a.drop_last()[i]);
                assert(b[i] == b.drop_last()[i]);
            } else {
                assert(a[i] == a.last());
                assert(b[i] == b.last());
            }
        }
        assert(a =~= b);
    }
}

/// Append `src` to `dst`.
pub fn vec_extend(dst: &mut Vec<u8>, src: &[u8])
    ensures
        final(dst)@ == old(dst)@ + src@,
{
    let mut i: usize = 0;
    while i < src.len()
        invariant
            i <= src@.len(),
            dst@ == old(dst)@ + src@.take(i as int),
        decreases src@.len() - i,
    {
        dst.push(src[i]);
        i = i + 1;
        proof {
            assert(old(dst)@ + src@.take(i as int) =~= (old(dst)@ + src@.take(i as int - 1))
                .push(src@[i as int - 1]));
        }
    }
    proof {
        assert(old(dst)@ + src@.take(src@.len() as int) =~= old(dst)@ + src@);
    }
}

/// Big-endian encode `n` on `k` bytes.
pub fn be_encode(n: u64, k: usize) -> (r: Vec<u8>)
    requires
        k <= 8,
    ensures
        r@ == be_bytes(n as int, k as nat),
        r@.len() == k,
    decreases k,
{
    proof {
        lemma_pow256_pos(k as nat);
        lemma_be_val_of_bytes(0, 0);
    }
    if k == 0 {
        let r: Vec<u8> = Vec::new();
        proof {
            assert(r@ =~= be_bytes(n as int, 0));
        }
        r
    } else {
        let mut r = be_encode(n / 256, k - 1);
        r.push((n % 256) as u8);
        r
    }
}

/// Value of a big-endian byte run of at most eight bytes.
pub fn be_decode(b: &[u8]) -> (n: u64)
    requires
        b@.len() <= 8,
    ensures
        n == be_val(b@),
{
    proof {
        lemma_pow256_values();
    }
    let mut val: u64 = 0;
    let mut i: usize = 0;
    while i < b.len()
        invariant
            b@.len() <= 8,
            i <= b@.len(),
            val == be_val(b@.take(i as int)),
        decreases b@.len() - i,
    {
        proof {
            lemma_be_val_bound(b@.take(i as int));
            lemma_pow256_values();
            lemma_pow256_mono(i as nat, 7);
        }
        val = val * 256 + (b[i] as u64);
        i = i + 1;
        proof {
            assert(b@.take(i as int).drop_last() =~= b@.take(i as int - 1));
        }
    }
    proof {
        assert(b@.take(b@.len() as int) =~= b@);
    }
    val
}

pub proof fn lemma_pow256_mono(a: nat, b: nat)
    requires
        a <= b,
    ensures
        pow256(a) <= pow256(b),
    decreases b,
{
    if a < b {
        lemma_pow256_mono(a, (b - 1) as nat);
        lemma_pow256_pos((b - 1) as nat);
    }
}

/// Number of bytes the `size` encoding spends on the value `n`.
pub fn size_len_exec(n: u64) -> (k: usize)
    ensures
        k == size_len(n as int),
        k <= 8,
{
    if n == 0 { 0 }
    else if n < 0x100 { 1 }
    else if n < 0x1_0000 { 2 }
    else if n < 0x100_0000 { 3 }
    else if n < 0x1_0000_0000 { 4 }
    else if n < 0x100_0000_0000 { 5 }
    else if n < 0x1_0000_0000_0000 { 6 }
    else if n < 0x100_0000_0000_0000 { 7 }
    else { 8 }
}

/// The full `size` encoding of `n`.
pub fn size_encode(n: u64) -> (r: Vec<u8>)
    ensures
        r@ == size_bytes(n as int),
        r@.len() == size_len(n as int) + 1,
{
    let k = size_len_exec(n);
    let rest = be_encode(n, k);
    let mut r: Vec<u8> = Vec::new();
    r.push(k as u8);
    let mut i: usize = 0;
    while i < rest.len()
        invariant
            i <= rest@.len(),
            r@.len() == i + 1,
            r@[0] == size_len(n as int) as u8,
            forall|j: int| 0 <= j < i ==> r@[j + 1] == rest@[j],
        decreases rest@.len() - i,
    {
        r.push(rest[i]);
        i = i + 1;
    }
    proof {
        assert(r@ =~= size_bytes(n as int));
    }
    r
}

} // verus!
