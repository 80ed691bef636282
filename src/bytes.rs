//! Fixed-width integer readers over byte slices, in either byte order.
use vstd::prelude::*;

verus! {

/// The unsigned value of `b` read least significant byte first.
pub open spec fn uint_le(b: Seq<u8>) -> nat
    decreases b.len(),
{
    if b.len() == 0 {
        0
    } else {
        b[0] as nat + 256 * uint_le(b.drop_first())
    }
}

/// The unsigned value of `b` read most significant byte first.
pub open spec fn uint_be(b: Seq<u8>) -> nat
    decreases b.len(),
{
    if b.len() == 0 {
        0
    } else {
        uint_be(b.drop_last()) * 256 + b.last() as nat
    }
}

/// The unsigned value of `b` in the given byte order.
pub open spec fn uint_of(b: Seq<u8>, little: bool) -> nat {
    if little {
        uint_le(b)
    } else {
        uint_be(b)
    }
}

/// The value of an unsigned `size`-byte integer read as two's complement.
pub open spec fn signed_of(u: nat, size: nat) -> int {
    if u >= pow256(size) / 2 {
        u - pow256(size)
    } else {
        u as int
    }
}

pub open spec fn pow256(n: nat) -> nat
    decreases n,
{
    if n == 0 {
        1
    } else {
        256 * pow256((n - 1) as nat)
    }
}

pub proof fn lemma_pow256_small()
    ensures
        pow256(0) == 1,
        pow256(1) == 256,
        pow256(2) == 0x1_0000,
        pow256(4) == 0x1_0000_0000,
        pow256(8) == 0x1_0000_0000_0000_0000,
{
    reveal_with_fuel(pow256, 9);
}

proof fn lemma_uint_be_step(b: Seq<u8>, k: int)
    requires
        0 <= k < b.len(),
    ensures
        uint_be(b.take(k + 1)) == uint_be(b.take(k)) * 256 + b[k] as nat,
{
    assert(b.take(k + 1).drop_last() =~= b.take(k));
}

proof fn lemma_uint_le_step(b: Seq<u8>, k: int)
    requires
        0 <= k < b.len(),
    ensures
        uint_le(b.subrange(k, b.len() as int)) == b[k] as nat + 256 * uint_le(
            b.subrange(k + 1, b.len() as int),
        ),
{
    assert(b.subrange(k, b.len() as int).drop_first() =~= b.subrange(k + 1, b.len() as int));
}

proof fn lemma_next_bound(acc: nat, byte: nat, n: nat)
    requires
        acc < pow256(n),
        byte < 256,
    ensures
        acc * 256 + byte < pow256(n + 1),
        byte + 256 * acc < pow256(n + 1),
{
    assert(pow256(n + 1) == 256 * pow256(n));
    assert(acc * 256 + byte < 256 * pow256(n)) by (nonlinear_arith)
        requires
            acc < pow256(n),
            byte < 256,
    ;
}

/// Reads the `size`-byte unsigned integer at `pos`, or `None` where the input ends first.
pub fn read_uint(input: &[u8], pos: usize, size: usize, little: bool) -> (r: Option<u64>)
    requires
        size <= 8,
    ensures
        r is Some <==> pos + size <= input@.len(),
        r matches Some(v) ==> v as nat == uint_of(
            input@.subrange(pos as int, pos + size),
            little,
        ),
        r matches Some(v) ==> (v as nat) < pow256(size as nat),
{
    if pos > input.len() || size > input.len() - pos {
        return None;
    }
    let ghost b = input@.subrange(pos as int, pos + size);
    proof {
        lemma_pow256_small();
        lemma_pow256_mono(0, size as nat);
        lemma_pow256_mono(size as nat, 8);
    }
    let mut acc: u64 = 0;
    if little {
        let mut k: usize = size;
        assert(b.subrange(size as int, size as int) =~= Seq::<u8>::empty());
        while k > 0
            invariant
                0 <= k <= size <= 8,
                pos + size <= input@.len(),
                input@.len() == input.len(),
                b == input@.subrange(pos as int, pos + size),
                acc as nat == uint_le(b.subrange(k as int, size as int)),
                (acc as nat) < pow256((size - k) as nat),
                pow256((size - k) as nat) <= pow256(size as nat),
                pow256(size as nat) <= 0x1_0000_0000_0000_0000,
            decreases k,
        {
            proof {
                lemma_uint_le_step(b, (k - 1) as int);
                lemma_next_bound(acc as nat, input@[pos + k - 1] as nat, (size - k) as nat);
                lemma_pow256_mono((size - k + 1) as nat, size as nat);
            }
            acc = input[pos + k - 1] as u64 + 256 * acc;
            k = k - 1;
        }
        assert(b.subrange(0, size as int) =~= b);
    } else {
        let mut k: usize = 0;
        assert(b.take(0) =~= Seq::<u8>::empty());
        while k < size
            invariant
                0 <= k <= size <= 8,
                pos + size <= input@.len(),
                input@.len() == input.len(),
                b == input@.subrange(pos as int, pos + size),
                acc as nat == uint_be(b.take(k as int)),
                (acc as nat) < pow256(k as nat),
                pow256(k as nat) <= pow256(size as nat),
                pow256(size as nat) <= 0x1_0000_0000_0000_0000,
            decreases size - k,
        {
            proof {
                lemma_uint_be_step(b, k as int);
                lemma_next_bound(acc as nat, input@[pos + k] as nat, k as nat);
                lemma_pow256_mono((k + 1) as nat, size as nat);
            }
            acc = acc * 256 + input[pos + k] as u64;
            k = k + 1;
        }
        assert(b.take(size as int) =~= b);
    }
    Some(acc)
}

proof fn lemma_pow256_mono(a: nat, b: nat)
    requires
        a <= b,
    ensures
        pow256(a) <= pow256(b),
    decreases b - a,
{
    if a < b {
        lemma_pow256_mono(a, (b - 1) as nat);
        assert(pow256(b) == 256 * pow256((b - 1) as nat));
    }
}

} // verus!
