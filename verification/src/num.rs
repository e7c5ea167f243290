//! Big-endian and little-endian readings of byte strings as natural numbers,
//! and the facts about them that the parsers and the field code rely on.
use vstd::prelude::*;

verus! {

/// `256^n`.
pub open spec fn pow256(n: nat) -> nat
    decreases n,
{
    if n == 0 {
        1
    } else {
        256 * pow256((n - 1) as nat)
    }
}

/// The number that `s` spells in base 256, most significant byte first.
pub open spec fn be_nat(s: Seq<u8>) -> nat
    decreases s.len(),
{
    if s.len() == 0 {
        0
    } else {
        be_nat(s.drop_last()) * 256 + s.last() as nat
    }
}

/// The number that `s` spells in base 256, least significant byte first.
pub open spec fn le_nat(s: Seq<u8>) -> nat
    decreases s.len(),
{
    if s.len() == 0 {
        0
    } else {
        s[0] as nat + 256 * le_nat(s.drop_first())
    }
}

/// The `n` bytes that spell `v % 256^n` most significant byte first.
pub open spec fn be_bytes(v: nat, n: nat) -> Seq<u8>
    decreases n,
{
    if n == 0 {
        Seq::empty()
    } else {
        be_bytes(v / 256, (n - 1) as nat).push((v % 256) as u8)
    }
}

/// `s` read back to front.
pub open spec fn reversed(s: Seq<u8>) -> Seq<u8> {
    Seq::new(s.len(), |i: int| s[s.len() - 1 - i])
}

pub proof fn lemma_pow256_pos(n: nat)
    ensures
        pow256(n) > 0,
    decreases n,
{
    if n > 0 {
        lemma_pow256_pos((n - 1) as nat);
    }
}

pub proof fn lemma_pow256_adds(a: nat, b: nat)
    ensures
        pow256(a + b) == pow256(a) * pow256(b),
    decreases b,
{
    if b == 0 {
        assert(pow256(0) == 1);
        assert(a + b == a);
    } else {
        let c: nat = (b - 1) as nat;
        lemma_pow256_adds(a, c);
        assert(((a + b) - 1) as nat == a + c);
        assert(pow256(a + b) == 256 * pow256(a + c));
        assert(pow256(b) == 256 * pow256(c));
        let x = pow256(a);
        let y = pow256(c);
        assert(256 * (x * y) == x * (256 * y)) by (nonlinear_arith);
    }
}

pub proof fn lemma_pow256_mono(a: nat, b: nat)
    requires
        a <= b,
    ensures
        pow256(a) <= pow256(b),
    decreases b,
{
    if a < b {
        lemma_pow256_mono(a, (b - 1) as nat);
    }
}

/// Concrete powers used by the fixed layouts.
pub proof fn lemma_pow256_values()
    ensures
        pow256(0) == 1,
        pow256(1) == 256,
        pow256(8) == 0x1_0000_0000_0000_0000,
        pow256(15) == 0x1_0000_0000_0000_0000_0000_0000_0000_00,
        pow256(17) == 0x1_0000_0000_0000_0000_0000_0000_0000_0000_00,
        pow256(32) == 0x1_0000_0000_0000_0000_0000_0000_0000_0000_0000_0000_0000_0000_0000_0000_0000_0000,
{
    reveal_with_fuel(pow256, 33);
}

/// A number spelled with `s.len()` bytes is below `256^len`.
pub proof fn lemma_be_nat_bound(s: Seq<u8>)
    ensures
        be_nat(s) < pow256(s.len()),
    decreases s.len(),
{
    if s.len() > 0 {
        lemma_be_nat_bound(s.drop_last());
        let p = be_nat(s.drop_last());
        let q = pow256((s.len() - 1) as nat);
        assert(p * 256 + s.last() < q * 256) by (nonlinear_arith)
            requires
                p < q,
                s.last() < 256,
        ;
    }
}

/// Reading a concatenation: the left part is shifted by the length of the right part.
pub proof fn lemma_be_nat_concat(a: Seq<u8>, b: Seq<u8>)
    ensures
        be_nat(a + b) == be_nat(a) * pow256(b.len()) + be_nat(b),
    decreases b.len(),
{
    if b.len() == 0 {
        assert(a + b =~= a);
        assert(pow256(0) == 1);
        assert(be_nat(b) == 0);
    } else {
        let c = a + b;
        assert(c.drop_last() =~= a + b.drop_last());
        assert(c.last() == b.last());
        lemma_be_nat_concat(a, b.drop_last());
        let x = be_nat(a);
        let p = pow256((b.len() - 1) as nat);
        let y = be_nat(b.drop_last());
        assert(pow256(b.len()) == 256 * p);
        assert(be_nat(c) == be_nat(c.drop_last()) * 256 + c.last());
        assert(be_nat(b) == y * 256 + b.last());
        assert((x * p + y) * 256 + b.last() == x * (256 * p) + (y * 256 + b.last()))
            by (nonlinear_arith);
    }
}

/// A one-byte string spells its byte.
pub proof fn lemma_be_nat_single(b: u8)
    ensures
        be_nat(seq![b]) == b,
{
    let s = seq![b];
    assert(s.drop_last() =~= Seq::<u8>::empty());
    assert(be_nat(Seq::<u8>::empty()) == 0);
    assert(s.last() == b);
}

/// Splitting a string at `k`.
pub proof fn lemma_be_nat_split(s: Seq<u8>, k: int)
    requires
        0 <= k <= s.len(),
    ensures
        be_nat(s) == be_nat(s.subrange(0, k)) * pow256((s.len() - k) as nat) + be_nat(
            s.subrange(k, s.len() as int),
        ),
{
    assert(s =~= s.subrange(0, k) + s.subrange(k, s.len() as int));
    lemma_be_nat_concat(s.subrange(0, k), s.subrange(k, s.len() as int));
}

/// Leading zero bytes do not change the number.
pub proof fn lemma_be_nat_leading_zeros(s: Seq<u8>, k: int)
    requires
        0 <= k <= s.len(),
        forall|i: int| 0 <= i < k ==> s[i] == 0,
    ensures
        be_nat(s) == be_nat(s.subrange(k, s.len() as int)),
{
    lemma_be_nat_split(s, k);
    lemma_be_nat_zeros(s.subrange(0, k));
}

/// A string of zero bytes spells zero, and only such strings do.
pub proof fn lemma_be_nat_zeros(s: Seq<u8>)
    ensures
        (be_nat(s) == 0) <==> (forall|i: int| 0 <= i < s.len() ==> s[i] == 0),
    decreases s.len(),
{
    if s.len() > 0 {
        lemma_be_nat_zeros(s.drop_last());
        if be_nat(s) == 0 {
            assert forall|i: int| 0 <= i < s.len() implies s[i] == 0 by {
                if i < s.len() - 1 {
                    assert(s[i] == s.drop_last()[i]);
                }
            }
        }
        if forall|i: int| 0 <= i < s.len() ==> s[i] == 0 {
            assert forall|i: int| 0 <= i < s.drop_last().len() implies s.drop_last()[i] == 0 by {
                assert(s.drop_last()[i] == s[i]);
            }
        }
    }
}

/// `be_bytes` spells the number modulo `256^n`.
pub proof fn lemma_be_bytes_value(v: nat, n: nat)
    ensures
        be_bytes(v, n).len() == n,
        be_nat(be_bytes(v, n)) == v % pow256(n),
    decreases n,
{
    if n > 0 {
        lemma_be_bytes_value(v / 256, (n - 1) as nat);
        let s = be_bytes(v, n);
        assert(s.drop_last() =~= be_bytes(v / 256, (n - 1) as nat));
        let p = pow256((n - 1) as nat);
        lemma_pow256_pos((n - 1) as nat);
        assert(((v / 256) % p) * 256 + v % 256 == v % (256 * p)) by (nonlinear_arith)
            requires
                p > 0,
        {
            vstd::arithmetic::div_mod::lemma_breakdown(v as int, 256, p as int);
        }
    }
}

/// Two strings of the same length that spell the same number are equal.
pub proof fn lemma_be_nat_injective(a: Seq<u8>, b: Seq<u8>)
    requires
        a.len() == b.len(),
        be_nat(a) == be_nat(b),
    ensures
        a == b,
    decreases a.len(),
{
    if a.len() > 0 {
        let x = be_nat(a.drop_last());
        let y = be_nat(b.drop_last());
        let u = a.last() as int;
        let w = b.last() as int;
        assert(u == w && x == y) by (nonlinear_arith)
            requires
                x * 256 + u == y * 256 + w,
                0 <= u < 256,
                0 <= w < 256,
                x >= 0,
                y >= 0,
        ;
        lemma_be_nat_injective(a.drop_last(), b.drop_last());
        assert(a =~= a.drop_last().push(a.last()));
        assert(b =~= b.drop_last().push(b.last()));
    }
}

/// A string of length `n` is the `be_bytes` spelling of its own number.
pub proof fn lemma_be_bytes_of_be_nat(s: Seq<u8>)
    ensures
        be_bytes(be_nat(s), s.len()) == s,
{
    lemma_be_bytes_value(be_nat(s), s.len());
    lemma_be_nat_bound(s);
    vstd::arithmetic::div_mod::lemma_small_mod(be_nat(s), pow256(s.len()));
    lemma_be_nat_injective(be_bytes(be_nat(s), s.len()), s);
}

/// The little-endian reading of `s` is the big-endian reading of `s` reversed.
pub proof fn lemma_le_nat_reversed(s: Seq<u8>)
    ensures
        le_nat(s) == be_nat(reversed(s)),
    decreases s.len(),
{
    if s.len() > 0 {
        let t = reversed(s);
        lemma_le_nat_reversed(s.drop_first());
        assert(t.drop_last() =~= reversed(s.drop_first()));
        assert(t.last() == s[0]);
    }
}

} // verus!
