//! Values of limb and bit sequences, and modular multiplication by the
//! binary double-and-add method.  A scalar is first decomposed into bits;
//! the multiplication loop then folds the bits from the most significant
//! end, doubling and conditionally adding modulo the modulus.

use vstd::prelude::*;

verus! {

use vstd::arithmetic::power2::{pow2, lemma_pow2_adds, lemma2_to64};
use vstd::arithmetic::div_mod::{lemma_small_mod, lemma_mul_mod_noop_right, lemma_add_mod_noop};
use vstd::arithmetic::mul::{
    lemma_mul_is_distributive_add, lemma_mul_is_distributive_add_other_way,
    lemma_mul_is_associative, lemma_mul_is_commutative,
};
use crate::fe::{Fe, p64, p320, fe_add_mod};

/// The integer a little-endian sequence of 64-bit limbs stands for.
pub open spec fn limbs_val(s: Seq<u64>) -> nat
    decreases s.len(),
{
    if s.len() == 0 {
        0
    } else {
        (s[0] + p64() * limbs_val(s.skip(1))) as nat
    }
}

/// The integer a little-endian sequence of bits stands for.
pub open spec fn bits_val(s: Seq<bool>) -> nat
    decreases s.len(),
{
    if s.len() == 0 {
        0
    } else {
        ((if s[0] {
            1int
        } else {
            0int
        }) + 2 * bits_val(s.skip(1))) as nat
    }
}

/// Appending a bit adds its weight at the position it lands on.
pub proof fn lemma_bits_val_push(s: Seq<bool>, b: bool)
    ensures
        bits_val(s.push(b)) == bits_val(s) + (if b {
            pow2(s.len())
        } else {
            0
        }),
    decreases s.len(),
{
    if s.len() == 0 {
        assert(s.push(b).skip(1) =~= Seq::<bool>::empty());
        assert(s.push(b)[0] == b);
        assert(bits_val(Seq::<bool>::empty()) == 0);
        assert(pow2(0) == 1) by {
            lemma2_to64();
        }
        assert(bits_val(s.push(b)) == (if b {
            1nat
        } else {
            0nat
        }));
    } else {
        lemma_bits_val_push(s.skip(1), b);
        assert(s.push(b).skip(1) =~= s.skip(1).push(b));
        assert(s.push(b)[0] == s[0]);
        assert(bits_val(s.push(b)) == ((if s[0] {
            1int
        } else {
            0int
        }) + 2 * bits_val(s.skip(1).push(b))) as nat);
        assert(bits_val(s) == ((if s[0] {
            1int
        } else {
            0int
        }) + 2 * bits_val(s.skip(1))) as nat);
        lemma_pow2_adds(1, (s.len() - 1) as nat);
        assert(pow2(1) == 2) by {
            lemma2_to64();
        }
        assert(pow2(s.len()) == 2 * pow2((s.len() - 1) as nat));
    }
}

/// Appending a limb adds its value at the position it lands on.
pub proof fn lemma_limbs_val_push(s: Seq<u64>, x: u64)
    ensures
        limbs_val(s.push(x)) == limbs_val(s) + x * pow2(64 * s.len()),
    decreases s.len(),
{
    if s.len() == 0 {
        assert(s.push(x).skip(1) =~= Seq::<u64>::empty());
        assert(s.push(x)[0] == x);
        assert(limbs_val(Seq::<u64>::empty()) == 0);
        assert(pow2(0) == 1) by {
            lemma2_to64();
        }
        assert(limbs_val(s.push(x)) == x + p64() * 0);
    } else {
        lemma_limbs_val_push(s.skip(1), x);
        assert(s.push(x).skip(1) =~= s.skip(1).push(x));
        assert(s.push(x)[0] == s[0]);
        assert(limbs_val(s.push(x)) == (s[0] + p64() * limbs_val(s.skip(1).push(x))) as nat);
        assert(limbs_val(s) == (s[0] + p64() * limbs_val(s.skip(1))) as nat);
        let pp: int = pow2((64 * (s.len() - 1)) as nat) as int;
        lemma_pow2_adds(64, (64 * (s.len() - 1)) as nat);
        assert(pow2(64) == 0x10000000000000000) by {
            lemma2_to64();
        }
        assert(pow2(64 * s.len()) == p64() * pp);
        lemma_mul_is_distributive_add(
            p64() as int,
            limbs_val(s.skip(1)) as int,
            (x as int) * pp,
        );
        assert(p64() * (limbs_val(s.skip(1)) + (x as int) * pp) == p64() * limbs_val(s.skip(1))
            + p64() * ((x as int) * pp));
        lemma_mul_is_associative(p64() as int, x as int, pp);
        lemma_mul_is_commutative(p64() as int, x as int);
        lemma_mul_is_associative(x as int, p64() as int, pp);
        assert(p64() * ((x as int) * pp) == (x as int) * (p64() * pp));
    }
}

/// Decompose limbs into bits, least significant first, preserving the value.
pub fn limbs_to_bits(s: &Vec<u64>) -> (r: Vec<bool>)
    ensures
        r@.len() == 64 * s@.len(),
        bits_val(r@) == limbs_val(s@),
{
    let mut r: Vec<bool> = Vec::new();
    let mut i: usize = 0;
    while i < s.len()
        invariant
            i <= s@.len(),
            r@.len() == 64 * i,
            bits_val(r@) == limbs_val(s@.take(i as int)),
        decreases s@.len() - i,
    {
        let limb: u64 = s[i];
        let mut t: u64 = limb;
        let mut k: usize = 0;
        proof {
            assert(t < pow2(64)) by {
                lemma2_to64();
            }
        }
        while k < 64
            invariant
                k <= 64,
                i < s@.len(),
                limb == s@[i as int],
                r@.len() == 64 * i + k,
                t < pow2((64 - k) as nat),
                bits_val(r@) + t * pow2((64 * i + k) as nat) == limbs_val(s@.take(i as int))
                    + limb * pow2((64 * i) as nat),
            decreases 64 - k,
        {
            let bit: bool = t % 2 == 1;
            let ghost oldbits: Seq<bool> = r@;
            let ghost oldt: u64 = t;
            let ghost pos: nat = (64 * i + k) as nat;
            r.push(bit);
            t = t / 2;
            k += 1;
            proof {
                lemma_bits_val_push(oldbits, bit);
                assert(pow2(1) == 2) by {
                    lemma2_to64();
                }
                lemma_pow2_adds(1, pos);
                assert(pow2(pos + 1) == 2 * pow2(pos));
                lemma_pow2_adds(1, (64 - k) as nat);
                assert(pow2((64 - k + 1) as nat) == 2 * pow2((64 - k) as nat));
                let bn: int = if bit {
                    1int
                } else {
                    0int
                };
                assert(oldt == 2 * (t as int) + bn);
                assert(oldt < 2 * pow2((64 - k) as nat));
                assert(t < pow2((64 - k) as nat));
                let pp: int = pow2(pos) as int;
                assert(oldt * pp == (2 * (t as int) + bn) * pp);
                lemma_mul_is_distributive_add_other_way(pp, 2 * (t as int), bn);
                assert((2 * (t as int) + bn) * pp == (2 * (t as int)) * pp + bn * pp);
                assert((t as int) * (2 * pp) == (2 * (t as int)) * pp) by {
                    lemma_mul_is_associative(t as int, 2, pp);
                    lemma_mul_is_commutative(t as int, 2);
                    lemma_mul_is_associative(2, t as int, pp);
                    lemma_mul_is_commutative(2, t as int);
                }
                assert(bn * pp == (if bit {
                    pp
                } else {
                    0int
                }));
                assert(bits_val(r@) == bits_val(oldbits) + (if bit {
                    pow2(pos)
                } else {
                    0nat
                }));
                assert(bits_val(r@) + (t as int) * pow2((64 * i + k) as nat) == bits_val(oldbits)
                    + oldt * pow2(pos));
            }
        }
        proof {
            assert(pow2(0) == 1) by {
                lemma2_to64();
            }
            assert(t == 0);
            lemma_limbs_val_push(s@.take(i as int), limb);
            assert(s@.take(i as int).push(s@[i as int]) =~= s@.take(i as int + 1));
        }
        i += 1;
    }
    proof {
        assert(s@.take(s@.len() as int) =~= s@);
    }
    r
}

/// Modular product of a limb-sequence scalar with a residue below `m`,
/// by double-and-add from the most significant bit.
pub fn limbs_mul_mod(a: &Vec<u64>, b: &Fe, m: &Fe) -> (r: Fe)
    requires
        b.val() < m.val(),
        2 * m.val() <= p320(),
    ensures
        r.val() == (limbs_val(a@) * b.val()) % m.val(),
        r.val() < m.val(),
{
    let bits = limbs_to_bits(a);
    let mut acc = Fe::zero();
    let mut k: usize = bits.len();
    proof {
        assert(bits@.skip(k as int) =~= Seq::<bool>::empty());
        assert(bits_val(Seq::<bool>::empty()) == 0);
        lemma_small_mod(0, m.val());
        assert((0nat * b.val()) == 0);
    }
    while k > 0
        invariant
            k <= bits@.len(),
            b.val() < m.val(),
            2 * m.val() <= p320(),
            bits_val(bits@) == limbs_val(a@),
            acc.val() == (bits_val(bits@.skip(k as int)) * b.val()) % m.val(),
            acc.val() < m.val(),
        decreases k,
    {
        k -= 1;
        let bit: bool = bits[k];
        let dbl = fe_add_mod(&acc, &acc, m);
        let ghost n: nat = bits_val(bits@.skip(k as int + 1));
        proof {
            assert(bits@.skip(k as int)[0] == bits@[k as int]);
            assert(bits@.skip(k as int).skip(1) =~= bits@.skip(k as int + 1));
            lemma_mul_mod_noop_right(2, (n * b.val()) as int, m.val() as int);
            lemma_mul_is_associative(2, n as int, b.val() as int);
        }
        if bit {
            let nxt = fe_add_mod(&dbl, b, m);
            proof {
                lemma_small_mod(b.val(), m.val());
                lemma_add_mod_noop(2 * ((n * b.val()) as int), b.val() as int, m.val() as int);
                lemma_mul_is_distributive_add_other_way(b.val() as int, 2 * (n as int), 1);
                assert(bits_val(bits@.skip(k as int)) == 2 * n + 1);
            }
            acc = nxt;
        } else {
            proof {
                assert(bits_val(bits@.skip(k as int)) == 2 * n);
            }
            acc = dbl;
        }
    }
    proof {
        assert(bits@.skip(0) =~= bits@);
    }
    acc
}

/// The five limbs of a field element as a sequence with the same value.
pub fn fe_to_limbs(a: &Fe) -> (r: Vec<u64>)
    ensures
        r@.len() == 5,
        limbs_val(r@) == a.val(),
{
    let mut v: Vec<u64> = Vec::new();
    let ghost s0: Seq<u64> = v@;
    v.push(a.l0);
    let ghost s1: Seq<u64> = v@;
    v.push(a.l1);
    let ghost s2: Seq<u64> = v@;
    v.push(a.l2);
    let ghost s3: Seq<u64> = v@;
    v.push(a.l3);
    let ghost s4: Seq<u64> = v@;
    v.push(a.l4);
    proof {
        assert(limbs_val(s0) == 0);
        lemma_limbs_val_push(s0, a.l0);
        lemma_limbs_val_push(s1, a.l1);
        lemma_limbs_val_push(s2, a.l2);
        lemma_limbs_val_push(s3, a.l3);
        lemma_limbs_val_push(s4, a.l4);
        lemma2_to64();
        lemma_pow2_adds(64, 64);
        lemma_pow2_adds(128, 64);
        lemma_pow2_adds(192, 64);
        assert(pow2(0) == 1 && pow2(64) == p64() && pow2(128) == crate::fe::p128() && pow2(192)
            == crate::fe::p192() && pow2(256) == crate::fe::p256());
        assert(limbs_val(v@) == limbs_val(s4) + a.l4 * pow2(256));
        assert(limbs_val(s4) == limbs_val(s3) + a.l3 * pow2(192));
        assert(limbs_val(s3) == limbs_val(s2) + a.l2 * pow2(128));
        assert(limbs_val(s2) == limbs_val(s1) + a.l1 * pow2(64));
        assert(limbs_val(s1) == a.l0 * pow2(0));
        assert(a.l0 * pow2(0) == a.l0);
        assert(a.l1 * pow2(64) == a.l1 * p64());
        assert(a.l2 * pow2(128) == a.l2 * crate::fe::p128());
        assert(a.l3 * pow2(192) == a.l3 * crate::fe::p192());
        assert(a.l4 * pow2(256) == a.l4 * crate::fe::p256());
    }
    v
}

/// Modular product of two residues below `m`.
pub fn fe_mul_mod(a: &Fe, b: &Fe, m: &Fe) -> (r: Fe)
    requires
        a.val() < m.val(),
        b.val() < m.val(),
        2 * m.val() <= p320(),
    ensures
        r.val() == (a.val() * b.val()) % m.val(),
        r.val() < m.val(),
{
    let al = fe_to_limbs(a);
    limbs_mul_mod(&al, b, m)
}

} // verus!
