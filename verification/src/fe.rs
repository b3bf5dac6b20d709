//! Five-limb little-endian representation of field elements, with modular
//! addition, subtraction and comparison.  Five 64-bit limbs hold any value
//! below 2^320, which is enough room for the 298-bit primes of the MNT
//! curve cycle and for the carries their modular arithmetic produces.

use vstd::prelude::*;

verus! {

use vstd::arithmetic::div_mod::{
    lemma_small_mod, lemma_mod_sub_multiples_vanish, lemma_mod_add_multiples_vanish,
    lemma_mod_multiples_vanish, lemma_fundamental_div_mod,
};

/// 2^64, the weight of the second limb.
pub open spec fn p64() -> nat {
    0x10000000000000000nat
}

/// 2^128, the weight of the third limb.
pub open spec fn p128() -> nat {
    0x100000000000000000000000000000000nat
}

/// 2^192, the weight of the fourth limb.
pub open spec fn p192() -> nat {
    0x1000000000000000000000000000000000000000000000000nat
}

/// 2^256, the weight of the fifth limb.
pub open spec fn p256() -> nat {
    0x10000000000000000000000000000000000000000000000000000000000000000nat
}

/// 2^320, one more than the largest value five limbs can hold.
pub open spec fn p320() -> nat {
    0x100000000000000000000000000000000000000000000000000000000000000000000000000000000nat
}

/// An unsigned integer below 2^320: five 64-bit limbs, least significant first.
#[derive(Clone, Copy, PartialEq, Eq, Structural, Debug)]
pub struct Fe {
    pub l0: u64,
    pub l1: u64,
    pub l2: u64,
    pub l3: u64,
    pub l4: u64,
}

impl Fe {
    /// The integer this element stands for.
    pub open spec fn val(self) -> nat {
        (self.l0 + self.l1 * p64() + self.l2 * p128() + self.l3 * p192() + self.l4 * p256()) as nat
    }

    pub fn new(l0: u64, l1: u64, l2: u64, l3: u64, l4: u64) -> (r: Fe)
        ensures
            r.val() == l0 + l1 * p64() + l2 * p128() + l3 * p192() + l4 * p256(),
    {
        Fe { l0, l1, l2, l3, l4 }
    }

    pub fn zero() -> (r: Fe)
        ensures
            r.val() == 0,
    {
        Fe { l0: 0, l1: 0, l2: 0, l3: 0, l4: 0 }
    }

    pub fn one() -> (r: Fe)
        ensures
            r.val() == 1,
    {
        Fe { l0: 1, l1: 0, l2: 0, l3: 0, l4: 0 }
    }
}

/// Two elements with the same value have the same limbs: the base-2^64
/// representation is unique.
pub proof fn lemma_fe_val_inj(a: Fe, b: Fe)
    requires
        a.val() == b.val(),
    ensures
        a == b,
{
    let ka: nat = (a.l1 + a.l2 * p64() + a.l3 * p128() + a.l4 * p192()) as nat;
    let kb: nat = (b.l1 + b.l2 * p64() + b.l3 * p128() + b.l4 * p192()) as nat;
    assert(a.val() == p64() * ka + a.l0);
    assert(b.val() == p64() * kb + b.l0);
    lemma_mod_multiples_vanish(ka as int, a.l0 as int, p64() as int);
    lemma_mod_multiples_vanish(kb as int, b.l0 as int, p64() as int);
    lemma_small_mod(a.l0 as nat, p64());
    lemma_small_mod(b.l0 as nat, p64());
    assert(a.l0 == b.l0);
    assert(ka == kb);
    let ja: nat = (a.l2 + a.l3 * p64() + a.l4 * p128()) as nat;
    let jb: nat = (b.l2 + b.l3 * p64() + b.l4 * p128()) as nat;
    assert(ka == p64() * ja + a.l1);
    assert(kb == p64() * jb + b.l1);
    lemma_mod_multiples_vanish(ja as int, a.l1 as int, p64() as int);
    lemma_mod_multiples_vanish(jb as int, b.l1 as int, p64() as int);
    lemma_small_mod(a.l1 as nat, p64());
    lemma_small_mod(b.l1 as nat, p64());
    assert(a.l1 == b.l1);
    assert(ja == jb);
    let ia: nat = (a.l3 + a.l4 * p64()) as nat;
    let ib: nat = (b.l3 + b.l4 * p64()) as nat;
    assert(ja == p64() * ia + a.l2);
    assert(jb == p64() * ib + b.l2);
    lemma_mod_multiples_vanish(ia as int, a.l2 as int, p64() as int);
    lemma_mod_multiples_vanish(ib as int, b.l2 as int, p64() as int);
    lemma_small_mod(a.l2 as nat, p64());
    lemma_small_mod(b.l2 as nat, p64());
    assert(a.l2 == b.l2);
    assert(ia == ib);
    assert(ia == p64() * (a.l4 as nat) + a.l3);
    assert(ib == p64() * (b.l4 as nat) + b.l3);
    lemma_mod_multiples_vanish(a.l4 as int, a.l3 as int, p64() as int);
    lemma_mod_multiples_vanish(b.l4 as int, b.l3 as int, p64() as int);
    lemma_small_mod(a.l3 as nat, p64());
    lemma_small_mod(b.l3 as nat, p64());
    assert(a.l3 == b.l3);
    assert(a.l4 == b.l4);
}

/// Equality of values, decided limb by limb.
pub fn fe_eq(a: &Fe, b: &Fe) -> (r: bool)
    ensures
        r == (a.val() == b.val()),
{
    let r = a.l0 == b.l0 && a.l1 == b.l1 && a.l2 == b.l2 && a.l3 == b.l3 && a.l4 == b.l4;
    proof {
        if !r {
            if a.val() == b.val() {
                lemma_fe_val_inj(*a, *b);
            }
        }
    }
    r
}

/// Strict comparison of values, decided lexicographically from the top limb.
pub fn fe_lt(a: &Fe, b: &Fe) -> (r: bool)
    ensures
        r == (a.val() < b.val()),
{
    if a.l4 != b.l4 {
        a.l4 < b.l4
    } else if a.l3 != b.l3 {
        a.l3 < b.l3
    } else if a.l2 != b.l2 {
        a.l2 < b.l2
    } else if a.l1 != b.l1 {
        a.l1 < b.l1
    } else {
        a.l0 < b.l0
    }
}

/// One step of a carry chain: `x + y + c` split into a low limb and a carry.
fn carry_add(x: u64, y: u64, c: u64) -> (r: (u64, u64))
    requires
        c <= 1,
    ensures
        x + y + c == r.0 + r.1 * p64(),
        r.1 <= 1,
{
    let t: u128 = x as u128 + y as u128 + c as u128;
    let lo: u64 = (t % 0x10000000000000000u128) as u64;
    let hi: u64 = (t / 0x10000000000000000u128) as u64;
    proof {
        lemma_fundamental_div_mod(t as int, 0x10000000000000000);
    }
    (lo, hi)
}

/// One step of a borrow chain: `x - y - br` as a low limb and an outgoing borrow.
fn borrow_sub(x: u64, y: u64, br: u64) -> (r: (u64, u64))
    requires
        br <= 1,
    ensures
        x - y - br == r.0 - r.1 * p64(),
        r.1 <= 1,
{
    let t: u128 = 0x10000000000000000u128 + x as u128 - y as u128 - br as u128;
    let lo: u64 = (t % 0x10000000000000000u128) as u64;
    let bo: u64 = if t >= 0x10000000000000000u128 {
        0
    } else {
        1
    };
    proof {
        if t >= 0x10000000000000000u128 {
            lemma_mod_sub_multiples_vanish(t as int, 0x10000000000000000);
            lemma_small_mod((t - 0x10000000000000000) as nat, p64());
        } else {
            lemma_small_mod(t as nat, p64());
        }
    }
    (lo, bo)
}

/// Plain addition of two five-limb values whose sum still fits in five limbs.
pub fn fe_add_raw(a: &Fe, b: &Fe) -> (r: Fe)
    requires
        a.val() + b.val() < p320(),
    ensures
        r.val() == a.val() + b.val(),
{
    let (s0, c0) = carry_add(a.l0, b.l0, 0);
    let (s1, c1) = carry_add(a.l1, b.l1, c0);
    let (s2, c2) = carry_add(a.l2, b.l2, c1);
    let (s3, c3) = carry_add(a.l3, b.l3, c2);
    let (s4, c4) = carry_add(a.l4, b.l4, c3);
    let r = Fe { l0: s0, l1: s1, l2: s2, l3: s3, l4: s4 };
    proof {
        assert(a.val() + b.val() == r.val() + c4 * p320());
    }
    r
}

/// Plain subtraction of five-limb values, defined when it cannot go negative.
pub fn fe_sub_raw(a: &Fe, b: &Fe) -> (r: Fe)
    requires
        b.val() <= a.val(),
    ensures
        r.val() == a.val() - b.val(),
{
    let (d0, b0) = borrow_sub(a.l0, b.l0, 0);
    let (d1, b1) = borrow_sub(a.l1, b.l1, b0);
    let (d2, b2) = borrow_sub(a.l2, b.l2, b1);
    let (d3, b3) = borrow_sub(a.l3, b.l3, b2);
    let (d4, b4) = borrow_sub(a.l4, b.l4, b3);
    let r = Fe { l0: d0, l1: d1, l2: d2, l3: d3, l4: d4 };
    proof {
        assert(a.val() - b.val() == r.val() - b4 * p320());
    }
    r
}

/// Modular addition of two residues below a modulus `m` with `2*m <= 2^320`.
pub fn fe_add_mod(a: &Fe, b: &Fe, m: &Fe) -> (r: Fe)
    requires
        a.val() < m.val(),
        b.val() < m.val(),
        2 * m.val() <= p320(),
    ensures
        r.val() == (a.val() + b.val()) % m.val(),
        r.val() < m.val(),
{
    let s = fe_add_raw(a, b);
    if fe_lt(&s, m) {
        proof {
            lemma_small_mod(s.val(), m.val());
        }
        s
    } else {
        let r = fe_sub_raw(&s, m);
        proof {
            lemma_mod_sub_multiples_vanish(s.val() as int, m.val() as int);
            lemma_small_mod((s.val() - m.val()) as nat, m.val());
        }
        r
    }
}

/// Modular subtraction of residues: the representative of `a - b` below `m`.
pub fn fe_sub_mod(a: &Fe, b: &Fe, m: &Fe) -> (r: Fe)
    requires
        a.val() < m.val(),
        b.val() < m.val(),
        2 * m.val() <= p320(),
    ensures
        r.val() == (a.val() - b.val()) % (m.val() as int),
        r.val() < m.val(),
{
    if fe_lt(a, b) {
        let s = fe_add_raw(a, m);
        let r = fe_sub_raw(&s, b);
        proof {
            lemma_mod_add_multiples_vanish(a.val() - b.val(), m.val() as int);
            lemma_small_mod((a.val() + m.val() - b.val()) as nat, m.val());
        }
        r
    } else {
        let r = fe_sub_raw(a, b);
        proof {
            lemma_small_mod((a.val() - b.val()) as nat, m.val());
        }
        r
    }
}

} // verus!
