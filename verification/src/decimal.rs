//! A verified reader of big-endian ASCII decimal digit strings into field
//! elements, so that the literal decimal constants a curve is published with
//! can be rebuilt and checked against the stored limb tables.

use vstd::prelude::*;

verus! {

use vstd::arithmetic::div_mod::lemma_fundamental_div_mod;
use crate::fe::{Fe, p64, p320};

/// The number a big-endian ASCII decimal digit string stands for.
pub open spec fn dec_val(s: Seq<u8>) -> nat
    decreases s.len(),
{
    if s.len() == 0 {
        0
    } else {
        (dec_val(s.drop_last()) * 10 + (s.last() - 48)) as nat
    }
}

/// Every byte is an ASCII decimal digit.
pub open spec fn all_digits(s: Seq<u8>) -> bool {
    forall|i: int| 0 <= i < s.len() ==> 48 <= #[trigger] s[i] <= 57
}

/// A digit string's prefixes never stand for more than the whole string.
pub proof fn lemma_dec_val_mono(s: Seq<u8>, i: int)
    requires
        all_digits(s),
        0 <= i <= s.len(),
    ensures
        dec_val(s.take(i)) <= dec_val(s),
    decreases s.len() - i,
{
    if i == s.len() {
        assert(s.take(i) =~= s);
    } else {
        assert(s.take(i + 1).drop_last() =~= s.take(i));
        assert(s.take(i + 1).last() == s[i]);
        assert(dec_val(s.take(i + 1)) == dec_val(s.take(i)) * 10 + (s[i] - 48));
        lemma_dec_val_mono(s, i + 1);
    }
}

/// One decimal step: `10*a + d`, or `None` when it no longer fits five limbs.
fn mul10_add(a: &Fe, d: u64) -> (r: Option<Fe>)
    requires
        d < 10,
    ensures
        match r {
            Some(v) => v.val() == 10 * a.val() + d,
            None => 10 * a.val() + d >= p320(),
        },
{
    let t0: u128 = a.l0 as u128 * 10 + d as u128;
    let l0: u64 = (t0 % 0x10000000000000000u128) as u64;
    let c0: u64 = (t0 / 0x10000000000000000u128) as u64;
    let t1: u128 = a.l1 as u128 * 10 + c0 as u128;
    let l1: u64 = (t1 % 0x10000000000000000u128) as u64;
    let c1: u64 = (t1 / 0x10000000000000000u128) as u64;
    let t2: u128 = a.l2 as u128 * 10 + c1 as u128;
    let l2: u64 = (t2 % 0x10000000000000000u128) as u64;
    let c2: u64 = (t2 / 0x10000000000000000u128) as u64;
    let t3: u128 = a.l3 as u128 * 10 + c2 as u128;
    let l3: u64 = (t3 % 0x10000000000000000u128) as u64;
    let c3: u64 = (t3 / 0x10000000000000000u128) as u64;
    let t4: u128 = a.l4 as u128 * 10 + c3 as u128;
    let l4: u64 = (t4 % 0x10000000000000000u128) as u64;
    let c4: u64 = (t4 / 0x10000000000000000u128) as u64;
    proof {
        lemma_fundamental_div_mod(t0 as int, 0x10000000000000000);
        lemma_fundamental_div_mod(t1 as int, 0x10000000000000000);
        lemma_fundamental_div_mod(t2 as int, 0x10000000000000000);
        lemma_fundamental_div_mod(t3 as int, 0x10000000000000000);
        lemma_fundamental_div_mod(t4 as int, 0x10000000000000000);
    }
    let v = Fe { l0, l1, l2, l3, l4 };
    proof {
        assert(10 * a.val() + d == v.val() + c4 * p320());
    }
    if c4 == 0 {
        Some(v)
    } else {
        None
    }
}

/// Read a big-endian ASCII decimal string into a five-limb value: `Some`
/// exactly when every byte is a digit and the value fits below 2^320.
pub fn fe_from_decimal(s: &Vec<u8>) -> (r: Option<Fe>)
    ensures
        match r {
            Some(v) => all_digits(s@) && v.val() == dec_val(s@) && dec_val(s@) < p320(),
            None => !all_digits(s@) || dec_val(s@) >= p320(),
        },
{
    let mut acc = Fe::zero();
    let mut i: usize = 0;
    while i < s.len()
        invariant
            i <= s@.len(),
            acc.val() == dec_val(s@.take(i as int)),
            forall|j: int| 0 <= j < i ==> 48 <= #[trigger] s@[j] <= 57,
        decreases s@.len() - i,
    {
        let b: u8 = s[i];
        if b < 48 || b > 57 {
            return None;
        }
        let d: u64 = (b - 48) as u64;
        let stepped = mul10_add(&acc, d);
        proof {
            assert(s@.take(i + 1).drop_last() =~= s@.take(i as int));
            assert(s@.take(i + 1).last() == s@[i as int]);
            assert(dec_val(s@.take(i + 1)) == dec_val(s@.take(i as int)) * 10 + (s@[i as int]
                - 48));
        }
        match stepped {
            Some(v) => {
                acc = v;
            },
            None => {
                proof {
                    if all_digits(s@) {
                        lemma_dec_val_mono(s@, i + 1);
                    }
                }
                return None;
            },
        }
        i += 1;
    }
    proof {
        assert(s@.take(s@.len() as int) =~= s@);
        assert(all_digits(s@));
    }
    Some(acc)
}

} // verus!
