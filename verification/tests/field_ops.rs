use mnt_g2::bits::{fe_mul_mod, limbs_mul_mod, fe_to_limbs, limbs_to_bits};
use mnt_g2::decimal::fe_from_decimal;
use mnt_g2::fe::{fe_add_mod, fe_add_raw, fe_eq, fe_lt, fe_sub_mod, fe_sub_raw, Fe};
use mnt_g2::mnt4_g2::Parameters;

fn small(n: u64) -> Fe {
    Fe::new(n, 0, 0, 0, 0)
}

#[test]
fn add_mod_small_modulus() {
    let m = small(7);
    assert_eq!(fe_add_mod(&small(3), &small(5), &m), small(1));
    assert_eq!(fe_add_mod(&small(3), &small(3), &m), small(6));
    assert_eq!(fe_add_mod(&small(0), &small(0), &m), small(0));
}

#[test]
fn sub_mod_small_modulus() {
    let m = small(7);
    assert_eq!(fe_sub_mod(&small(2), &small(5), &m), small(4));
    assert_eq!(fe_sub_mod(&small(5), &small(2), &m), small(3));
    assert_eq!(fe_sub_mod(&small(4), &small(4), &m), small(0));
}

#[test]
fn mul_mod_small_modulus() {
    let m = small(7);
    assert_eq!(fe_mul_mod(&small(3), &small(5), &m), small(1));
    assert_eq!(fe_mul_mod(&small(0), &small(5), &m), small(0));
    assert_eq!(fe_mul_mod(&small(6), &small(6), &m), small(1));
}

#[test]
fn raw_add_sub_carry_chains() {
    let a = Fe::new(u64::MAX, u64::MAX, 0, 0, 0);
    let one = Fe::new(1, 0, 0, 0, 0);
    let s = fe_add_raw(&a, &one);
    assert_eq!(s, Fe::new(0, 0, 1, 0, 0));
    assert_eq!(fe_sub_raw(&s, &one), a);
    assert!(fe_lt(&a, &s));
    assert!(!fe_lt(&s, &a));
    assert!(!fe_eq(&s, &a));
}

#[test]
fn mul_mod_q_minus_one_squares_to_one() {
    // (q-1)^2 = q^2 - 2q + 1 == 1 mod q.
    let q = Parameters::base_field_modulus();
    let qm1 = fe_sub_raw(&q, &Fe::one());
    let prod = fe_mul_mod(&qm1, &qm1, &q);
    assert!(fe_eq(&prod, &Fe::one()));
}

#[test]
fn limbs_to_bits_value() {
    let v = fe_to_limbs(&small(6));
    let bits = limbs_to_bits(&v);
    assert_eq!(bits.len(), 320);
    assert!(!bits[0]);
    assert!(bits[1]);
    assert!(bits[2]);
    assert!(!bits[3]);
}

#[test]
fn decimal_reader_basics() {
    assert_eq!(fe_from_decimal(&b"0".to_vec()), Some(small(0)));
    assert_eq!(fe_from_decimal(&b"34".to_vec()), Some(small(34)));
    assert_eq!(
        fe_from_decimal(&b"18446744073709551616".to_vec()),
        Some(Fe::new(0, 1, 0, 0, 0))
    );
    assert_eq!(fe_from_decimal(&b"12a3".to_vec()), None);
    // 97 nines is above 2^320.
    let nines = vec![b'9'; 97];
    assert_eq!(fe_from_decimal(&nines), None);
}

#[test]
fn scalar_times_residue_mod() {
    // 10 * 5 mod 7 == 1, with the scalar given as a limb sequence.
    let m = small(7);
    let s = vec![10u64];
    assert_eq!(limbs_mul_mod(&s, &small(5), &m), small(1));
}
