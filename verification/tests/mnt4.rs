use mnt_g2::bits::limbs_mul_mod;
use mnt_g2::curve2::{
    p2_add, p2_clear_cofactor, p2_double, p2_eq_points, p2_from_affine, p2_identity, p2_is_inf,
    p2_neg, p2_on_curve_affine, p2_smul_is_inf, p2_validate, PointError,
};
use mnt_g2::decimal::fe_from_decimal;
use mnt_g2::fe::{fe_eq, Fe};
use mnt_g2::mnt4_g2::Parameters;
use mnt_g2::tower::{fq2_mul, Fq2e};

#[test]
fn mnt4_g2_generator_on_curve() {
    let c = Parameters::config();
    let gx = Parameters::generator_x();
    let gy = Parameters::generator_y();
    assert!(p2_on_curve_affine(&c, &gx, &gy));
}

#[test]
fn mnt4_g2_generator_in_subgroup() {
    let c = Parameters::config();
    let g = p2_from_affine(&Parameters::generator_x(), &Parameters::generator_y());
    let r = Parameters::subgroup_order();
    assert!(p2_smul_is_inf(&c, &r, &g));
}

#[test]
fn mnt4_cofactor_times_inverse_is_one() {
    let h = Parameters::cofactor();
    let hinv = Parameters::cofactor_inv();
    let r = Parameters::scalar_field_modulus();
    let prod = limbs_mul_mod(&h, &hinv, &r);
    assert!(fe_eq(&prod, &Fe::one()));
}

#[test]
fn mnt4_mul_by_a_matches_tower_mul() {
    let c = Parameters::config();
    let a = Parameters::coeff_a();
    // An arbitrary reduced tower element.
    let e = Fq2e {
        c0: Parameters::generator_x().c1,
        c1: Parameters::generator_y().c0,
    };
    let fast = Parameters::mul_by_a(&e);
    let slow = fq2_mul(&a, &e, &c.q, &c.beta);
    assert_eq!(fast, slow);
    // The zero element maps to zero.
    let z = Fq2e { c0: Fe::zero(), c1: Fe::zero() };
    let fz = Parameters::mul_by_a(&z);
    assert!(fe_eq(&fz.c0, &Fe::zero()) && fe_eq(&fz.c1, &Fe::zero()));
}

#[test]
fn mnt4_group_axioms_on_sample_points() {
    let c = Parameters::config();
    let g = p2_from_affine(&Parameters::generator_x(), &Parameters::generator_y());
    let p2 = p2_double(&c, &g);
    let p3 = p2_add(&c, &p2, &g);
    // Associativity: (2G + 3G) + G == 2G + (3G + G).
    let lhs = p2_add(&c, &p2_add(&c, &p2, &p3), &g);
    let rhs = p2_add(&c, &p2, &p2_add(&c, &p3, &g));
    assert!(p2_eq_points(&c, &lhs, &rhs));
    // Commutativity: 2G + 3G == 3G + 2G.
    let ab = p2_add(&c, &p2, &p3);
    let ba = p2_add(&c, &p3, &p2);
    assert!(p2_eq_points(&c, &ab, &ba));
    // Identity.
    let o = p2_identity();
    assert_eq!(p2_add(&c, &g, &o), g);
    assert_eq!(p2_add(&c, &o, &g), g);
    // Inverse: G + (-G) == O.
    let ng = p2_neg(&c, &g);
    assert!(p2_is_inf(&p2_add(&c, &g, &ng)));
    // Doubling agrees with adding a point to itself.
    assert!(p2_eq_points(&c, &p2, &p2_add(&c, &g, &g)));
}

#[test]
fn mnt4_clear_cofactor_lands_in_subgroup() {
    let c = Parameters::config();
    let g = p2_from_affine(&Parameters::generator_x(), &Parameters::generator_y());
    let h = Parameters::cofactor();
    let hg = p2_clear_cofactor(&c, &h, &g);
    assert!(!p2_is_inf(&hg));
    let r = Parameters::subgroup_order();
    assert!(p2_smul_is_inf(&c, &r, &hg));
}

#[test]
fn mnt4_validate_rejects_malformed_field_element() {
    let c = Parameters::config();
    let r = Parameters::subgroup_order();
    let bad = Fq2e { c0: Parameters::base_field_modulus(), c1: Fe::zero() };
    let y = Parameters::generator_y();
    assert_eq!(
        p2_validate(&c, &r, &bad, &y),
        Err(PointError::MalformedFieldElement)
    );
}

#[test]
fn mnt4_validate_rejects_point_off_curve() {
    let c = Parameters::config();
    let r = Parameters::subgroup_order();
    let one = Fq2e { c0: Fe::one(), c1: Fe::zero() };
    assert_eq!(p2_validate(&c, &r, &one, &one), Err(PointError::NotOnCurve));
}

#[test]
fn mnt4_validate_accepts_generator() {
    let c = Parameters::config();
    let r = Parameters::subgroup_order();
    let gx = Parameters::generator_x();
    let gy = Parameters::generator_y();
    assert_eq!(p2_validate(&c, &r, &gx, &gy), Ok(()));
}

#[test]
fn mnt4_g2_generator_from_decimal_constants() {
    // The generator built from its four literal decimal coordinates
    // matches the stored limb constants, satisfies the curve equation,
    // and is annihilated by the subgroup order.
    let x_c0 = fe_from_decimal(
        &b"438374926219350099854919100077809681842783509163790991847867546339851681564223481322252708"
            .to_vec(),
    )
    .unwrap();
    let x_c1 = fe_from_decimal(
        &b"37620953615500480110935514360923278605464476459712393277679280819942849043649216370485641"
            .to_vec(),
    )
    .unwrap();
    let y_c0 = fe_from_decimal(
        &b"37437409008528968268352521034936931842973546441370663118543015118291998305624025037512482"
            .to_vec(),
    )
    .unwrap();
    let y_c1 = fe_from_decimal(
        &b"424621479598893882672393190337420680597584695892317197646113820787463109735345923009077489"
            .to_vec(),
    )
    .unwrap();
    let x = Fq2e { c0: x_c0, c1: x_c1 };
    let y = Fq2e { c0: y_c0, c1: y_c1 };
    assert_eq!(x, Parameters::generator_x());
    assert_eq!(y, Parameters::generator_y());
    let c = Parameters::config();
    assert!(p2_on_curve_affine(&c, &x, &y));
    let g = p2_from_affine(&x, &y);
    let r = Parameters::subgroup_order();
    assert!(p2_smul_is_inf(&c, &r, &g));
}

#[test]
fn mnt4_validate_reports_not_in_subgroup() {
    // Validated against an order the generator does not have (order 2,
    // whose only points are the infinity point and 2-torsion points),
    // a sound on-curve point is rejected as outside the subgroup.
    let c = Parameters::config();
    let order_two = vec![2u64];
    let gx = Parameters::generator_x();
    let gy = Parameters::generator_y();
    assert_eq!(
        p2_validate(&c, &order_two, &gx, &gy),
        Err(PointError::NotInSubgroup)
    );
}
