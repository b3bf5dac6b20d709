use mnt_g2::bits::limbs_mul_mod;
use mnt_g2::curve3::{
    p3_add, p3_clear_cofactor, p3_double, p3_eq_points, p3_from_affine, p3_identity, p3_is_inf,
    p3_neg, p3_on_curve_affine, p3_smul_is_inf, p3_validate,
};
use mnt_g2::curve2::PointError;
use mnt_g2::decimal::fe_from_decimal;
use mnt_g2::fe::{fe_eq, Fe};
use mnt_g2::mnt6_g2::Parameters;
use mnt_g2::tower::{fq3_mul, Fq3e};

#[test]
fn mnt6_g2_generator_on_curve() {
    let c = Parameters::config();
    let gx = Parameters::generator_x();
    let gy = Parameters::generator_y();
    assert!(p3_on_curve_affine(&c, &gx, &gy));
}

#[test]
fn mnt6_g2_generator_in_subgroup() {
    let c = Parameters::config();
    let g = p3_from_affine(&Parameters::generator_x(), &Parameters::generator_y());
    let r = Parameters::subgroup_order();
    assert!(p3_smul_is_inf(&c, &r, &g));
}

#[test]
fn mnt6_cofactor_times_inverse_is_one() {
    let h = Parameters::cofactor();
    assert_eq!(h.len(), 10);
    let hinv = Parameters::cofactor_inv();
    let r = Parameters::scalar_field_modulus();
    let prod = limbs_mul_mod(&h, &hinv, &r);
    assert!(fe_eq(&prod, &Fe::one()));
}

#[test]
fn mnt6_mul_by_a_matches_tower_mul() {
    let c = Parameters::config();
    let a = Parameters::coeff_a();
    // An arbitrary reduced tower element.
    let e = Fq3e {
        c0: Parameters::generator_x().c2,
        c1: Parameters::generator_y().c0,
        c2: Parameters::generator_y().c1,
    };
    let fast = Parameters::mul_by_a(&e);
    let slow = fq3_mul(&a, &e, &c.q, &c.beta);
    assert_eq!(fast, slow);
    // The coefficients really rotate: A * (1, 0, 0) = (0, 0, 11).
    let one = Fq3e { c0: Fe::one(), c1: Fe::zero(), c2: Fe::zero() };
    let rot = Parameters::mul_by_a(&one);
    assert_eq!(rot, Fq3e { c0: Fe::zero(), c1: Fe::zero(), c2: Fe::new(11, 0, 0, 0, 0) });
}

#[test]
fn mnt6_group_axioms_on_sample_points() {
    let c = Parameters::config();
    let g = p3_from_affine(&Parameters::generator_x(), &Parameters::generator_y());
    let p2 = p3_double(&c, &g);
    let p3 = p3_add(&c, &p2, &g);
    // Associativity: (2G + 3G) + G == 2G + (3G + G).
    let lhs = p3_add(&c, &p3_add(&c, &p2, &p3), &g);
    let rhs = p3_add(&c, &p2, &p3_add(&c, &p3, &g));
    assert!(p3_eq_points(&c, &lhs, &rhs));
    // Commutativity.
    let ab = p3_add(&c, &p2, &p3);
    let ba = p3_add(&c, &p3, &p2);
    assert!(p3_eq_points(&c, &ab, &ba));
    // Identity.
    let o = p3_identity();
    assert_eq!(p3_add(&c, &g, &o), g);
    assert_eq!(p3_add(&c, &o, &g), g);
    // Inverse: G + (-G) == O.
    let ng = p3_neg(&c, &g);
    assert!(p3_is_inf(&p3_add(&c, &g, &ng)));
    // Doubling agrees with adding a point to itself.
    assert!(p3_eq_points(&c, &p2, &p3_add(&c, &g, &g)));
}

#[test]
fn mnt6_clear_cofactor_of_identity_is_identity() {
    let c = Parameters::config();
    let o = p3_identity();
    let h = Parameters::cofactor();
    let ho = p3_clear_cofactor(&c, &h, &o);
    assert!(p3_is_inf(&ho));
}

#[test]
fn mnt6_validate_rejects_malformed_field_element() {
    let c = Parameters::config();
    let r = Parameters::subgroup_order();
    let bad = Fq3e {
        c0: Fe::zero(),
        c1: Parameters::base_field_modulus(),
        c2: Fe::zero(),
    };
    let y = Parameters::generator_y();
    assert_eq!(
        p3_validate(&c, &r, &bad, &y),
        Err(PointError::MalformedFieldElement)
    );
}

#[test]
fn mnt6_validate_rejects_point_off_curve() {
    let c = Parameters::config();
    let r = Parameters::subgroup_order();
    let one = Fq3e { c0: Fe::one(), c1: Fe::zero(), c2: Fe::zero() };
    assert_eq!(p3_validate(&c, &r, &one, &one), Err(PointError::NotOnCurve));
}

#[test]
fn mnt6_g2_generator_from_decimal_constants() {
    // The generator built from its six literal decimal coordinates matches
    // the stored limb constants and satisfies the curve equation.
    let xs = [
        &b"421456435772811846256826561593908322288509115489119907560382401870203318738334702321297427"[..],
        &b"103072927438548502463527009961344915021167584706439945404959058962657261178393635706405114"[..],
        &b"143029172143731852627002926324735183809768363301149009204849580478324784395590388826052558"[..],
    ];
    let ys = [
        &b"464673596668689463130099227575639512541218133445388869383893594087634649237515554342751377"[..],
        &b"100642907501977375184575075967118071807821117960152743335603284583254620685343989304941678"[..],
        &b"123019855502969896026940545715841181300275180157288044663051565390506010149881373807142903"[..],
    ];
    let x = Fq3e {
        c0: fe_from_decimal(&xs[0].to_vec()).unwrap(),
        c1: fe_from_decimal(&xs[1].to_vec()).unwrap(),
        c2: fe_from_decimal(&xs[2].to_vec()).unwrap(),
    };
    let y = Fq3e {
        c0: fe_from_decimal(&ys[0].to_vec()).unwrap(),
        c1: fe_from_decimal(&ys[1].to_vec()).unwrap(),
        c2: fe_from_decimal(&ys[2].to_vec()).unwrap(),
    };
    assert_eq!(x, Parameters::generator_x());
    assert_eq!(y, Parameters::generator_y());
    let c = Parameters::config();
    assert!(p3_on_curve_affine(&c, &x, &y));
}

#[test]
fn mnt6_clear_cofactor_lands_in_subgroup() {
    let c = Parameters::config();
    let g = p3_from_affine(&Parameters::generator_x(), &Parameters::generator_y());
    let h = Parameters::cofactor();
    let hg = p3_clear_cofactor(&c, &h, &g);
    assert!(!p3_is_inf(&hg));
    let r = Parameters::subgroup_order();
    assert!(p3_smul_is_inf(&c, &r, &hg));
}

#[test]
fn mnt6_validate_reports_not_in_subgroup() {
    let c = Parameters::config();
    let order_two = vec![2u64];
    let gx = Parameters::generator_x();
    let gy = Parameters::generator_y();
    assert_eq!(
        p3_validate(&c, &order_two, &gx, &gy),
        Err(PointError::NotInSubgroup)
    );
}
