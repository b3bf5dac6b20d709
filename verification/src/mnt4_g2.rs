//! G2 parameters of the MNT4-298 curve: the twisted curve lives over the
//! quadratic extension `Fq[x]/(x^2 - 17)`, with Weierstrass coefficients
//! derived from the base curve (`a = 2`, so `A = (17*2, 0)`), the stored
//! cofactor and its inverse modulo the subgroup order, and the fixed
//! generator.  `mul_by_a` exploits that `A` is a base-field scalar: two
//! base-field multiplications instead of a full tower multiplication.

use vstd::prelude::*;

verus! {

use crate::fe::Fe;
use crate::bits::{limbs_val, fe_mul_mod, fe_to_limbs};
use crate::tower::{Fq2e, G2e, fq2v, g2_wf, s2_mul};
use crate::curve2::{CurveCfg2, cfg2_wf, sp2_on_curve};

/// The base-field modulus `q` of MNT4-298.
pub open spec fn q_mod() -> nat {
    475922286169261325753349249653048451545124879242694725395555128576210262817955800483758081nat
}

/// The subgroup order `r` (the scalar-field modulus) of MNT4-298.
pub open spec fn r_mod() -> nat {
    475922286169261325753349249653048451545124878552823515553267735739164647307408490559963137nat
}

/// The quadratic non-residue of `Fq` that builds the tower.
pub open spec fn nonresidue() -> nat {
    17
}

/// `A = (non-residue * base a, 0)`: the twist coefficient is the base-field
/// scalar `17 * 2 = 34` on the first tower axis.
pub open spec fn coeff_a() -> G2e {
    G2e { c0: 34, c1: 0 }
}

/// `B = (0, non-residue * base b)`: zero on the first axis.
pub open spec fn coeff_b_c1() -> nat {
    67372828414711144619833451280373307321534573815811166723479321465776723059456513877937430nat
}

pub open spec fn coeff_b() -> G2e {
    G2e { c0: 0, c1: coeff_b_c1() }
}

/// The G2 cofactor `h`, with `h * r` the order of the twisted curve group.
pub open spec fn cofactor_value() -> nat {
    475922286169261325753349249653048451545124879932565935237842521413255878328503110407553025nat
}

/// `h^(-1) mod r`.
pub open spec fn cofactor_inv_value() -> nat {
    475922286169261325753349249653048451545124878207887910632124039320641839552134835598065665nat
}

pub open spec fn gen_x() -> G2e {
    G2e {
        c0: 438374926219350099854919100077809681842783509163790991847867546339851681564223481322252708nat,
        c1: 37620953615500480110935514360923278605464476459712393277679280819942849043649216370485641nat,
    }
}

pub open spec fn gen_y() -> G2e {
    G2e {
        c0: 37437409008528968268352521034936931842973546441370663118543015118291998305624025037512482nat,
        c1: 424621479598893882672393190337420680597584695892317197646113820787463109735345923009077489nat,
    }
}

/// The MNT4-298 G2 constant table.
pub struct Parameters;

impl Parameters {
    /// The base-field modulus `q` as a field element.
    pub fn base_field_modulus() -> (r: Fe)
        ensures
            r.val() == q_mod(),
    {
        Fe::new(
            14487189785281953793,
            4731562877756902930,
            14622846468719063274,
            11702080941310629006,
            4110145082483,
        )
    }

    /// The scalar-field modulus `r` as a field element.
    pub fn scalar_field_modulus() -> (r: Fe)
        ensures
            r.val() == r_mod(),
    {
        Fe::new(
            13493686787511418881,
            18107087372223867603,
            14622846468717035924,
            11702080941310629006,
            4110145082483,
        )
    }

    /// The subgroup order `r` as a little-endian limb sequence.
    pub fn subgroup_order() -> (r: Vec<u64>)
        ensures
            limbs_val(r@) == r_mod(),
    {
        let m = Self::scalar_field_modulus();
        fe_to_limbs(&m)
    }

    /// The twist coefficient `A = (34, 0)`.
    pub fn coeff_a() -> (r: Fq2e)
        ensures
            fq2v(r) == coeff_a(),
    {
        Fq2e { c0: Fe::new(34, 0, 0, 0, 0), c1: Fe::zero() }
    }

    /// The twist coefficient `B = (0, 17 * base b)`.
    pub fn coeff_b() -> (r: Fq2e)
        ensures
            fq2v(r) == coeff_b(),
    {
        Fq2e {
            c0: Fe::zero(),
            c1: Fe::new(
                7654834016275860758,
                6639627127254871117,
                2219482899261599850,
                16636899235165397998,
                581843102222,
            ),
        }
    }

    /// The G2 cofactor as a little-endian limb sequence.
    pub fn cofactor() -> (r: Vec<u64>)
        ensures
            r@.len() == 5,
            limbs_val(r@) == cofactor_value(),
    {
        let h = Fe::new(
            15480692783052488705,
            9802782456999489873,
            14622846468721090623,
            11702080941310629006,
            4110145082483,
        );
        fe_to_limbs(&h)
    }

    /// `h^(-1) mod r` as a field element.
    pub fn cofactor_inv() -> (r: Fe)
        ensures
            r.val() == cofactor_inv_value(),
    {
        Fe::new(
            3773563251771375617,
            6348105545747798324,
            14622846468716022250,
            11702080941310629006,
            4110145082483,
        )
    }

    pub fn generator_x() -> (r: Fq2e)
        ensures
            fq2v(r) == gen_x(),
    {
        Fq2e {
            c0: Fe::new(
                13436775221361748388,
                3220442077098796845,
                10376841120081384103,
                7351407308195180280,
                3785879753157,
            ),
            c1: Fe::new(
                10848013905752533385,
                229731644904075564,
                7601096639288137571,
                15714851233040728495,
                324900896626,
            ),
        }
    }

    pub fn generator_y() -> (r: Fq2e)
        ensures
            fq2v(r) == gen_y(),
    {
        Fq2e {
            c0: Fe::new(
                978726687638789922,
                17048641329042926333,
                15212698069489290080,
                12310704625412826629,
                323315774463,
            ),
            c1: Fe::new(
                9582359988289986801,
                4274312890841155524,
                14663043291447860476,
                11890381798806765824,
                3667102669929,
            ),
        }
    }

    /// The curve configuration: modulus, non-residue and coefficients.
    pub fn config() -> (c: CurveCfg2)
        ensures
            cfg2_wf(c),
            c.q.val() == q_mod(),
            c.beta.val() == nonresidue(),
            fq2v(c.a) == coeff_a(),
            fq2v(c.b) == coeff_b(),
    {
        CurveCfg2 {
            q: Self::base_field_modulus(),
            beta: Fe::new(17, 0, 0, 0, 0),
            a: Self::coeff_a(),
            b: Self::coeff_b(),
        }
    }

    /// Multiplication by the twist coefficient `A` without a full tower
    /// multiplication: since `A = (34, 0)` is a base-field scalar, `A * e`
    /// is just `(34*c0, 34*c1)` — two base-field multiplications.
    pub fn mul_by_a(elt: &Fq2e) -> (r: Fq2e)
        requires
            g2_wf(fq2v(*elt), q_mod()),
        ensures
            fq2v(r).c0 == (34 * fq2v(*elt).c0) % q_mod(),
            fq2v(r).c1 == (34 * fq2v(*elt).c1) % q_mod(),
            fq2v(r) == s2_mul(q_mod(), nonresidue(), coeff_a(), fq2v(*elt)),
    {
        let q = Self::base_field_modulus();
        let k = Fe::new(34, 0, 0, 0, 0);
        let c0 = fe_mul_mod(&k, &elt.c0, &q);
        let c1 = fe_mul_mod(&k, &elt.c1, &q);
        proof {
            lemma_mul_by_a_matches_tower_mul(fq2v(*elt));
        }
        Fq2e { c0, c1 }
    }
}

/// Law: the optimized `mul_by_a` formula agrees with general tower
/// multiplication by the literal twist coefficient `A = (34, 0)`: for every
/// tower element `e`, `A * e = (34*c0 mod q, 34*c1 mod q)`.
pub proof fn lemma_mul_by_a_matches_tower_mul(e: G2e)
    requires
        g2_wf(e, q_mod()),
    ensures
        s2_mul(q_mod(), nonresidue(), coeff_a(), e) == (G2e {
            c0: (34 * e.c0) % q_mod(),
            c1: (34 * e.c1) % q_mod(),
        }),
{
    assert(34 * e.c0 + 17 * (0 * e.c1) == 34 * e.c0);
    assert(34 * e.c1 + 0 * e.c0 == 34 * e.c1);
}

/// Law: the stored cofactor and its stored inverse multiply to one modulo
/// the subgroup order `r`.
pub proof fn lemma_cofactor_times_inverse()
    ensures
        (cofactor_value() * cofactor_inv_value()) % r_mod() == 1,
{
}

/// Law: the stored generator satisfies the curve equation
/// `y^2 = x^3 + A*x + B` over the declared field.
pub proof fn lemma_generator_on_curve()
    ensures
        sp2_on_curve(q_mod(), nonresidue(), coeff_a(), coeff_b(), gen_x(), gen_y()),
{
    assert(gen_y().c0 == 37437409008528968268352521034936931842973546441370663118543015118291998305624025037512482nat);
    assert(37437409008528968268352521034936931842973546441370663118543015118291998305624025037512482nat
        * 37437409008528968268352521034936931842973546441370663118543015118291998305624025037512482nat
        == 1401559593271885946893413472054638614486732361832249349784993060212400260029569300925441693581191353734565094537260120706754333713435734133324643211257571568128474567286305800324nat);
    let yy = s2_mul(q_mod(), nonresidue(), gen_y(), gen_y());
    assert(yy.c0 == 21802824842525451104311232766986354239786888295802370009925167776114106558430806564805841nat);
    assert(yy.c1 == 40417352457153282664906672610465062967565162383079445042161758513768016446284417154581317nat);
    let x2 = s2_mul(q_mod(), nonresidue(), gen_x(), gen_x());
    assert(x2.c0 == 193746793734044772534480380954412103054364814053147569642529208348697688006913489029798420nat);
    assert(x2.c1 == 454495516707796136024938733605660922457037284342580280541987946212264467306555896652875750nat);
    let x3 = s2_mul(q_mod(), nonresidue(), x2, gen_x());
    assert(x3.c0 == 346568490800984480144237819019007621029143712493139859840192706659885343549418057088472361nat);
    assert(x3.c1 == 121698959623209791533313482017845637695613026665131083064252274898565214356621948131406336nat);
    let ax = s2_mul(q_mod(), nonresidue(), coeff_a(), gen_x());
    assert(ax.c0 == 151156620210802296713422663401027184755768055045357235565287589692439025826968549960091561nat);
    assert(ax.c1 == 327267850588493672265108988965294569495542441144831920649985290725636341848161755628995632nat);
    let s1 = crate::tower::s2_add(q_mod(), x3, ax);
    assert(s1.c0 == 21802824842525451104311232766986354239786888295802370009925167776114106558430806564805841nat);
    assert(s1.c1 == 448966810211703463798422470983140207191155467809963003714237565624201556204783703760401968nat);
    let rhs = crate::tower::s2_add(q_mod(), s1, coeff_b());
    assert(rhs.c0 == 21802824842525451104311232766986354239786888295802370009925167776114106558430806564805841nat);
    assert(rhs.c1 == 40417352457153282664906672610465062967565162383079445042161758513768016446284417154581317nat);
}

} // verus!
