//! G2 parameters of the MNT6-298 curve: the twisted curve lives over the
//! cubic extension `Fq[x]/(x^3 - 5)`, with the twist coefficient `A`
//! embedded on the `x^2` axis as `(0, 0, 11)` (the base curve has `a = 11`),
//! `B = (5 * base b, 0, 0)`, a ten-limb cofactor, its inverse modulo the
//! subgroup order, and the fixed generator.  `mul_by_a` exploits the sparse
//! shape of `A`: multiplication by `x^2` rotates the coefficients, the two
//! wrapped ones picking up the non-residue, so three base-field scalar
//! multiplications by the precomputed constants `5*11 = 55` and `11` replace
//! a full cubic-tower multiplication.

use vstd::prelude::*;

verus! {

use vstd::arithmetic::power2::{pow2, lemma_pow2_adds, lemma2_to64};
use crate::fe::{Fe, p64, p128, p192, p256, p320};
use crate::bits::{limbs_val, fe_mul_mod, fe_to_limbs, lemma_limbs_val_push};
use crate::tower::{Fq3e, G3e, fq3v, g3_wf, s3_mul};
use crate::curve3::{CurveCfg3, cfg3_wf, sp3_on_curve};

/// The base-field modulus `q` of MNT6-298 (the scalar field of MNT4-298:
/// the two curves form a cycle).
pub open spec fn q_mod() -> nat {
    475922286169261325753349249653048451545124878552823515553267735739164647307408490559963137nat
}

/// The subgroup order `r` (the scalar-field modulus) of MNT6-298.
pub open spec fn r_mod() -> nat {
    475922286169261325753349249653048451545124879242694725395555128576210262817955800483758081nat
}

/// The cubic non-residue of `Fq` that builds the tower.
pub open spec fn nonresidue() -> nat {
    5
}

/// `A = (0, 0, base a)`: the twist coefficient sits on the `x^2` axis.
pub open spec fn coeff_a() -> G3e {
    G3e { c0: 0, c1: 0, c2: 11 }
}

/// `B = (non-residue * base b, 0, 0)`.
pub open spec fn coeff_b_c0() -> nat {
    57578116384997352636487348509878309737146377454014423897662211075515354005624851787652233nat
}

pub open spec fn coeff_b() -> G3e {
    G3e { c0: coeff_b_c0(), c1: 0, c2: 0 }
}

/// The G2 cofactor `h`, a 587-bit integer held in ten limbs.
pub open spec fn cofactor_value() -> nat {
    226502022472576270196498690498308461791828762732602586162207535351960270082712694977333372361549082214519252261735048131889018501404377856786623430385820659037970876666767495659520nat
}

/// `h^(-1) mod r`.
pub open spec fn cofactor_inv_value() -> nat {
    79320381028210220958891541608841408590854146655427655872973753568875979721417185067925504nat
}

pub open spec fn gen_x() -> G3e {
    G3e {
        c0: 421456435772811846256826561593908322288509115489119907560382401870203318738334702321297427nat,
        c1: 103072927438548502463527009961344915021167584706439945404959058962657261178393635706405114nat,
        c2: 143029172143731852627002926324735183809768363301149009204849580478324784395590388826052558nat,
    }
}

pub open spec fn gen_y() -> G3e {
    G3e {
        c0: 464673596668689463130099227575639512541218133445388869383893594087634649237515554342751377nat,
        c1: 100642907501977375184575075967118071807821117960152743335603284583254620685343989304941678nat,
        c2: 123019855502969896026940545715841181300275180157288044663051565390506010149881373807142903nat,
    }
}

/// The MNT6-298 G2 constant table.
pub struct Parameters;

impl Parameters {
    /// The base-field modulus `q` as a field element.
    pub fn base_field_modulus() -> (r: Fe)
        ensures
            r.val() == q_mod(),
    {
        Fe::new(
            13493686787511418881,
            18107087372223867603,
            14622846468717035924,
            11702080941310629006,
            4110145082483,
        )
    }

    /// The scalar-field modulus `r` as a field element.
    pub fn scalar_field_modulus() -> (r: Fe)
        ensures
            r.val() == r_mod(),
    {
        Fe::new(
            14487189785281953793,
            4731562877756902930,
            14622846468719063274,
            11702080941310629006,
            4110145082483,
        )
    }

    /// The subgroup order `r` as a little-endian limb sequence.
    pub fn subgroup_order() -> (r: Vec<u64>)
        ensures
            limbs_val(r@) == r_mod(),
    {
        let m = Self::scalar_field_modulus();
        fe_to_limbs(&m)
    }

    /// The twist coefficient `A = (0, 0, 11)`.
    pub fn coeff_a() -> (r: Fq3e)
        ensures
            fq3v(r) == coeff_a(),
    {
        Fq3e { c0: Fe::zero(), c1: Fe::zero(), c2: Fe::new(11, 0, 0, 0, 0) }
    }

    /// The twist coefficient `B = (5 * base b, 0, 0)`.
    pub fn coeff_b() -> (r: Fq3e)
        ensures
            fq3v(r) == coeff_b(),
    {
        Fq3e {
            c0: Fe::new(
                10302179100803964041,
                12118872224465161121,
                7506919062651793135,
                12587213846785589491,
                497254318185,
            ),
            c1: Fe::zero(),
            c2: Fe::zero(),
        }
    }

    /// The G2 cofactor as a little-endian limb sequence of ten limbs.
    pub fn cofactor() -> (r: Vec<u64>)
        ensures
            r@.len() == 10,
            limbs_val(r@) == cofactor_value(),
    {
        let mut v: Vec<u64> = Vec::new();
        let ghost s0: Seq<u64> = v@;
        v.push(15308190245346869248);
        let ghost s1: Seq<u64> = v@;
        v.push(10669098443577192943);
        let ghost s2: Seq<u64> = v@;
        v.push(4561413759929581409);
        let ghost s3: Seq<u64> = v@;
        v.push(3680089780298582849);
        let ghost s4: Seq<u64> = v@;
        v.push(17336300687782721465);
        let ghost s5: Seq<u64> = v@;
        v.push(10745756320947240891);
        let ghost s6: Seq<u64> = v@;
        v.push(17479264233688728128);
        let ghost s7: Seq<u64> = v@;
        v.push(16828697388537672097);
        let ghost s8: Seq<u64> = v@;
        v.push(4184034152442024798);
        let ghost s9: Seq<u64> = v@;
        v.push(915787);
        proof {
            lemma_limbs_val_push(s0, 15308190245346869248);
            lemma_limbs_val_push(s1, 10669098443577192943);
            lemma_limbs_val_push(s2, 4561413759929581409);
            lemma_limbs_val_push(s3, 3680089780298582849);
            lemma_limbs_val_push(s4, 17336300687782721465);
            lemma_limbs_val_push(s5, 10745756320947240891);
            lemma_limbs_val_push(s6, 17479264233688728128);
            lemma_limbs_val_push(s7, 16828697388537672097);
            lemma_limbs_val_push(s8, 4184034152442024798);
            lemma_limbs_val_push(s9, 915787);
            lemma2_to64();
            lemma_pow2_adds(64, 64);
            lemma_pow2_adds(128, 64);
            lemma_pow2_adds(192, 64);
            lemma_pow2_adds(256, 64);
            lemma_pow2_adds(320, 64);
            lemma_pow2_adds(384, 64);
            lemma_pow2_adds(448, 64);
            lemma_pow2_adds(512, 64);
            assert(pow2(0) == 1 && pow2(64) == p64() && pow2(128) == p128() && pow2(192) == p192()
                && pow2(256) == p256() && pow2(320) == p320());
            assert(pow2(384)
                == 39402006196394479212279040100143613805079739270465446667948293404245721771497210611414266254884915640806627990306816nat);
            assert(pow2(448)
                == 726838724295606890549323807888004534353641360687318060281490199180639288113397923326191050713763565560762521606266177933534601628614656nat);
            assert(pow2(512)
                == 13407807929942597099574024998205846127479365820592393377723561443721764030073546976801874298166903427690031858186486050853753882811946569946433649006084096nat);
        }
        v
    }

    /// `h^(-1) mod r` as a field element.
    pub fn cofactor_inv() -> (r: Fe)
        ensures
            r.val() == cofactor_inv_value(),
    {
        Fe::new(
            17952402191933374464,
            17006083804257874658,
            8586055769356698975,
            17322633551643064514,
            685024180413,
        )
    }

    pub fn generator_x() -> (r: Fq3e)
        ensures
            fq3v(r) == gen_x(),
    {
        Fq3e {
            c0: Fe::new(
                4948741468954847251,
                12513040782488949478,
                201442015971770421,
                6255028380047225929,
                3639768817963,
            ),
            c1: Fe::new(
                12227656358602506490,
                4683400904595509419,
                12997221507588427923,
                5975930421125778101,
                890155174826,
            ),
            c2: Fe::new(
                82616830145402830,
                17517601131757822667,
                13006404289022529628,
                16367843824136356655,
                1235224038928,
            ),
        }
    }

    pub fn generator_y() -> (r: Fq3e)
        ensures
            fq3v(r) == gen_y(),
    {
        Fq3e {
            c0: Fe::new(
                8815844766680796305,
                9442157791365292401,
                6775643458208415428,
                14289185687982283841,
                4012999503932,
            ),
            c1: Fe::new(
                3434657911289699438,
                3299744831849133120,
                4979489892731608504,
                15786531497538547650,
                869169113061,
            ),
            c2: Fe::new(
                8912474332398151671,
                13506681642645607842,
                11104537585227651130,
                200873007283111778,
                1062420207747,
            ),
        }
    }

    /// The curve configuration: modulus, non-residue and coefficients.
    pub fn config() -> (c: CurveCfg3)
        ensures
            cfg3_wf(c),
            c.q.val() == q_mod(),
            c.beta.val() == nonresidue(),
            fq3v(c.a) == coeff_a(),
            fq3v(c.b) == coeff_b(),
    {
        CurveCfg3 {
            q: Self::base_field_modulus(),
            beta: Fe::new(5, 0, 0, 0, 0),
            a: Self::coeff_a(),
            b: Self::coeff_b(),
        }
    }

    /// Multiplication by the twist coefficient `A = 11*x^2` without a full
    /// tower multiplication: `x^2 * (c0 + c1*x + c2*x^2)` rotates the
    /// coefficients with the wrapped ones scaled by the non-residue, so
    /// `A * e = (55*c1, 55*c2, 11*c0)` with `55 = 5*11` precomputed.
    pub fn mul_by_a(elt: &Fq3e) -> (r: Fq3e)
        requires
            g3_wf(fq3v(*elt), q_mod()),
        ensures
            fq3v(r).c0 == (55 * fq3v(*elt).c1) % q_mod(),
            fq3v(r).c1 == (55 * fq3v(*elt).c2) % q_mod(),
            fq3v(r).c2 == (11 * fq3v(*elt).c0) % q_mod(),
            fq3v(r) == s3_mul(q_mod(), nonresidue(), coeff_a(), fq3v(*elt)),
    {
        let q = Self::base_field_modulus();
        let k55 = Fe::new(55, 0, 0, 0, 0);
        let k11 = Fe::new(11, 0, 0, 0, 0);
        let c0 = fe_mul_mod(&k55, &elt.c1, &q);
        let c1 = fe_mul_mod(&k55, &elt.c2, &q);
        let c2 = fe_mul_mod(&k11, &elt.c0, &q);
        proof {
            lemma_mul_by_a_matches_tower_mul(fq3v(*elt));
        }
        Fq3e { c0, c1, c2 }
    }
}

/// Law: the optimized `mul_by_a` formula agrees with general tower
/// multiplication by the literal twist coefficient `A = (0, 0, 11)`: for
/// every tower element `e`, `A * e = (55*c1 mod q, 55*c2 mod q, 11*c0 mod q)`.
pub proof fn lemma_mul_by_a_matches_tower_mul(e: G3e)
    requires
        g3_wf(e, q_mod()),
    ensures
        s3_mul(q_mod(), nonresidue(), coeff_a(), e) == (G3e {
            c0: (55 * e.c1) % q_mod(),
            c1: (55 * e.c2) % q_mod(),
            c2: (11 * e.c0) % q_mod(),
        }),
{
    assert(0 * e.c0 + 5 * (0 * e.c2 + 11 * e.c1) == 55 * e.c1);
    assert(0 * e.c1 + 0 * e.c0 + 5 * (11 * e.c2) == 55 * e.c2);
    assert(0 * e.c2 + 0 * e.c1 + 11 * e.c0 == 11 * e.c0);
}

/// Law: the stored cofactor and its stored inverse multiply to one modulo
/// the subgroup order `r`.
pub proof fn lemma_cofactor_times_inverse()
    ensures
        (cofactor_value() * cofactor_inv_value()) % r_mod() == 1,
{
}

/// Law: the stored generator satisfies the curve equation
/// `y^2 = x^3 + A*x + B` over the declared field.
pub proof fn lemma_generator_on_curve()
    ensures
        sp3_on_curve(q_mod(), nonresidue(), coeff_a(), coeff_b(), gen_x(), gen_y()),
{
    assert(gen_y().c0
        * gen_y().c0
        == 215921551441015891327090845930009882849894020638269309704794545479064065729513967059383997206019619437569203004636666746643059840608673622509879460106399790067828502314222435396129nat);
    let yy = s3_mul(q_mod(), nonresidue(), gen_y(), gen_y());
    assert(yy.c0
        == 103559057855820713297081454788201866276227195728222985260565598855939106731469667747265778nat);
    assert(yy.c1
        == 461442440986451786757098859373604122015411788849033564868999420717486498337004968175509079nat);
    assert(yy.c2
        == 226170265771119419987854291167532406705371183173252943803773132396433755669585460431802134nat);
    let x2 = s3_mul(q_mod(), nonresidue(), gen_x(), gen_x());
    assert(x2.c0
        == 436202313957235967480132010690907732942702015402276124460915387068238988976137764470026412nat);
    assert(x2.c1
        == 143579713814996778398354450943083270808192643020386645482766399654757714617542215734128923nat);
    assert(x2.c2
        == 221739681157395526952238244253499324301002697160257871361561219216160519297754985271377618nat);
    let x3 = s3_mul(q_mod(), nonresidue(), x2, gen_x());
    assert(x3.c0
        == 88037366381791634206799554240934648916362202053893750729367973704250155603096738826889919nat);
    assert(x3.c1
        == 209594551789381104325525905961944237200149864131014307454556266236257713498069431702028581nat);
    assert(x3.c2
        == 349372333962802368696254610165025376983019698321169116172244069215843722621988640497161807nat);
    let ax = s3_mul(q_mod(), nonresidue(), coeff_a(), gen_x());
    assert(ax.c0
        == 433865861258293052207143801690437359167843494773138326186803149815338244430156567692686763nat);
    assert(ax.c1
        == 251847889197070682431572953411659884815261924718019257414443154481228784838935536473480498nat);
    assert(ax.c2
        == 352720217977578377044948930655555481267476363404907343184796798919754680355005310494603464nat);
    let s1 = crate::tower::s3_add(q_mod(), x3, ax);
    assert(s1.c0
        == 45980941470823360660594106278323556539080818274208561362903387780423752725844815959613545nat);
    assert(s1.c1
        == 461442440986451786757098859373604122015411788849033564868999420717486498337004968175509079nat);
    assert(s1.c2
        == 226170265771119419987854291167532406705371183173252943803773132396433755669585460431802134nat);
    let rhs = crate::tower::s3_add(q_mod(), s1, coeff_b());
    assert(rhs.c0
        == 103559057855820713297081454788201866276227195728222985260565598855939106731469667747265778nat);
    assert(rhs.c1 == yy.c1);
    assert(rhs.c2 == yy.c2);
}

} // verus!
