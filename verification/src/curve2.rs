//! Short-Weierstrass curve group over the quadratic tower, in Jacobian
//! coordinates (`Z == 0` encodes the point at infinity).  Doubling and
//! addition follow the standard general-`A` Jacobian formulas; scalar
//! multiplication, cofactor clearing, the subgroup check and point
//! validation are built on top of them.

use vstd::prelude::*;

verus! {

use vstd::arithmetic::div_mod::lemma_fundamental_div_mod_converse;
use crate::fe::{Fe, p320, fe_eq};
use crate::bits::{limbs_val, bits_val, limbs_to_bits};
use crate::tower::{
    Fq2e, G2e, fq2v, g2_wf, s2_add, s2_sub, s2_mul, fq2_add, fq2_sub, fq2_mul, fq2_eq,
};

/// The constants a curve over the quadratic tower is defined by:
/// the base-field modulus `q`, the tower non-residue `beta`, and the
/// Weierstrass coefficients `a` and `b` of `y^2 = x^3 + a*x + b`.
pub struct CurveCfg2 {
    pub q: Fe,
    pub beta: Fe,
    pub a: Fq2e,
    pub b: Fq2e,
}

pub open spec fn cfg2_wf(c: CurveCfg2) -> bool {
    &&& 1 < c.q.val()
    &&& 2 * c.q.val() <= p320()
    &&& c.beta.val() < c.q.val()
    &&& g2_wf(fq2v(c.a), c.q.val())
    &&& g2_wf(fq2v(c.b), c.q.val())
}

/// A Jacobian point over the quadratic tower.
#[derive(Clone, Copy, PartialEq, Eq, Structural, Debug)]
pub struct Point2 {
    pub x: Fq2e,
    pub y: Fq2e,
    pub z: Fq2e,
}

/// The mathematical value of a Jacobian point: three tower residues.
pub struct GP2 {
    pub x: G2e,
    pub y: G2e,
    pub z: G2e,
}

pub open spec fn p2v(p: Point2) -> GP2 {
    GP2 { x: fq2v(p.x), y: fq2v(p.y), z: fq2v(p.z) }
}

pub open spec fn p2_wf(p: Point2, q: nat) -> bool {
    g2_wf(fq2v(p.x), q) && g2_wf(fq2v(p.y), q) && g2_wf(fq2v(p.z), q)
}

pub open spec fn gp2_is_inf(p: GP2) -> bool {
    p.z.c0 == 0 && p.z.c1 == 0
}

/// The representative of the point at infinity.
pub open spec fn sp2_inf() -> GP2 {
    GP2 {
        x: G2e { c0: 1, c1: 0 },
        y: G2e { c0: 1, c1: 0 },
        z: G2e { c0: 0, c1: 0 },
    }
}

/// Jacobian doubling over the quadratic tower, as residue arithmetic.
pub open spec fn sp2_double(q: nat, beta: nat, a: G2e, p: GP2) -> GP2 {
    if gp2_is_inf(p) {
        p
    } else {
        let xx = s2_mul(q, beta, p.x, p.x);
        let yy = s2_mul(q, beta, p.y, p.y);
        let yyyy = s2_mul(q, beta, yy, yy);
        let zz = s2_mul(q, beta, p.z, p.z);
        let t = s2_add(q, p.x, yy);
        let t2 = s2_mul(q, beta, t, t);
        let u = s2_sub(q, s2_sub(q, t2, xx), yyyy);
        let s = s2_add(q, u, u);
        let xx3 = s2_add(q, s2_add(q, xx, xx), xx);
        let zz2 = s2_mul(q, beta, zz, zz);
        let azz = s2_mul(q, beta, a, zz2);
        let m = s2_add(q, xx3, azz);
        let x3 = s2_sub(q, s2_sub(q, s2_mul(q, beta, m, m), s), s);
        let y4 = s2_add(q, yyyy, yyyy);
        let y8t = s2_add(q, s2_add(q, y4, y4), s2_add(q, y4, y4));
        let y3 = s2_sub(q, s2_mul(q, beta, m, s2_sub(q, s, x3)), y8t);
        let yz = s2_add(q, p.y, p.z);
        let z3 = s2_sub(q, s2_sub(q, s2_mul(q, beta, yz, yz), yy), zz);
        GP2 { x: x3, y: y3, z: z3 }
    }
}

/// Jacobian addition over the quadratic tower, as residue arithmetic.
pub open spec fn sp2_add(q: nat, beta: nat, a: G2e, p1: GP2, p2: GP2) -> GP2 {
    if gp2_is_inf(p1) {
        p2
    } else if gp2_is_inf(p2) {
        p1
    } else {
        let z1z1 = s2_mul(q, beta, p1.z, p1.z);
        let z2z2 = s2_mul(q, beta, p2.z, p2.z);
        let u1 = s2_mul(q, beta, p1.x, z2z2);
        let u2 = s2_mul(q, beta, p2.x, z1z1);
        let s1 = s2_mul(q, beta, p1.y, s2_mul(q, beta, p2.z, z2z2));
        let s2x = s2_mul(q, beta, p2.y, s2_mul(q, beta, p1.z, z1z1));
        if u1 == u2 {
            if s1 == s2x {
                sp2_double(q, beta, a, p1)
            } else {
                sp2_inf()
            }
        } else {
            let h = s2_sub(q, u2, u1);
            let h2 = s2_add(q, h, h);
            let i = s2_mul(q, beta, h2, h2);
            let j = s2_mul(q, beta, h, i);
            let sd = s2_sub(q, s2x, s1);
            let rr = s2_add(q, sd, sd);
            let v = s2_mul(q, beta, u1, i);
            let x3 = s2_sub(q, s2_sub(q, s2_mul(q, beta, rr, rr), j), s2_add(q, v, v));
            let s1j = s2_mul(q, beta, s1, j);
            let y3 = s2_sub(q, s2_mul(q, beta, rr, s2_sub(q, v, x3)), s2_add(q, s1j, s1j));
            let zs = s2_add(q, p1.z, p2.z);
            let z3 = s2_mul(q, beta, s2_sub(q, s2_sub(q, s2_mul(q, beta, zs, zs), z1z1), z2z2), h);
            GP2 { x: x3, y: y3, z: z3 }
        }
    }
}

/// Scalar multiplication by binary double-and-add, as residue arithmetic.
pub open spec fn sp2_smul(q: nat, beta: nat, a: G2e, n: nat, p: GP2) -> GP2
    decreases n,
{
    if n == 0 {
        sp2_inf()
    } else {
        let h = sp2_smul(q, beta, a, n / 2, p);
        let d = sp2_double(q, beta, a, h);
        if n % 2 == 1 {
            sp2_add(q, beta, a, d, p)
        } else {
            d
        }
    }
}

/// The affine curve equation `y^2 = x^3 + a*x + b` over the quadratic tower.
pub open spec fn sp2_on_curve(q: nat, beta: nat, a: G2e, b: G2e, x: G2e, y: G2e) -> bool {
    s2_mul(q, beta, y, y) == s2_add(
        q,
        s2_add(q, s2_mul(q, beta, s2_mul(q, beta, x, x), x), s2_mul(q, beta, a, x)),
        b,
    )
}

pub fn p2_identity() -> (r: Point2)
    ensures
        p2v(r) == sp2_inf(),
        forall|q: nat| 1 < q ==> p2_wf(r, q),
{
    let one = Fe::one();
    let zero = Fe::zero();
    Point2 {
        x: Fq2e { c0: one, c1: zero },
        y: Fq2e { c0: one, c1: zero },
        z: Fq2e { c0: zero, c1: zero },
    }
}

/// The Jacobian value of a point given by affine coordinates: `Z = 1`.
pub open spec fn sp2_affine(x: G2e, y: G2e) -> GP2 {
    GP2 { x, y, z: G2e { c0: 1, c1: 0 } }
}

/// A finite point from affine coordinates: `Z = 1`.
pub fn p2_from_affine(x: &Fq2e, y: &Fq2e) -> (r: Point2)
    ensures
        p2v(r) == sp2_affine(fq2v(*x), fq2v(*y)),
{
    Point2 { x: *x, y: *y, z: Fq2e { c0: Fe::one(), c1: Fe::zero() } }
}

pub fn p2_is_inf(p: &Point2) -> (r: bool)
    ensures
        r == gp2_is_inf(p2v(*p)),
{
    let zero = Fe::zero();
    let r = fe_eq(&p.z.c0, &zero) && fe_eq(&p.z.c1, &zero);
    r
}

pub fn p2_double(c: &CurveCfg2, p: &Point2) -> (r: Point2)
    requires
        cfg2_wf(*c),
        p2_wf(*p, c.q.val()),
    ensures
        p2_wf(r, c.q.val()),
        p2v(r) == sp2_double(c.q.val(), c.beta.val(), fq2v(c.a), p2v(*p)),
{
    if p2_is_inf(p) {
        return *p;
    }
    let xx = fq2_mul(&p.x, &p.x, &c.q, &c.beta);
    let yy = fq2_mul(&p.y, &p.y, &c.q, &c.beta);
    let yyyy = fq2_mul(&yy, &yy, &c.q, &c.beta);
    let zz = fq2_mul(&p.z, &p.z, &c.q, &c.beta);
    let t = fq2_add(&p.x, &yy, &c.q);
    let t2 = fq2_mul(&t, &t, &c.q, &c.beta);
    let u = fq2_sub(&fq2_sub(&t2, &xx, &c.q), &yyyy, &c.q);
    let s = fq2_add(&u, &u, &c.q);
    let xx3 = fq2_add(&fq2_add(&xx, &xx, &c.q), &xx, &c.q);
    let zz2 = fq2_mul(&zz, &zz, &c.q, &c.beta);
    let azz = fq2_mul(&c.a, &zz2, &c.q, &c.beta);
    let m = fq2_add(&xx3, &azz, &c.q);
    let x3 = fq2_sub(&fq2_sub(&fq2_mul(&m, &m, &c.q, &c.beta), &s, &c.q), &s, &c.q);
    let y4 = fq2_add(&yyyy, &yyyy, &c.q);
    let y8t = fq2_add(&fq2_add(&y4, &y4, &c.q), &fq2_add(&y4, &y4, &c.q), &c.q);
    let y3 = fq2_sub(&fq2_mul(&m, &fq2_sub(&s, &x3, &c.q), &c.q, &c.beta), &y8t, &c.q);
    let yz = fq2_add(&p.y, &p.z, &c.q);
    let z3 = fq2_sub(&fq2_sub(&fq2_mul(&yz, &yz, &c.q, &c.beta), &yy, &c.q), &zz, &c.q);
    Point2 { x: x3, y: y3, z: z3 }
}

pub fn p2_add(c: &CurveCfg2, p1: &Point2, p2: &Point2) -> (r: Point2)
    requires
        cfg2_wf(*c),
        p2_wf(*p1, c.q.val()),
        p2_wf(*p2, c.q.val()),
    ensures
        p2_wf(r, c.q.val()),
        p2v(r) == sp2_add(c.q.val(), c.beta.val(), fq2v(c.a), p2v(*p1), p2v(*p2)),
{
    if p2_is_inf(p1) {
        return *p2;
    }
    if p2_is_inf(p2) {
        return *p1;
    }
    let z1z1 = fq2_mul(&p1.z, &p1.z, &c.q, &c.beta);
    let z2z2 = fq2_mul(&p2.z, &p2.z, &c.q, &c.beta);
    let u1 = fq2_mul(&p1.x, &z2z2, &c.q, &c.beta);
    let u2 = fq2_mul(&p2.x, &z1z1, &c.q, &c.beta);
    let s1 = fq2_mul(&p1.y, &fq2_mul(&p2.z, &z2z2, &c.q, &c.beta), &c.q, &c.beta);
    let s2x = fq2_mul(&p2.y, &fq2_mul(&p1.z, &z1z1, &c.q, &c.beta), &c.q, &c.beta);
    if fq2_eq(&u1, &u2) {
        if fq2_eq(&s1, &s2x) {
            p2_double(c, p1)
        } else {
            p2_identity()
        }
    } else {
        let h = fq2_sub(&u2, &u1, &c.q);
        let h2 = fq2_add(&h, &h, &c.q);
        let i = fq2_mul(&h2, &h2, &c.q, &c.beta);
        let j = fq2_mul(&h, &i, &c.q, &c.beta);
        let sd = fq2_sub(&s2x, &s1, &c.q);
        let rr = fq2_add(&sd, &sd, &c.q);
        let v = fq2_mul(&u1, &i, &c.q, &c.beta);
        let x3 = fq2_sub(
            &fq2_sub(&fq2_mul(&rr, &rr, &c.q, &c.beta), &j, &c.q),
            &fq2_add(&v, &v, &c.q),
            &c.q,
        );
        let s1j = fq2_mul(&s1, &j, &c.q, &c.beta);
        let y3 = fq2_sub(
            &fq2_mul(&rr, &fq2_sub(&v, &x3, &c.q), &c.q, &c.beta),
            &fq2_add(&s1j, &s1j, &c.q),
            &c.q,
        );
        let zs = fq2_add(&p1.z, &p2.z, &c.q);
        let z3 = fq2_mul(
            &fq2_sub(&fq2_sub(&fq2_mul(&zs, &zs, &c.q, &c.beta), &z1z1, &c.q), &z2z2, &c.q),
            &h,
            &c.q,
            &c.beta,
        );
        Point2 { x: x3, y: y3, z: z3 }
    }
}

/// Scalar multiplication of a point by a little-endian limb scalar.
pub fn p2_smul(c: &CurveCfg2, s: &Vec<u64>, p: &Point2) -> (r: Point2)
    requires
        cfg2_wf(*c),
        p2_wf(*p, c.q.val()),
    ensures
        p2_wf(r, c.q.val()),
        p2v(r) == sp2_smul(c.q.val(), c.beta.val(), fq2v(c.a), limbs_val(s@), p2v(*p)),
{
    let bits = limbs_to_bits(s);
    let mut acc = p2_identity();
    let mut k: usize = bits.len();
    proof {
        assert(bits@.skip(k as int) =~= Seq::<bool>::empty());
        assert(bits_val(Seq::<bool>::empty()) == 0);
    }
    while k > 0
        invariant
            k <= bits@.len(),
            cfg2_wf(*c),
            p2_wf(*p, c.q.val()),
            bits_val(bits@) == limbs_val(s@),
            p2_wf(acc, c.q.val()),
            p2v(acc) == sp2_smul(c.q.val(), c.beta.val(), fq2v(c.a), bits_val(bits@.skip(k as int)), p2v(*p)),
        decreases k,
    {
        k -= 1;
        let bit: bool = bits[k];
        let ghost n: nat = bits_val(bits@.skip(k as int + 1));
        let ghost bn: nat = if bit {
            1nat
        } else {
            0nat
        };
        proof {
            assert(bits@.skip(k as int)[0] == bits@[k as int]);
            assert(bits@.skip(k as int).skip(1) =~= bits@.skip(k as int + 1));
            assert(bits_val(bits@.skip(k as int)) == bn + 2 * n);
            if bn + 2 * n > 0 {
                lemma_fundamental_div_mod_converse((bn + 2 * n) as int, 2, n as int, bn as int);
            }
        }
        let dbl = p2_double(c, &acc);
        if bit {
            acc = p2_add(c, &dbl, p);
        } else {
            acc = dbl;
        }
        proof {
            if bn + 2 * n == 0 {
                assert(p2v(acc) == sp2_double(c.q.val(), c.beta.val(), fq2v(c.a), sp2_inf()));
                assert(gp2_is_inf(sp2_inf()));
            }
        }
    }
    proof {
        assert(bits@.skip(0) =~= bits@);
    }
    acc
}

/// Whether `n * P` is the point at infinity; with `n` the subgroup order `r`
/// this is the subgroup-membership check.
pub fn p2_smul_is_inf(c: &CurveCfg2, n: &Vec<u64>, p: &Point2) -> (r: bool)
    requires
        cfg2_wf(*c),
        p2_wf(*p, c.q.val()),
    ensures
        r == gp2_is_inf(sp2_smul(c.q.val(), c.beta.val(), fq2v(c.a), limbs_val(n@), p2v(*p))),
{
    let m = p2_smul(c, n, p);
    p2_is_inf(&m)
}

/// Cofactor clearing: the scalar multiple `h * P` of a curve point, which
/// lands in the order-`r` subgroup because `h * r` annihilates the group.
pub fn p2_clear_cofactor(c: &CurveCfg2, h: &Vec<u64>, p: &Point2) -> (r: Point2)
    requires
        cfg2_wf(*c),
        p2_wf(*p, c.q.val()),
    ensures
        p2_wf(r, c.q.val()),
        p2v(r) == sp2_smul(c.q.val(), c.beta.val(), fq2v(c.a), limbs_val(h@), p2v(*p)),
{
    p2_smul(c, h, p)
}

pub fn p2_on_curve_affine(c: &CurveCfg2, x: &Fq2e, y: &Fq2e) -> (r: bool)
    requires
        cfg2_wf(*c),
        g2_wf(fq2v(*x), c.q.val()),
        g2_wf(fq2v(*y), c.q.val()),
    ensures
        r == sp2_on_curve(c.q.val(), c.beta.val(), fq2v(c.a), fq2v(c.b), fq2v(*x), fq2v(*y)),
{
    let lhs = fq2_mul(y, y, &c.q, &c.beta);
    let x2 = fq2_mul(x, x, &c.q, &c.beta);
    let x3 = fq2_mul(&x2, x, &c.q, &c.beta);
    let ax = fq2_mul(&c.a, x, &c.q, &c.beta);
    let rhs = fq2_add(&fq2_add(&x3, &ax, &c.q), &c.b, &c.q);
    fq2_eq(&lhs, &rhs)
}


/// The additive inverse of a point: the same point with `y` negated mod `q`.
pub open spec fn sp2_neg(q: nat, p: GP2) -> GP2 {
    GP2 {
        x: p.x,
        y: G2e {
            c0: (((0 - p.y.c0) % (q as int)) as nat),
            c1: (((0 - p.y.c1) % (q as int)) as nat),
        },
        z: p.z,
    }
}

pub fn p2_neg(c: &CurveCfg2, p: &Point2) -> (r: Point2)
    requires
        cfg2_wf(*c),
        p2_wf(*p, c.q.val()),
    ensures
        p2_wf(r, c.q.val()),
        p2v(r) == sp2_neg(c.q.val(), p2v(*p)),
{
    let zero = Fe::zero();
    let y = Fq2e {
        c0: crate::fe::fe_sub_mod(&zero, &p.y.c0, &c.q),
        c1: crate::fe::fe_sub_mod(&zero, &p.y.c1, &c.q),
    };
    Point2 { x: p.x, y, z: p.z }
}


/// Equality as curve points: cross-multiplied Jacobian coordinates agree,
/// or both points are at infinity.
pub open spec fn sp2_eq(q: nat, beta: nat, p1: GP2, p2: GP2) -> bool {
    if gp2_is_inf(p1) || gp2_is_inf(p2) {
        gp2_is_inf(p1) && gp2_is_inf(p2)
    } else {
        let z1z1 = s2_mul(q, beta, p1.z, p1.z);
        let z2z2 = s2_mul(q, beta, p2.z, p2.z);
        s2_mul(q, beta, p1.x, z2z2) == s2_mul(q, beta, p2.x, z1z1) && s2_mul(
            q,
            beta,
            p1.y,
            s2_mul(q, beta, p2.z, z2z2),
        ) == s2_mul(q, beta, p2.y, s2_mul(q, beta, p1.z, z1z1))
    }
}

pub fn p2_eq_points(c: &CurveCfg2, p1: &Point2, p2: &Point2) -> (r: bool)
    requires
        cfg2_wf(*c),
        p2_wf(*p1, c.q.val()),
        p2_wf(*p2, c.q.val()),
    ensures
        r == sp2_eq(c.q.val(), c.beta.val(), p2v(*p1), p2v(*p2)),
{
    let i1 = p2_is_inf(p1);
    let i2 = p2_is_inf(p2);
    if i1 || i2 {
        return i1 && i2;
    }
    let z1z1 = fq2_mul(&p1.z, &p1.z, &c.q, &c.beta);
    let z2z2 = fq2_mul(&p2.z, &p2.z, &c.q, &c.beta);
    let u1 = fq2_mul(&p1.x, &z2z2, &c.q, &c.beta);
    let u2 = fq2_mul(&p2.x, &z1z1, &c.q, &c.beta);
    let s1 = fq2_mul(&p1.y, &fq2_mul(&p2.z, &z2z2, &c.q, &c.beta), &c.q, &c.beta);
    let s2x = fq2_mul(&p2.y, &fq2_mul(&p1.z, &z1z1, &c.q, &c.beta), &c.q, &c.beta);
    let r = fq2_eq(&u1, &u2) && fq2_eq(&s1, &s2x);
    r
}


/// Law (identity axiom of the group): adding the point at infinity leaves
/// any finite point unchanged, and doubling the point at infinity yields
/// the point at infinity, as Jacobian representatives.
pub proof fn lemma_identity_neutral(q: nat, beta: nat, a: G2e, p: GP2)
    requires
        !gp2_is_inf(p),
    ensures
        sp2_add(q, beta, a, p, sp2_inf()) == p,
        sp2_add(q, beta, a, sp2_inf(), p) == p,
        gp2_is_inf(sp2_double(q, beta, a, sp2_inf())),
{
}

/// Why a coordinate pair was rejected as a G2 point.
#[derive(Clone, Copy, PartialEq, Eq, Structural, Debug)]
pub enum PointError {
    /// A coefficient is not a canonical residue below the field modulus.
    MalformedFieldElement,
    /// The coordinates do not satisfy the Weierstrass equation.
    NotOnCurve,
    /// The point is on the curve but not in the order-`r` subgroup.
    NotInSubgroup,
}

/// Validate untrusted affine coordinates against a curve and the subgroup
/// order `r`: canonical coefficients, then the curve equation, then `r*P = O`.
pub fn p2_validate(c: &CurveCfg2, r_limbs: &Vec<u64>, x: &Fq2e, y: &Fq2e) -> (res: Result<
    (),
    PointError,
>)
    requires
        cfg2_wf(*c),
    ensures
        (res matches Err(e) && e == PointError::MalformedFieldElement) <==> !(g2_wf(fq2v(*x), c.q.val())
            && g2_wf(fq2v(*y), c.q.val())),
        (res matches Err(e) && e == PointError::NotOnCurve) <==> (g2_wf(fq2v(*x), c.q.val())
            && g2_wf(fq2v(*y), c.q.val()) && !sp2_on_curve(c.q.val(), c.beta.val(), fq2v(c.a), fq2v(c.b), fq2v(*x), fq2v(*y))),
        (res matches Err(e) && e == PointError::NotInSubgroup) <==> (g2_wf(fq2v(*x), c.q.val())
            && g2_wf(fq2v(*y), c.q.val()) && sp2_on_curve(c.q.val(), c.beta.val(), fq2v(c.a), fq2v(c.b), fq2v(*x), fq2v(*y))
            && !gp2_is_inf(sp2_smul(c.q.val(), c.beta.val(), fq2v(c.a), limbs_val(r_limbs@), sp2_affine(fq2v(*x), fq2v(*y))))),
        res matches Ok(_) <==> (g2_wf(fq2v(*x), c.q.val()) && g2_wf(fq2v(*y), c.q.val())
            && sp2_on_curve(c.q.val(), c.beta.val(), fq2v(c.a), fq2v(c.b), fq2v(*x), fq2v(*y))
            && gp2_is_inf(sp2_smul(c.q.val(), c.beta.val(), fq2v(c.a), limbs_val(r_limbs@), sp2_affine(fq2v(*x), fq2v(*y))))),
{
    let ok0 = crate::fe::fe_lt(&x.c0, &c.q);
    let ok1 = crate::fe::fe_lt(&x.c1, &c.q);
    let ok2 = crate::fe::fe_lt(&y.c0, &c.q);
    let ok3 = crate::fe::fe_lt(&y.c1, &c.q);
    if !(ok0 && ok1 && ok2 && ok3) {
        return Err(PointError::MalformedFieldElement);
    }
    if !p2_on_curve_affine(c, x, y) {
        return Err(PointError::NotOnCurve);
    }
    let p = p2_from_affine(x, y);
    if !p2_smul_is_inf(c, r_limbs, &p) {
        return Err(PointError::NotInSubgroup);
    }
    Ok(())
}

} // verus!
