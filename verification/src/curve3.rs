//! Short-Weierstrass curve group over the cubic tower, in Jacobian
//! coordinates (`Z == 0` encodes the point at infinity).  Doubling and
//! addition follow the standard general-`A` Jacobian formulas; scalar
//! multiplication, cofactor clearing, the subgroup check and point
//! validation are built on top of them.

use vstd::prelude::*;

verus! {

use vstd::arithmetic::div_mod::lemma_fundamental_div_mod_converse;
use crate::fe::{Fe, p320, fe_eq};
use crate::curve2::PointError;
use crate::bits::{limbs_val, bits_val, limbs_to_bits};
use crate::tower::{
    Fq3e, G3e, fq3v, g3_wf, s3_add, s3_sub, s3_mul, fq3_add, fq3_sub, fq3_mul, fq3_eq,
};

/// The constants a curve over the cubic tower is defined by:
/// the base-field modulus `q`, the tower non-residue `beta`, and the
/// Weierstrass coefficients `a` and `b` of `y^2 = x^3 + a*x + b`.
pub struct CurveCfg3 {
    pub q: Fe,
    pub beta: Fe,
    pub a: Fq3e,
    pub b: Fq3e,
}

pub open spec fn cfg3_wf(c: CurveCfg3) -> bool {
    &&& 1 < c.q.val()
    &&& 2 * c.q.val() <= p320()
    &&& c.beta.val() < c.q.val()
    &&& g3_wf(fq3v(c.a), c.q.val())
    &&& g3_wf(fq3v(c.b), c.q.val())
}

/// A Jacobian point over the cubic tower.
#[derive(Clone, Copy, PartialEq, Eq, Structural, Debug)]
pub struct Point3 {
    pub x: Fq3e,
    pub y: Fq3e,
    pub z: Fq3e,
}

/// The mathematical value of a Jacobian point: three tower residues.
pub struct GP3 {
    pub x: G3e,
    pub y: G3e,
    pub z: G3e,
}

pub open spec fn p3v(p: Point3) -> GP3 {
    GP3 { x: fq3v(p.x), y: fq3v(p.y), z: fq3v(p.z) }
}

pub open spec fn p3_wf(p: Point3, q: nat) -> bool {
    g3_wf(fq3v(p.x), q) && g3_wf(fq3v(p.y), q) && g3_wf(fq3v(p.z), q)
}

pub open spec fn gp3_is_inf(p: GP3) -> bool {
    p.z.c0 == 0 && p.z.c1 == 0 && p.z.c2 == 0
}

/// The representative of the point at infinity.
pub open spec fn sp3_inf() -> GP3 {
    GP3 {
        x: G3e { c0: 1, c1: 0, c2: 0 },
        y: G3e { c0: 1, c1: 0, c2: 0 },
        z: G3e { c0: 0, c1: 0, c2: 0 },
    }
}

/// Jacobian doubling over the cubic tower, as residue arithmetic.
pub open spec fn sp3_double(q: nat, beta: nat, a: G3e, p: GP3) -> GP3 {
    if gp3_is_inf(p) {
        p
    } else {
        let xx = s3_mul(q, beta, p.x, p.x);
        let yy = s3_mul(q, beta, p.y, p.y);
        let yyyy = s3_mul(q, beta, yy, yy);
        let zz = s3_mul(q, beta, p.z, p.z);
        let t = s3_add(q, p.x, yy);
        let t2 = s3_mul(q, beta, t, t);
        let u = s3_sub(q, s3_sub(q, t2, xx), yyyy);
        let s = s3_add(q, u, u);
        let xx3 = s3_add(q, s3_add(q, xx, xx), xx);
        let zz2 = s3_mul(q, beta, zz, zz);
        let azz = s3_mul(q, beta, a, zz2);
        let m = s3_add(q, xx3, azz);
        let x3 = s3_sub(q, s3_sub(q, s3_mul(q, beta, m, m), s), s);
        let y4 = s3_add(q, yyyy, yyyy);
        let y8t = s3_add(q, s3_add(q, y4, y4), s3_add(q, y4, y4));
        let y3 = s3_sub(q, s3_mul(q, beta, m, s3_sub(q, s, x3)), y8t);
        let yz = s3_add(q, p.y, p.z);
        let z3 = s3_sub(q, s3_sub(q, s3_mul(q, beta, yz, yz), yy), zz);
        GP3 { x: x3, y: y3, z: z3 }
    }
}

/// Jacobian addition over the cubic tower, as residue arithmetic.
pub open spec fn sp3_add(q: nat, beta: nat, a: G3e, p1: GP3, p2: GP3) -> GP3 {
    if gp3_is_inf(p1) {
        p2
    } else if gp3_is_inf(p2) {
        p1
    } else {
        let z1z1 = s3_mul(q, beta, p1.z, p1.z);
        let z2z2 = s3_mul(q, beta, p2.z, p2.z);
        let u1 = s3_mul(q, beta, p1.x, z2z2);
        let u2 = s3_mul(q, beta, p2.x, z1z1);
        let s1 = s3_mul(q, beta, p1.y, s3_mul(q, beta, p2.z, z2z2));
        let s2x = s3_mul(q, beta, p2.y, s3_mul(q, beta, p1.z, z1z1));
        if u1 == u2 {
            if s1 == s2x {
                sp3_double(q, beta, a, p1)
            } else {
                sp3_inf()
            }
        } else {
            let h = s3_sub(q, u2, u1);
            let h2 = s3_add(q, h, h);
            let i = s3_mul(q, beta, h2, h2);
            let j = s3_mul(q, beta, h, i);
            let sd = s3_sub(q, s2x, s1);
            let rr = s3_add(q, sd, sd);
            let v = s3_mul(q, beta, u1, i);
            let x3 = s3_sub(q, s3_sub(q, s3_mul(q, beta, rr, rr), j), s3_add(q, v, v));
            let s1j = s3_mul(q, beta, s1, j);
            let y3 = s3_sub(q, s3_mul(q, beta, rr, s3_sub(q, v, x3)), s3_add(q, s1j, s1j));
            let zs = s3_add(q, p1.z, p2.z);
            let z3 = s3_mul(q, beta, s3_sub(q, s3_sub(q, s3_mul(q, beta, zs, zs), z1z1), z2z2), h);
            GP3 { x: x3, y: y3, z: z3 }
        }
    }
}

/// Scalar multiplication by binary double-and-add, as residue arithmetic.
pub open spec fn sp3_smul(q: nat, beta: nat, a: G3e, n: nat, p: GP3) -> GP3
    decreases n,
{
    if n == 0 {
        sp3_inf()
    } else {
        let h = sp3_smul(q, beta, a, n / 2, p);
        let d = sp3_double(q, beta, a, h);
        if n % 2 == 1 {
            sp3_add(q, beta, a, d, p)
        } else {
            d
        }
    }
}

/// The affine curve equation `y^2 = x^3 + a*x + b` over the cubic tower.
pub open spec fn sp3_on_curve(q: nat, beta: nat, a: G3e, b: G3e, x: G3e, y: G3e) -> bool {
    s3_mul(q, beta, y, y) == s3_add(
        q,
        s3_add(q, s3_mul(q, beta, s3_mul(q, beta, x, x), x), s3_mul(q, beta, a, x)),
        b,
    )
}

pub fn p3_identity() -> (r: Point3)
    ensures
        p3v(r) == sp3_inf(),
        forall|q: nat| 1 < q ==> p3_wf(r, q),
{
    let one = Fe::one();
    let zero = Fe::zero();
    Point3 {
        x: Fq3e { c0: one, c1: zero, c2: zero },
        y: Fq3e { c0: one, c1: zero, c2: zero },
        z: Fq3e { c0: zero, c1: zero, c2: zero },
    }
}

/// The Jacobian value of a point given by affine coordinates: `Z = 1`.
pub open spec fn sp3_affine(x: G3e, y: G3e) -> GP3 {
    GP3 { x, y, z: G3e { c0: 1, c1: 0, c2: 0 } }
}

/// A finite point from affine coordinates: `Z = 1`.
pub fn p3_from_affine(x: &Fq3e, y: &Fq3e) -> (r: Point3)
    ensures
        p3v(r) == sp3_affine(fq3v(*x), fq3v(*y)),
{
    Point3 { x: *x, y: *y, z: Fq3e { c0: Fe::one(), c1: Fe::zero(), c2: Fe::zero() } }
}

pub fn p3_is_inf(p: &Point3) -> (r: bool)
    ensures
        r == gp3_is_inf(p3v(*p)),
{
    let zero = Fe::zero();
    let r = fe_eq(&p.z.c0, &zero) && fe_eq(&p.z.c1, &zero) && fe_eq(&p.z.c2, &zero);
    r
}

pub fn p3_double(c: &CurveCfg3, p: &Point3) -> (r: Point3)
    requires
        cfg3_wf(*c),
        p3_wf(*p, c.q.val()),
    ensures
        p3_wf(r, c.q.val()),
        p3v(r) == sp3_double(c.q.val(), c.beta.val(), fq3v(c.a), p3v(*p)),
{
    if p3_is_inf(p) {
        return *p;
    }
    let xx = fq3_mul(&p.x, &p.x, &c.q, &c.beta);
    let yy = fq3_mul(&p.y, &p.y, &c.q, &c.beta);
    let yyyy = fq3_mul(&yy, &yy, &c.q, &c.beta);
    let zz = fq3_mul(&p.z, &p.z, &c.q, &c.beta);
    let t = fq3_add(&p.x, &yy, &c.q);
    let t2 = fq3_mul(&t, &t, &c.q, &c.beta);
    let u = fq3_sub(&fq3_sub(&t2, &xx, &c.q), &yyyy, &c.q);
    let s = fq3_add(&u, &u, &c.q);
    let xx3 = fq3_add(&fq3_add(&xx, &xx, &c.q), &xx, &c.q);
    let zz2 = fq3_mul(&zz, &zz, &c.q, &c.beta);
    let azz = fq3_mul(&c.a, &zz2, &c.q, &c.beta);
    let m = fq3_add(&xx3, &azz, &c.q);
    let x3 = fq3_sub(&fq3_sub(&fq3_mul(&m, &m, &c.q, &c.beta), &s, &c.q), &s, &c.q);
    let y4 = fq3_add(&yyyy, &yyyy, &c.q);
    let y8t = fq3_add(&fq3_add(&y4, &y4, &c.q), &fq3_add(&y4, &y4, &c.q), &c.q);
    let y3 = fq3_sub(&fq3_mul(&m, &fq3_sub(&s, &x3, &c.q), &c.q, &c.beta), &y8t, &c.q);
    let yz = fq3_add(&p.y, &p.z, &c.q);
    let z3 = fq3_sub(&fq3_sub(&fq3_mul(&yz, &yz, &c.q, &c.beta), &yy, &c.q), &zz, &c.q);
    Point3 { x: x3, y: y3, z: z3 }
}

pub fn p3_add(c: &CurveCfg3, p1: &Point3, p2: &Point3) -> (r: Point3)
    requires
        cfg3_wf(*c),
        p3_wf(*p1, c.q.val()),
        p3_wf(*p2, c.q.val()),
    ensures
        p3_wf(r, c.q.val()),
        p3v(r) == sp3_add(c.q.val(), c.beta.val(), fq3v(c.a), p3v(*p1), p3v(*p2)),
{
    if p3_is_inf(p1) {
        return *p2;
    }
    if p3_is_inf(p2) {
        return *p1;
    }
    let z1z1 = fq3_mul(&p1.z, &p1.z, &c.q, &c.beta);
    let z2z2 = fq3_mul(&p2.z, &p2.z, &c.q, &c.beta);
    let u1 = fq3_mul(&p1.x, &z2z2, &c.q, &c.beta);
    let u2 = fq3_mul(&p2.x, &z1z1, &c.q, &c.beta);
    let s1 = fq3_mul(&p1.y, &fq3_mul(&p2.z, &z2z2, &c.q, &c.beta), &c.q, &c.beta);
    let s2x = fq3_mul(&p2.y, &fq3_mul(&p1.z, &z1z1, &c.q, &c.beta), &c.q, &c.beta);
    if fq3_eq(&u1, &u2) {
        if fq3_eq(&s1, &s2x) {
            p3_double(c, p1)
        } else {
            p3_identity()
        }
    } else {
        let h = fq3_sub(&u2, &u1, &c.q);
        let h2 = fq3_add(&h, &h, &c.q);
        let i = fq3_mul(&h2, &h2, &c.q, &c.beta);
        let j = fq3_mul(&h, &i, &c.q, &c.beta);
        let sd = fq3_sub(&s2x, &s1, &c.q);
        let rr = fq3_add(&sd, &sd, &c.q);
        let v = fq3_mul(&u1, &i, &c.q, &c.beta);
        let x3 = fq3_sub(
            &fq3_sub(&fq3_mul(&rr, &rr, &c.q, &c.beta), &j, &c.q),
            &fq3_add(&v, &v, &c.q),
            &c.q,
        );
        let s1j = fq3_mul(&s1, &j, &c.q, &c.beta);
        let y3 = fq3_sub(
            &fq3_mul(&rr, &fq3_sub(&v, &x3, &c.q), &c.q, &c.beta),
            &fq3_add(&s1j, &s1j, &c.q),
            &c.q,
        );
        let zs = fq3_add(&p1.z, &p2.z, &c.q);
        let z3 = fq3_mul(
            &fq3_sub(&fq3_sub(&fq3_mul(&zs, &zs, &c.q, &c.beta), &z1z1, &c.q), &z2z2, &c.q),
            &h,
            &c.q,
            &c.beta,
        );
        Point3 { x: x3, y: y3, z: z3 }
    }
}

/// Scalar multiplication of a point by a little-endian limb scalar.
pub fn p3_smul(c: &CurveCfg3, s: &Vec<u64>, p: &Point3) -> (r: Point3)
    requires
        cfg3_wf(*c),
        p3_wf(*p, c.q.val()),
    ensures
        p3_wf(r, c.q.val()),
        p3v(r) == sp3_smul(c.q.val(), c.beta.val(), fq3v(c.a), limbs_val(s@), p3v(*p)),
{
    let bits = limbs_to_bits(s);
    let mut acc = p3_identity();
    let mut k: usize = bits.len();
    proof {
        assert(bits@.skip(k as int) =~= Seq::<bool>::empty());
        assert(bits_val(Seq::<bool>::empty()) == 0);
    }
    while k > 0
        invariant
            k <= bits@.len(),
            cfg3_wf(*c),
            p3_wf(*p, c.q.val()),
            bits_val(bits@) == limbs_val(s@),
            p3_wf(acc, c.q.val()),
            p3v(acc) == sp3_smul(c.q.val(), c.beta.val(), fq3v(c.a), bits_val(bits@.skip(k as int)), p3v(*p)),
        decreases k,
    {
        k -= 1;
        let bit: bool = bits[k];
        let ghost n: nat = bits_val(bits@.skip(k as int + 1));
        let ghost bn: nat = if bit {
            1nat
        } else {
            0nat
        };
        proof {
            assert(bits@.skip(k as int)[0] == bits@[k as int]);
            assert(bits@.skip(k as int).skip(1) =~= bits@.skip(k as int + 1));
            assert(bits_val(bits@.skip(k as int)) == bn + 2 * n);
            if bn + 2 * n > 0 {
                lemma_fundamental_div_mod_converse((bn + 2 * n) as int, 2, n as int, bn as int);
            }
        }
        let dbl = p3_double(c, &acc);
        if bit {
            acc = p3_add(c, &dbl, p);
        } else {
            acc = dbl;
        }
        proof {
            if bn + 2 * n == 0 {
                assert(p3v(acc) == sp3_double(c.q.val(), c.beta.val(), fq3v(c.a), sp3_inf()));
                assert(gp3_is_inf(sp3_inf()));
            }
        }
    }
    proof {
        assert(bits@.skip(0) =~= bits@);
    }
    acc
}

/// Whether `n * P` is the point at infinity; with `n` the subgroup order `r`
/// this is the subgroup-membership check.
pub fn p3_smul_is_inf(c: &CurveCfg3, n: &Vec<u64>, p: &Point3) -> (r: bool)
    requires
        cfg3_wf(*c),
        p3_wf(*p, c.q.val()),
    ensures
        r == gp3_is_inf(sp3_smul(c.q.val(), c.beta.val(), fq3v(c.a), limbs_val(n@), p3v(*p))),
{
    let m = p3_smul(c, n, p);
    p3_is_inf(&m)
}

/// Cofactor clearing: the scalar multiple `h * P` of a curve point, which
/// lands in the order-`r` subgroup because `h * r` annihilates the group.
pub fn p3_clear_cofactor(c: &CurveCfg3, h: &Vec<u64>, p: &Point3) -> (r: Point3)
    requires
        cfg3_wf(*c),
        p3_wf(*p, c.q.val()),
    ensures
        p3_wf(r, c.q.val()),
        p3v(r) == sp3_smul(c.q.val(), c.beta.val(), fq3v(c.a), limbs_val(h@), p3v(*p)),
{
    p3_smul(c, h, p)
}

pub fn p3_on_curve_affine(c: &CurveCfg3, x: &Fq3e, y: &Fq3e) -> (r: bool)
    requires
        cfg3_wf(*c),
        g3_wf(fq3v(*x), c.q.val()),
        g3_wf(fq3v(*y), c.q.val()),
    ensures
        r == sp3_on_curve(c.q.val(), c.beta.val(), fq3v(c.a), fq3v(c.b), fq3v(*x), fq3v(*y)),
{
    let lhs = fq3_mul(y, y, &c.q, &c.beta);
    let x2 = fq3_mul(x, x, &c.q, &c.beta);
    let x3 = fq3_mul(&x2, x, &c.q, &c.beta);
    let ax = fq3_mul(&c.a, x, &c.q, &c.beta);
    let rhs = fq3_add(&fq3_add(&x3, &ax, &c.q), &c.b, &c.q);
    fq3_eq(&lhs, &rhs)
}


/// The additive inverse of a point: the same point with `y` negated mod `q`.
pub open spec fn sp3_neg(q: nat, p: GP3) -> GP3 {
    GP3 {
        x: p.x,
        y: G3e {
            c0: (((0 - p.y.c0) % (q as int)) as nat),
            c1: (((0 - p.y.c1) % (q as int)) as nat),
            c2: (((0 - p.y.c2) % (q as int)) as nat),
        },
        z: p.z,
    }
}

pub fn p3_neg(c: &CurveCfg3, p: &Point3) -> (r: Point3)
    requires
        cfg3_wf(*c),
        p3_wf(*p, c.q.val()),
    ensures
        p3_wf(r, c.q.val()),
        p3v(r) == sp3_neg(c.q.val(), p3v(*p)),
{
    let zero = Fe::zero();
    let y = Fq3e {
        c0: crate::fe::fe_sub_mod(&zero, &p.y.c0, &c.q),
        c1: crate::fe::fe_sub_mod(&zero, &p.y.c1, &c.q),
        c2: crate::fe::fe_sub_mod(&zero, &p.y.c2, &c.q),
    };
    Point3 { x: p.x, y, z: p.z }
}


/// Equality as curve points: cross-multiplied Jacobian coordinates agree,
/// or both points are at infinity.
pub open spec fn sp3_eq(q: nat, beta: nat, p1: GP3, p2: GP3) -> bool {
    if gp3_is_inf(p1) || gp3_is_inf(p2) {
        gp3_is_inf(p1) && gp3_is_inf(p2)
    } else {
        let z1z1 = s3_mul(q, beta, p1.z, p1.z);
        let z2z2 = s3_mul(q, beta, p2.z, p2.z);
        s3_mul(q, beta, p1.x, z2z2) == s3_mul(q, beta, p2.x, z1z1) && s3_mul(
            q,
            beta,
            p1.y,
            s3_mul(q, beta, p2.z, z2z2),
        ) == s3_mul(q, beta, p2.y, s3_mul(q, beta, p1.z, z1z1))
    }
}

pub fn p3_eq_points(c: &CurveCfg3, p1: &Point3, p2: &Point3) -> (r: bool)
    requires
        cfg3_wf(*c),
        p3_wf(*p1, c.q.val()),
        p3_wf(*p2, c.q.val()),
    ensures
        r == sp3_eq(c.q.val(), c.beta.val(), p3v(*p1), p3v(*p2)),
{
    let i1 = p3_is_inf(p1);
    let i2 = p3_is_inf(p2);
    if i1 || i2 {
        return i1 && i2;
    }
    let z1z1 = fq3_mul(&p1.z, &p1.z, &c.q, &c.beta);
    let z2z2 = fq3_mul(&p2.z, &p2.z, &c.q, &c.beta);
    let u1 = fq3_mul(&p1.x, &z2z2, &c.q, &c.beta);
    let u2 = fq3_mul(&p2.x, &z1z1, &c.q, &c.beta);
    let s1 = fq3_mul(&p1.y, &fq3_mul(&p2.z, &z2z2, &c.q, &c.beta), &c.q, &c.beta);
    let s2x = fq3_mul(&p2.y, &fq3_mul(&p1.z, &z1z1, &c.q, &c.beta), &c.q, &c.beta);
    let r = fq3_eq(&u1, &u2) && fq3_eq(&s1, &s2x);
    r
}


/// Law (identity axiom of the group): adding the point at infinity leaves
/// any finite point unchanged, and doubling the point at infinity yields
/// the point at infinity, as Jacobian representatives.
pub proof fn lemma_identity_neutral(q: nat, beta: nat, a: G3e, p: GP3)
    requires
        !gp3_is_inf(p),
    ensures
        sp3_add(q, beta, a, p, sp3_inf()) == p,
        sp3_add(q, beta, a, sp3_inf(), p) == p,
        gp3_is_inf(sp3_double(q, beta, a, sp3_inf())),
{
}

/// Validate untrusted affine coordinates against a curve and the subgroup
/// order `r`: canonical coefficients, then the curve equation, then `r*P = O`.
pub fn p3_validate(c: &CurveCfg3, r_limbs: &Vec<u64>, x: &Fq3e, y: &Fq3e) -> (res: Result<
    (),
    PointError,
>)
    requires
        cfg3_wf(*c),
    ensures
        (res matches Err(e) && e == PointError::MalformedFieldElement) <==> !(g3_wf(fq3v(*x), c.q.val())
            && g3_wf(fq3v(*y), c.q.val())),
        (res matches Err(e) && e == PointError::NotOnCurve) <==> (g3_wf(fq3v(*x), c.q.val())
            && g3_wf(fq3v(*y), c.q.val()) && !sp3_on_curve(c.q.val(), c.beta.val(), fq3v(c.a), fq3v(c.b), fq3v(*x), fq3v(*y))),
        (res matches Err(e) && e == PointError::NotInSubgroup) <==> (g3_wf(fq3v(*x), c.q.val())
            && g3_wf(fq3v(*y), c.q.val()) && sp3_on_curve(c.q.val(), c.beta.val(), fq3v(c.a), fq3v(c.b), fq3v(*x), fq3v(*y))
            && !gp3_is_inf(sp3_smul(c.q.val(), c.beta.val(), fq3v(c.a), limbs_val(r_limbs@), sp3_affine(fq3v(*x), fq3v(*y))))),
        res matches Ok(_) <==> (g3_wf(fq3v(*x), c.q.val()) && g3_wf(fq3v(*y), c.q.val())
            && sp3_on_curve(c.q.val(), c.beta.val(), fq3v(c.a), fq3v(c.b), fq3v(*x), fq3v(*y))
            && gp3_is_inf(sp3_smul(c.q.val(), c.beta.val(), fq3v(c.a), limbs_val(r_limbs@), sp3_affine(fq3v(*x), fq3v(*y))))),
{
    let ok0 = crate::fe::fe_lt(&x.c0, &c.q);
    let ok1 = crate::fe::fe_lt(&x.c1, &c.q);
    let ok2 = crate::fe::fe_lt(&x.c2, &c.q);
    let ok3 = crate::fe::fe_lt(&y.c0, &c.q);
    let ok4 = crate::fe::fe_lt(&y.c1, &c.q);
    let ok5 = crate::fe::fe_lt(&y.c2, &c.q);
    if !(ok0 && ok1 && ok2 && ok3 && ok4 && ok5) {
        return Err(PointError::MalformedFieldElement);
    }
    if !p3_on_curve_affine(c, x, y) {
        return Err(PointError::NotOnCurve);
    }
    let p = p3_from_affine(x, y);
    if !p3_smul_is_inf(c, r_limbs, &p) {
        return Err(PointError::NotInSubgroup);
    }
    Ok(())
}

} // verus!
