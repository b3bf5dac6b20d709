//! The quadratic and cubic tower extensions of a prime field: elements are
//! tuples of base-field coefficients, multiplied as polynomials modulo
//! `x^2 - beta` or `x^3 - beta` for the tower's fixed non-residue `beta`.

use vstd::prelude::*;

verus! {

use vstd::arithmetic::div_mod::{lemma_small_mod, lemma_mul_mod_noop_right, lemma_add_mod_noop};
use crate::fe::{Fe, p320, fe_add_mod, fe_sub_mod, fe_eq};
use crate::bits::fe_mul_mod;

/// An element of `Fq[x]/(x^2 - beta)`: `c0 + c1*x`.
#[derive(Clone, Copy, PartialEq, Eq, Structural, Debug)]
pub struct Fq2e {
    pub c0: Fe,
    pub c1: Fe,
}

/// An element of `Fq[x]/(x^3 - beta)`: `c0 + c1*x + c2*x^2`.
#[derive(Clone, Copy, PartialEq, Eq, Structural, Debug)]
pub struct Fq3e {
    pub c0: Fe,
    pub c1: Fe,
    pub c2: Fe,
}

/// The mathematical value of a quadratic-tower element: a pair of residues.
pub struct G2e {
    pub c0: nat,
    pub c1: nat,
}

/// The mathematical value of a cubic-tower element: a triple of residues.
pub struct G3e {
    pub c0: nat,
    pub c1: nat,
    pub c2: nat,
}

pub open spec fn fq2v(e: Fq2e) -> G2e {
    G2e { c0: e.c0.val(), c1: e.c1.val() }
}

pub open spec fn fq3v(e: Fq3e) -> G3e {
    G3e { c0: e.c0.val(), c1: e.c1.val(), c2: e.c2.val() }
}

pub open spec fn g2_wf(e: G2e, q: nat) -> bool {
    e.c0 < q && e.c1 < q
}

pub open spec fn g3_wf(e: G3e, q: nat) -> bool {
    e.c0 < q && e.c1 < q && e.c2 < q
}

/// Sum in the quadratic tower, coefficientwise modulo `q`.
pub open spec fn s2_add(q: nat, a: G2e, b: G2e) -> G2e {
    G2e { c0: ((a.c0 + b.c0) % q), c1: ((a.c1 + b.c1) % q) }
}

/// Difference in the quadratic tower, coefficientwise modulo `q`.
pub open spec fn s2_sub(q: nat, a: G2e, b: G2e) -> G2e {
    G2e {
        c0: (((a.c0 - b.c0) % (q as int)) as nat),
        c1: (((a.c1 - b.c1) % (q as int)) as nat),
    }
}

/// Product in the quadratic tower: polynomial product reduced by `x^2 = beta`.
pub open spec fn s2_mul(q: nat, beta: nat, a: G2e, b: G2e) -> G2e {
    G2e {
        c0: ((a.c0 * b.c0 + beta * (a.c1 * b.c1)) % q),
        c1: ((a.c0 * b.c1 + a.c1 * b.c0) % q),
    }
}

/// Sum in the cubic tower, coefficientwise modulo `q`.
pub open spec fn s3_add(q: nat, a: G3e, b: G3e) -> G3e {
    G3e { c0: ((a.c0 + b.c0) % q), c1: ((a.c1 + b.c1) % q), c2: ((a.c2 + b.c2) % q) }
}

/// Difference in the cubic tower, coefficientwise modulo `q`.
pub open spec fn s3_sub(q: nat, a: G3e, b: G3e) -> G3e {
    G3e {
        c0: (((a.c0 - b.c0) % (q as int)) as nat),
        c1: (((a.c1 - b.c1) % (q as int)) as nat),
        c2: (((a.c2 - b.c2) % (q as int)) as nat),
    }
}

/// Product in the cubic tower: polynomial product reduced by `x^3 = beta`.
pub open spec fn s3_mul(q: nat, beta: nat, a: G3e, b: G3e) -> G3e {
    G3e {
        c0: ((a.c0 * b.c0 + beta * (a.c1 * b.c2 + a.c2 * b.c1)) % q),
        c1: ((a.c0 * b.c1 + a.c1 * b.c0 + beta * (a.c2 * b.c2)) % q),
        c2: ((a.c0 * b.c2 + a.c1 * b.c1 + a.c2 * b.c0) % q),
    }
}

pub fn fq2_add(a: &Fq2e, b: &Fq2e, q: &Fe) -> (r: Fq2e)
    requires
        g2_wf(fq2v(*a), q.val()),
        g2_wf(fq2v(*b), q.val()),
        2 * q.val() <= p320(),
    ensures
        fq2v(r) == s2_add(q.val(), fq2v(*a), fq2v(*b)),
        g2_wf(fq2v(r), q.val()),
{
    Fq2e { c0: fe_add_mod(&a.c0, &b.c0, q), c1: fe_add_mod(&a.c1, &b.c1, q) }
}

pub fn fq2_sub(a: &Fq2e, b: &Fq2e, q: &Fe) -> (r: Fq2e)
    requires
        g2_wf(fq2v(*a), q.val()),
        g2_wf(fq2v(*b), q.val()),
        2 * q.val() <= p320(),
    ensures
        fq2v(r) == s2_sub(q.val(), fq2v(*a), fq2v(*b)),
        g2_wf(fq2v(r), q.val()),
{
    Fq2e { c0: fe_sub_mod(&a.c0, &b.c0, q), c1: fe_sub_mod(&a.c1, &b.c1, q) }
}

pub fn fq2_mul(a: &Fq2e, b: &Fq2e, q: &Fe, beta: &Fe) -> (r: Fq2e)
    requires
        g2_wf(fq2v(*a), q.val()),
        g2_wf(fq2v(*b), q.val()),
        beta.val() < q.val(),
        2 * q.val() <= p320(),
    ensures
        fq2v(r) == s2_mul(q.val(), beta.val(), fq2v(*a), fq2v(*b)),
        g2_wf(fq2v(r), q.val()),
{
    let t00 = fe_mul_mod(&a.c0, &b.c0, q);
    let t11 = fe_mul_mod(&a.c1, &b.c1, q);
    let bt = fe_mul_mod(beta, &t11, q);
    let c0 = fe_add_mod(&t00, &bt, q);
    let u01 = fe_mul_mod(&a.c0, &b.c1, q);
    let u10 = fe_mul_mod(&a.c1, &b.c0, q);
    let c1 = fe_add_mod(&u01, &u10, q);
    proof {
        let qi: int = q.val() as int;
        lemma_mul_mod_noop_right(beta.val() as int, (a.c1.val() * b.c1.val()) as int, qi);
        lemma_add_mod_noop(
            (a.c0.val() * b.c0.val()) as int,
            (beta.val() * (a.c1.val() * b.c1.val())) as int,
            qi,
        );
        lemma_add_mod_noop(
            (a.c0.val() * b.c1.val()) as int,
            (a.c1.val() * b.c0.val()) as int,
            qi,
        );
    }
    Fq2e { c0, c1 }
}

pub fn fq2_eq(a: &Fq2e, b: &Fq2e) -> (r: bool)
    ensures
        r == (fq2v(*a) == fq2v(*b)),
{
    let r = fe_eq(&a.c0, &b.c0) && fe_eq(&a.c1, &b.c1);
    r
}

pub fn fq3_add(a: &Fq3e, b: &Fq3e, q: &Fe) -> (r: Fq3e)
    requires
        g3_wf(fq3v(*a), q.val()),
        g3_wf(fq3v(*b), q.val()),
        2 * q.val() <= p320(),
    ensures
        fq3v(r) == s3_add(q.val(), fq3v(*a), fq3v(*b)),
        g3_wf(fq3v(r), q.val()),
{
    Fq3e {
        c0: fe_add_mod(&a.c0, &b.c0, q),
        c1: fe_add_mod(&a.c1, &b.c1, q),
        c2: fe_add_mod(&a.c2, &b.c2, q),
    }
}

pub fn fq3_sub(a: &Fq3e, b: &Fq3e, q: &Fe) -> (r: Fq3e)
    requires
        g3_wf(fq3v(*a), q.val()),
        g3_wf(fq3v(*b), q.val()),
        2 * q.val() <= p320(),
    ensures
        fq3v(r) == s3_sub(q.val(), fq3v(*a), fq3v(*b)),
        g3_wf(fq3v(r), q.val()),
{
    Fq3e {
        c0: fe_sub_mod(&a.c0, &b.c0, q),
        c1: fe_sub_mod(&a.c1, &b.c1, q),
        c2: fe_sub_mod(&a.c2, &b.c2, q),
    }
}

pub fn fq3_mul(a: &Fq3e, b: &Fq3e, q: &Fe, beta: &Fe) -> (r: Fq3e)
    requires
        g3_wf(fq3v(*a), q.val()),
        g3_wf(fq3v(*b), q.val()),
        beta.val() < q.val(),
        2 * q.val() <= p320(),
    ensures
        fq3v(r) == s3_mul(q.val(), beta.val(), fq3v(*a), fq3v(*b)),
        g3_wf(fq3v(r), q.val()),
{
    let qi: Ghost<int> = Ghost(q.val() as int);
    let t12 = fe_mul_mod(&a.c1, &b.c2, q);
    let t21 = fe_mul_mod(&a.c2, &b.c1, q);
    let s12 = fe_add_mod(&t12, &t21, q);
    let bs12 = fe_mul_mod(beta, &s12, q);
    let t00 = fe_mul_mod(&a.c0, &b.c0, q);
    let c0 = fe_add_mod(&t00, &bs12, q);
    proof {
        lemma_add_mod_noop(
            (a.c1.val() * b.c2.val()) as int,
            (a.c2.val() * b.c1.val()) as int,
            qi@,
        );
        lemma_mul_mod_noop_right(
            beta.val() as int,
            (a.c1.val() * b.c2.val() + a.c2.val() * b.c1.val()) as int,
            qi@,
        );
        lemma_add_mod_noop(
            (a.c0.val() * b.c0.val()) as int,
            (beta.val() * (a.c1.val() * b.c2.val() + a.c2.val() * b.c1.val())) as int,
            qi@,
        );
    }
    let t01 = fe_mul_mod(&a.c0, &b.c1, q);
    let t10 = fe_mul_mod(&a.c1, &b.c0, q);
    let s01 = fe_add_mod(&t01, &t10, q);
    let t22 = fe_mul_mod(&a.c2, &b.c2, q);
    let bt22 = fe_mul_mod(beta, &t22, q);
    let c1 = fe_add_mod(&s01, &bt22, q);
    proof {
        lemma_add_mod_noop(
            (a.c0.val() * b.c1.val()) as int,
            (a.c1.val() * b.c0.val()) as int,
            qi@,
        );
        lemma_mul_mod_noop_right(beta.val() as int, (a.c2.val() * b.c2.val()) as int, qi@);
        lemma_add_mod_noop(
            (a.c0.val() * b.c1.val() + a.c1.val() * b.c0.val()) as int,
            (beta.val() * (a.c2.val() * b.c2.val())) as int,
            qi@,
        );
    }
    let t02 = fe_mul_mod(&a.c0, &b.c2, q);
    let t11 = fe_mul_mod(&a.c1, &b.c1, q);
    let s02 = fe_add_mod(&t02, &t11, q);
    let t20 = fe_mul_mod(&a.c2, &b.c0, q);
    let c2 = fe_add_mod(&s02, &t20, q);
    proof {
        lemma_add_mod_noop(
            (a.c0.val() * b.c2.val()) as int,
            (a.c1.val() * b.c1.val()) as int,
            qi@,
        );
        lemma_small_mod(a.c2.val() * b.c0.val() % q.val(), q.val());
        lemma_add_mod_noop(
            (a.c0.val() * b.c2.val() + a.c1.val() * b.c1.val()) as int,
            (a.c2.val() * b.c0.val()) as int,
            qi@,
        );
    }
    Fq3e { c0, c1, c2 }
}

pub fn fq3_eq(a: &Fq3e, b: &Fq3e) -> (r: bool)
    ensures
        r == (fq3v(*a) == fq3v(*b)),
{
    let r = fe_eq(&a.c0, &b.c0) && fe_eq(&a.c1, &b.c1) && fe_eq(&a.c2, &b.c2);
    r
}

} // verus!
