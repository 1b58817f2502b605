//! Polynomials over a field, tagged with the basis their values are given in.
use std::marker::PhantomData;

use vstd::prelude::*;

pub mod kzg;
pub mod view;

verus! {

/// Coefficients of a polynomial, lowest degree first.
#[derive(Clone, Copy, Debug)]
pub struct Coeff;

/// Evaluations of a polynomial over the circuit's domain.
#[derive(Clone, Copy, Debug)]
pub struct LagrangeCoeff;

/// Evaluations of a polynomial over a coset of the extended domain.
#[derive(Clone, Copy, Debug)]
pub struct ExtendedLagrangeCoeff;

/// A polynomial that owns its values, in the basis `B`.
pub struct Polynomial<F, B> {
    /// The values, one per basis element.
    pub values: Vec<F>,
    /// The basis the values are given in.
    pub _marker: PhantomData<B>,
}

impl<F, B> Polynomial<F, B> {
    /// A polynomial over the given values.
    pub fn new(values: Vec<F>) -> (poly: Self)
        ensures
            poly.values == values,
    {
        Polynomial { values, _marker: PhantomData }
    }
}

impl<F: Copy, B> Clone for Polynomial<F, B> {
    fn clone(&self) -> (copy: Self)
        ensures
            copy.values@ == self.values@,
    {
        Polynomial::new(vstd::slice::slice_to_vec(self.values.as_slice()))
    }
}

/// Clones a batch of polynomials.
pub fn clone_polys<F: Copy, B>(polys: &[Polynomial<F, B>]) -> (copy: Vec<Polynomial<F, B>>)
    ensures
        copy@.len() == polys@.len(),
        forall|i: int| 0 <= i < polys@.len() ==> (#[trigger] copy@[i]).values@ == polys@[i].values@,
{
    let n: usize = polys.len();
    let mut copy: Vec<Polynomial<F, B>> = Vec::with_capacity(n);
    for i in 0..n
        invariant
            n == polys@.len(),
            copy@.len() == i,
            forall|j: int| 0 <= j < i ==> (#[trigger] copy@[j]).values@ == polys@[j].values@,
    {
        copy.push(polys[i].clone());
    }
    copy
}

} // verus!
