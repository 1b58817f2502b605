//! The parts of a proof system that keys are made of but do not look into.
use vstd::arithmetic::power2::pow2;
use vstd::prelude::*;

use crate::poly::{Coeff, ExtendedLagrangeCoeff, LagrangeCoeff, Polynomial};

verus! {

/// The evaluation domain of a circuit.
#[derive(Debug)]
pub struct EvaluationDomain {
    k: u32,
    n: u64,
    pinned: String,
}

impl EvaluationDomain {
    /// The size is the power of two that the logarithm says.
    #[verifier::type_invariant]
    spec fn sized(self) -> bool {
        self.k < 64 && self.n == pow2(self.k as nat)
    }

    /// The logarithm of the domain's size.
    pub closed spec fn spec_k(self) -> u32 {
        self.k
    }

    /// The text that identifies the domain.
    pub closed spec fn spec_pinned(self) -> Seq<char> {
        self.pinned@
    }

    /// The domain of size `2^k` that is identified by `pinned`.
    pub fn new(k: u32, pinned: String) -> (domain: Self)
        requires
            k < 64,
        ensures
            domain.spec_k() == k,
            domain.spec_pinned() == pinned@,
    {
        proof {
            vstd::bits::lemma_u64_pow2_no_overflow(k as nat);
            vstd::bits::lemma_u64_shl_is_mul(1, k as u64);
        }
        EvaluationDomain { k, n: 1u64 << k, pinned }
    }

    /// The logarithm of the domain's size.
    pub fn k(&self) -> (k: u32)
        ensures
            k == self.spec_k(),
            k < 64,
    {
        proof {
            use_type_invariant(self);
        }
        self.k
    }

    /// The domain's size.
    pub fn n(&self) -> (n: u64)
        ensures
            n == pow2(self.spec_k() as nat),
    {
        proof {
            use_type_invariant(self);
        }
        self.n
    }

    /// The text that identifies the domain.
    pub fn pinned(&self) -> (text: &str)
        ensures
            text@ == self.spec_pinned(),
    {
        self.pinned.as_str()
    }
}

impl Clone for EvaluationDomain {
    fn clone(&self) -> (copy: Self)
        ensures
            copy == *self,
    {
        proof {
            use_type_invariant(self);
        }
        EvaluationDomain { k: self.k, n: self.n, pinned: self.pinned.clone() }
    }
}

/// What keys need to know of a circuit's constraints.
#[derive(Debug)]
pub struct ConstraintSystem {
    /// The maximum degree of the gates.
    pub degree: usize,
    /// The number of selectors that are not yet fixed columns.
    pub num_selectors: usize,
    /// The number of columns of the permutation argument.
    pub permutation_columns: usize,
    /// The text that identifies the constraints.
    pub pinned: String,
}

impl Clone for ConstraintSystem {
    fn clone(&self) -> (copy: Self)
        ensures
            copy == *self,
    {
        ConstraintSystem {
            degree: self.degree,
            num_selectors: self.num_selectors,
            permutation_columns: self.permutation_columns,
            pinned: self.pinned.clone(),
        }
    }
}

/// A circuit, as far as its keys depend on it.
pub trait Circuit {
    /// The circuit's constraints.
    fn configure(&self) -> ConstraintSystem;
}

/// The Lagrange polynomials that a proving key holds.
pub struct LagrangePolys<F> {
    /// One in the first row, and zero in the others.
    pub l0: Polynomial<F, ExtendedLagrangeCoeff>,
    /// One in the last usable row, and zero in the others.
    pub l_last: Polynomial<F, ExtendedLagrangeCoeff>,
    /// One in the active rows, and zero in the others.
    pub l_active_row: Polynomial<F, ExtendedLagrangeCoeff>,
}

/// The computations of a proof system that keys are made with.
///
/// Nothing is promised of what they return: keys hold it as it came.
pub trait ProofSystem<F> {
    /// The compiled gates.
    type Evaluator;

    /// The text that identifies the domain of size `2^k` for gates of this degree.
    fn pinned_domain(&self, degree: usize, k: u32) -> String;

    /// Turns each selector into a fixed column.
    fn directly_convert_selectors_to_fixed(
        &self,
        cs: ConstraintSystem,
        selectors: Vec<Vec<bool>>,
    ) -> ConstraintSystem;

    /// The Lagrange polynomials of a circuit.
    fn compute_lagrange_polys(
        &self,
        domain: &EvaluationDomain,
        cs: &ConstraintSystem,
    ) -> LagrangePolys<F>;

    /// The coefficients of the polynomial with these evaluations.
    fn lagrange_to_coeff(
        &self,
        domain: &EvaluationDomain,
        values: &Polynomial<F, LagrangeCoeff>,
    ) -> Polynomial<F, Coeff>;

    /// The evaluations over the extended domain of the polynomial with these
    /// coefficients.
    fn coeff_to_extended(
        &self,
        domain: &EvaluationDomain,
        coeffs: &Polynomial<F, Coeff>,
    ) -> Polynomial<F, ExtendedLagrangeCoeff>;

    /// Compiles the gates of a circuit.
    fn evaluator(&self, cs: &ConstraintSystem) -> Self::Evaluator;
}

} // verus!
