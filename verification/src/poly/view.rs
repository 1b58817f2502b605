//! Read-only polynomial access shared by owned and mapped storage.
use std::marker::PhantomData;
use std::ops::Deref;

use vstd::arithmetic::div_mod::lemma_add_mod_noop_right;
use vstd::prelude::*;

use super::Polynomial;
use crate::field::Field;

verus! {

/// Minimal interface of a polynomial that is only read.
///
/// An implementation may own its values or expose a checked view over another
/// backing store.
pub trait PolynomialRead<F> {
    /// Basis carried through every borrowed view.
    type Basis;

    /// The values as a mathematical sequence.
    spec fn coeffs(&self) -> Seq<F>;

    /// The values.
    fn values(&self) -> (values: &[F])
        ensures
            values@ == self.coeffs(),
    ;
}

impl<F, B> PolynomialRead<F> for Polynomial<F, B> {
    type Basis = B;

    open spec fn coeffs(&self) -> Seq<F> {
        self.values@
    }

    fn values(&self) -> (values: &[F]) {
        self.values.as_slice()
    }
}

/// The values of each polynomial of a batch.
pub open spec fn rows_of<F, P: PolynomialRead<F>>(polys: Seq<P>) -> Seq<Seq<F>> {
    Seq::new(polys.len(), |i: int| polys[i].coeffs())
}

/// A copyable, basis-typed, read-only polynomial reference.
///
/// Whether the storage behind it is owned or mapped was settled when the view
/// was made.
pub struct PolynomialView<'a, F, B> {
    values: &'a [F],
    _marker: PhantomData<B>,
}

impl<F, B> Clone for PolynomialView<'_, F, B> {
    fn clone(&self) -> (copy: Self)
        ensures
            copy == *self,
    {
        *self
    }
}

impl<F, B> Copy for PolynomialView<'_, F, B> {

}

impl<'a, F, B> PolynomialView<'a, F, B> {
    /// A view of the given values.
    pub fn new(values: &'a [F]) -> (view: Self)
        ensures
            view.coeffs() == values@,
    {
        PolynomialView { values, _marker: PhantomData }
    }

    /// Materialises one owned polynomial, cloning every value.
    pub fn materialise(self) -> (poly: Polynomial<F, B>) where F: Clone
        ensures
            poly.coeffs().len() == self.coeffs().len(),
            forall|i: int|
                0 <= i < self.coeffs().len() ==> cloned(
                    self.coeffs()[i],
                    #[trigger] poly.coeffs()[i],
                ),
    {
        Polynomial::new(clone_values(self.values))
    }
}

/// Clones the values of a slice into a vector.
pub fn clone_values<F: Clone>(values: &[F]) -> (copy: Vec<F>)
    ensures
        copy@.len() == values@.len(),
        forall|i: int| 0 <= i < values@.len() ==> cloned(values@[i], #[trigger] copy@[i]),
{
    let n: usize = values.len();
    let mut copy: Vec<F> = Vec::with_capacity(n);
    for i in 0..n
        invariant
            n == values@.len(),
            copy@.len() == i,
            forall|j: int| 0 <= j < i ==> cloned(values@[j], #[trigger] copy@[j]),
    {
        copy.push(values[i].clone());
    }
    copy
}

impl<F, B> Deref for PolynomialView<'_, F, B> {
    type Target = [F];

    fn deref(&self) -> (values: &[F])
        ensures
            values@ == self.coeffs(),
    {
        self.values
    }
}

impl<F, B> PolynomialRead<F> for PolynomialView<'_, F, B> {
    type Basis = B;

    closed spec fn coeffs(&self) -> Seq<F> {
        self.values@
    }

    fn values(&self) -> (values: &[F]) {
        self.values
    }
}

/// Adapts a batch to the one concrete representation that read-only proving
/// code uses. The values themselves are never copied.
pub fn polynomial_views<F, P>(polys: &[P]) -> (views: Vec<
    PolynomialView<'_, F, P::Basis>,
>) where P: PolynomialRead<F>
    ensures
        views@.len() == polys@.len(),
        rows_of(views@) == rows_of(polys@),
{
    let n: usize = polys.len();
    let mut views: Vec<PolynomialView<'_, F, P::Basis>> = Vec::with_capacity(n);
    for i in 0..n
        invariant
            n == polys@.len(),
            views@.len() == i,
            forall|j: int| 0 <= j < i ==> (#[trigger] views@[j]).coeffs() == polys@[j].coeffs(),
    {
        views.push(PolynomialView::new(polys[i].values()));
    }
    assert(rows_of(views@) =~= rows_of(polys@));
    views
}

/// Entry `at` of the linear combination of the first `terms` rows, before it
/// is reduced: the sum over `j < terms` of `rows[j][at] * scalars[j]`.
pub open spec fn weighted_sum<F: Field>(
    rows: Seq<Seq<F>>,
    scalars: Seq<F>,
    terms: nat,
    at: int,
) -> nat
    decreases terms,
{
    if terms == 0 {
        0
    } else {
        weighted_sum(rows, scalars, (terms - 1) as nat, at) + rows[terms - 1][at].value()
            * scalars[terms - 1].value()
    }
}

/// The number of terms of a linear combination: a row without a scalar, and a
/// scalar without a row, do not count.
pub open spec fn combined_terms(rows: nat, scalars: nat) -> nat {
    if rows <= scalars {
        rows
    } else {
        scalars
    }
}

/// Whether rows and scalars can be combined: there is one of each, the rows that
/// count have one length, and everything that counts is reduced.
pub open spec fn combinable<F: Field>(rows: Seq<Seq<F>>, scalars: Seq<F>) -> bool {
    let terms = combined_terms(rows.len(), scalars.len());
    &&& 0 < terms
    &&& forall|j: int| 0 <= j < terms ==> (#[trigger] rows[j]).len() == rows[0].len()
    &&& forall|j: int, i: int|
        0 <= j < terms && 0 <= i < rows[j].len() ==> (#[trigger] rows[j][i]).valid()
    &&& forall|j: int| 0 <= j < terms ==> (#[trigger] scalars[j]).valid()
}

/// Whether `values` are the linear combination of the first `terms` rows.
pub open spec fn combines<F: Field>(
    values: Seq<F>,
    rows: Seq<Seq<F>>,
    scalars: Seq<F>,
    terms: nat,
) -> bool {
    &&& values.len() == rows[0].len()
    &&& forall|i: int|
        0 <= i < values.len() ==> {
            &&& (#[trigger] values[i]).valid()
            &&& values[i].value() == weighted_sum(rows, scalars, terms, i) % F::modulus()
        }
}

/// The multiple of a row by a scalar.
fn scaled<F: Field>(row: &[F], scalar: F) -> (values: Vec<F>)
    requires
        scalar.valid(),
        forall|i: int| 0 <= i < row@.len() ==> (#[trigger] row@[i]).valid(),
    ensures
        values@.len() == row@.len(),
        forall|i: int|
            0 <= i < row@.len() ==> (#[trigger] values@[i]).valid() && values@[i].value() == (
            row@[i].value() * scalar.value()) % F::modulus(),
{
    let width: usize = row.len();
    let mut values: Vec<F> = Vec::with_capacity(width);
    for i in 0..width
        invariant
            width == row@.len(),
            scalar.valid(),
            forall|i: int| 0 <= i < row@.len() ==> (#[trigger] row@[i]).valid(),
            values@.len() == i,
            forall|k: int|
                0 <= k < i ==> (#[trigger] values@[k]).valid() && values@[k].value() == (
                row@[k].value() * scalar.value()) % F::modulus(),
    {
        values.push(row[i].times(scalar));
    }
    values
}

/// Adds the multiple of a row by a scalar to `values`.
fn add_scaled<F: Field>(values: &mut Vec<F>, row: &[F], scalar: F)
    requires
        scalar.valid(),
        row@.len() == old(values)@.len(),
        forall|i: int| 0 <= i < row@.len() ==> (#[trigger] row@[i]).valid(),
        forall|i: int| 0 <= i < row@.len() ==> (#[trigger] old(values)@[i]).valid(),
    ensures
        final(values)@.len() == row@.len(),
        forall|i: int|
            0 <= i < row@.len() ==> (#[trigger] final(values)@[i]).valid()
                && final(values)@[i].value() == (old(values)@[i].value() + row@[i].value()
                * scalar.value()) % F::modulus(),
{
    let ghost before = values@;
    let width: usize = row.len();
    for i in 0..width
        invariant
            width == row@.len(),
            width == before.len(),
            scalar.valid(),
            forall|i: int| 0 <= i < width ==> (#[trigger] row@[i]).valid(),
            forall|i: int| 0 <= i < width ==> (#[trigger] before[i]).valid(),
            values@.len() == width,
            forall|k: int|
                0 <= k < i ==> (#[trigger] values@[k]).valid() && values@[k].value() == (
                before[k].value() + row@[k].value() * scalar.value()) % F::modulus(),
            forall|k: int| i <= k < width ==> #[trigger] values@[k] == before[k],
    {
        assert(before[i as int].valid());
        let term = row[i].times(scalar);
        let sum = values[i].plus(term);
        proof {
            term.residues_are_reduced();
            lemma_add_mod_noop_right(
                before[i as int].value() as int,
                (row@[i as int].value() * scalar.value()) as int,
                F::modulus() as int,
            );
        }
        values[i] = sum;
    }
}

/// Computes a linear combination of read-only polynomials into one owned
/// result, which is the only polynomial that it allocates.
///
/// Each polynomial takes one scalar. Polynomials without a scalar do not count,
/// and scalars without a polynomial are not asked for.
pub fn polynomial_inner_product<F, B, I>(
    polys: &[PolynomialView<'_, F, B>],
    scalars: I,
) -> (combination: Polynomial<F, B>) where F: Field, I: Iterator<Item = F>
    requires
        vstd::std_specs::iter::IteratorSpec::obeys_prophetic_iter_laws(&scalars),
        combinable(
            rows_of(polys@),
            vstd::std_specs::iter::IteratorSpec::remaining(&scalars),
        ),
    ensures
        combines(
            combination.coeffs(),
            rows_of(polys@),
            vstd::std_specs::iter::IteratorSpec::remaining(&scalars),
            combined_terms(
                polys@.len(),
                vstd::std_specs::iter::IteratorSpec::remaining(&scalars).len(),
            ),
        ),
{
    let ghost rows = rows_of(polys@);
    let ghost weights = vstd::std_specs::iter::IteratorSpec::remaining(&scalars);
    let ghost terms = combined_terms(rows.len(), weights.len());
    let mut iter = scalars;
    let first = polys[0];
    let first_scalar = iter.next().unwrap();
    proof {
        assert(first.coeffs() == rows[0]);
        assert(forall|i: int| 0 <= i < rows[0].len() ==> (#[trigger] rows[0][i]).valid());
        assert(weights[0].valid());
    }
    let mut values = scaled(first.values(), first_scalar);
    proof {
        reveal_with_fuel(weighted_sum, 2);
        assert(combines(values@, rows, weights, 1));
        assert(weights.drop_first() =~= weights.skip(1));
    }
    let n: usize = polys.len();
    let mut j: usize = 1;
    while j < n
        invariant_except_break
            1 <= j <= terms,
            combines(values@, rows, weights, j as nat),
        invariant
            n == polys@.len(),
            j <= n,
            rows == rows_of(polys@),
            terms == combined_terms(rows.len(), weights.len()),
            combinable(rows, weights),
            vstd::std_specs::iter::IteratorSpec::obeys_prophetic_iter_laws(&iter),
            vstd::std_specs::iter::IteratorSpec::remaining(&iter) == weights.skip(j as int),
        ensures
            combines(values@, rows, weights, terms),
        decreases n - j,
    {
        let scalar = match iter.next() {
            Some(scalar) => scalar,
            None => {
                break;
            },
        };
        let poly = polys[j];
        proof {
            assert(poly.coeffs() == rows[j as int]);
            assert(rows[j as int].len() == rows[0].len());
            assert(forall|i: int|
                0 <= i < rows[j as int].len() ==> (#[trigger] rows[j as int][i]).valid());
            assert(weights[j as int].valid());
        }
        let ghost before = values@;
        add_scaled(&mut values, poly.values(), scalar);
        proof {
            assert forall|i: int| 0 <= i < values@.len() implies (#[trigger] values@[i]).value()
                == weighted_sum(rows, weights, (j + 1) as nat, i) % F::modulus() by {
                assert(before[i].valid());
                scalar.residues_are_reduced();
                lemma_add_mod_noop_right(
                    (rows[j as int][i].value() * scalar.value()) as int,
                    weighted_sum(rows, weights, j as nat, i) as int,
                    F::modulus() as int,
                );
            }
            assert(weights.skip(j as int).drop_first() =~= weights.skip(j + 1));
        }
        j = j + 1;
    }
    Polynomial::new(values)
}

/// The rows of a batch are the values of its polynomials, one for one.
pub proof fn law_rows_are_the_values<F, P: PolynomialRead<F>>(polys: Seq<P>)
    ensures
        rows_of(polys).len() == polys.len(),
        forall|i: int| 0 <= i < polys.len() ==> #[trigger] rows_of(polys)[i] == polys[i].coeffs(),
{
}

/// A weighted sum over rows is the sum of its terms.
proof fn lemma_weighted_sum_is_a_sum<F: Field>(
    rows: Seq<Seq<F>>,
    scalars: Seq<F>,
    terms: nat,
    at: int,
)
    ensures
        weighted_sum(rows, scalars, terms, at) == Seq::new(
            terms,
            |j: int| (rows[j][at].value() * scalars[j].value()) as int,
        ).fold_left(0int, |sum: int, term: int| sum + term),
    decreases terms,
{
    let products = Seq::new(terms, |j: int| (rows[j][at].value() * scalars[j].value()) as int);
    if terms > 0 {
        lemma_weighted_sum_is_a_sum(rows, scalars, (terms - 1) as nat, at);
        assert(products.drop_last() =~= Seq::new(
            (terms - 1) as nat,
            |j: int| (rows[j][at].value() * scalars[j].value()) as int,
        ));
    }
}

/// Polynomials of one length, with at least one scalar for at least one of them, can
/// be combined if everything that takes part is reduced.
pub proof fn law_polynomials_of_one_length_can_be_combined<F, B, I>(
    polys: &[PolynomialView<'_, F, B>],
    scalars: I,
    weights: Seq<F>,
) where F: Field, I: Iterator<Item = F>
    requires
        vstd::std_specs::iter::IteratorSpec::obeys_prophetic_iter_laws(&scalars),
        weights == vstd::std_specs::iter::IteratorSpec::remaining(&scalars),
        0 < polys@.len() && 0 < weights.len(),
        forall|j: int|
            0 <= j < polys@.len() ==> (#[trigger] polys@[j]).coeffs().len()
                == polys@[0].coeffs().len(),
        forall|j: int, i: int|
            0 <= j < polys@.len() && 0 <= i < polys@[0].coeffs().len() ==> (
            #[trigger] polys@[j].coeffs()[i]).valid(),
        forall|j: int| 0 <= j < weights.len() ==> (#[trigger] weights[j]).valid(),
    ensures
        call_requires(polynomial_inner_product::<F, B, I>, (polys, scalars)),
{
    let rows = rows_of(polys@);
    assert forall|j: int| 0 <= j < rows.len() implies (#[trigger] rows[j]).len()
        == rows[0].len() by {
        assert(polys@[j].coeffs().len() == polys@[0].coeffs().len());
    }
    assert forall|j: int, i: int| 0 <= j < rows.len() && 0 <= i < rows[j].len() implies (
    #[trigger] rows[j][i]).valid() by {
        assert(polys@[j].coeffs().len() == polys@[0].coeffs().len());
        assert(polys@[j].coeffs()[i].valid());
    }
}

/// With as many scalars as polynomials every polynomial counts: each value of the
/// combination is the sum of all the products, reduced.
pub proof fn law_every_polynomial_counts<F, B, I>(
    polys: &[PolynomialView<'_, F, B>],
    scalars: I,
    weights: Seq<F>,
    combination: Polynomial<F, B>,
    at: int,
) where F: Field, I: Iterator<Item = F>
    requires
        call_ensures(polynomial_inner_product::<F, B, I>, (polys, scalars), combination),
        weights == vstd::std_specs::iter::IteratorSpec::remaining(&scalars),
        0 < polys@.len() == weights.len(),
        0 <= at < polys@[0].coeffs().len(),
    ensures
        combination.values@.len() == polys@[0].coeffs().len(),
        combination.values@[at].valid(),
        combination.values@[at].value() == Seq::new(
            polys@.len(),
            |j: int| (polys@[j].coeffs()[at].value() * weights[j].value()) as int,
        ).fold_left(0int, |sum: int, term: int| sum + term) % (F::modulus() as int),
{
    let rows = rows_of(polys@);
    lemma_weighted_sum_is_a_sum(rows, weights, polys@.len(), at);
    assert(Seq::new(polys@.len(), |j: int| (rows[j][at].value() * weights[j].value()) as int)
        =~= Seq::new(
        polys@.len(),
        |j: int| (polys@[j].coeffs()[at].value() * weights[j].value()) as int,
    ));
    assert(combination.coeffs()[at].valid());
}

/// One more polynomial with one more scalar adds its multiple to each value, however
/// many there are already.
pub proof fn law_one_more_polynomial_adds_its_multiple<F, B, I>(
    polys: &[PolynomialView<'_, F, B>],
    scalars: I,
    weights: Seq<F>,
    combination: Polynomial<F, B>,
    longer: &[PolynomialView<'_, F, B>],
    more_scalars: I,
    poly: PolynomialView<'_, F, B>,
    scalar: F,
    extended: Polynomial<F, B>,
    at: int,
) where F: Field, I: Iterator<Item = F>
    requires
        call_ensures(polynomial_inner_product::<F, B, I>, (polys, scalars), combination),
        call_ensures(polynomial_inner_product::<F, B, I>, (longer, more_scalars), extended),
        weights == vstd::std_specs::iter::IteratorSpec::remaining(&scalars),
        weights.push(scalar) == vstd::std_specs::iter::IteratorSpec::remaining(&more_scalars),
        longer@ == polys@.push(poly),
        0 < polys@.len() == weights.len(),
        0 <= at < polys@[0].coeffs().len(),
    ensures
        extended.values@.len() == combination.values@.len(),
        extended.values@[at].value() == (combination.values@[at].value() + poly.coeffs()[at].value()
            * scalar.value()) % F::modulus(),
{
    let n = polys@.len();
    let rows = rows_of(polys@);
    let more_rows = rows_of(longer@);
    lemma_weighted_sum_is_a_sum(rows, weights, n, at);
    lemma_weighted_sum_is_a_sum(more_rows, weights.push(scalar), n, at);
    assert(Seq::new(n, |j: int| (rows[j][at].value() * weights[j].value()) as int) =~= Seq::new(
        n,
        |j: int| (more_rows[j][at].value() * weights.push(scalar)[j].value()) as int,
    ));
    assert(longer@[0] == polys@[0]);
    assert(combination.coeffs()[at].valid());
    assert(extended.coeffs()[at].valid());
    scalar.residues_are_reduced();
    lemma_add_mod_noop_right(
        (poly.coeffs()[at].value() * scalar.value()) as int,
        weighted_sum(rows, weights, n, at) as int,
        F::modulus() as int,
    );
}

/// A polynomial without a scalar does not count, and neither does a scalar without a
/// polynomial: two combinations of the same pairs are the same, whatever else there
/// is.
pub proof fn law_only_pairs_count<F, B, I, J>(
    polys: &[PolynomialView<'_, F, B>],
    scalars: I,
    weights: Seq<F>,
    combination: Polynomial<F, B>,
    others: &[PolynomialView<'_, F, B>],
    other_scalars: J,
    other_weights: Seq<F>,
    other: Polynomial<F, B>,
    pairs: nat,
    at: int,
) where F: Field, I: Iterator<Item = F>, J: Iterator<Item = F>
    requires
        call_ensures(polynomial_inner_product::<F, B, I>, (polys, scalars), combination),
        call_ensures(polynomial_inner_product::<F, B, J>, (others, other_scalars), other),
        weights == vstd::std_specs::iter::IteratorSpec::remaining(&scalars),
        other_weights == vstd::std_specs::iter::IteratorSpec::remaining(&other_scalars),
        0 < pairs <= polys@.len() && pairs <= weights.len(),
        pairs == polys@.len() || pairs == weights.len(),
        0 < pairs <= others@.len() && pairs <= other_weights.len(),
        pairs == others@.len() || pairs == other_weights.len(),
        polys@.take(pairs as int) == others@.take(pairs as int),
        weights.take(pairs as int) == other_weights.take(pairs as int),
        0 <= at < polys@[0].coeffs().len(),
    ensures
        combination.values@.len() == other.values@.len(),
        combination.values@[at].value() == other.values@[at].value(),
{
    let rows = rows_of(polys@);
    let other_rows = rows_of(others@);
    lemma_weighted_sum_is_a_sum(rows, weights, pairs, at);
    lemma_weighted_sum_is_a_sum(other_rows, other_weights, pairs, at);
    assert forall|j: int| 0 <= j < pairs implies rows[j] == other_rows[j] && weights[j]
        == other_weights[j] by {
        assert(polys@.take(pairs as int)[j] == polys@[j]);
        assert(others@.take(pairs as int)[j] == others@[j]);
        assert(weights.take(pairs as int)[j] == weights[j]);
        assert(other_weights.take(pairs as int)[j] == other_weights[j]);
    }
    assert(Seq::new(pairs, |j: int| (rows[j][at].value() * weights[j].value()) as int)
        =~= Seq::new(pairs, |j: int| (other_rows[j][at].value() * other_weights[j].value()) as int));
    assert(rows[0] == other_rows[0]);
    assert(combination.coeffs()[at].valid());
    assert(other.coeffs()[at].valid());
}

/// A polynomial is all the values that it is made of, and so is a view of it.
pub proof fn law_a_polynomial_is_all_its_values<F, B>(
    values: Vec<F>,
    poly: Polynomial<F, B>,
    borrowed: &[F],
    view: PolynomialView<'_, F, B>,
    poly_values: &[F],
    view_values: &[F],
)
    requires
        call_ensures(Polynomial::<F, B>::new, (values,), poly),
        call_ensures(PolynomialView::<F, B>::new, (borrowed,), view),
        call_ensures(<Polynomial<F, B> as PolynomialRead<F>>::values, (&poly,), poly_values),
        call_ensures(
            <PolynomialView<'_, F, B> as PolynomialRead<F>>::values,
            (&view,),
            view_values,
        ),
    ensures
        poly.coeffs() == values@,
        poly_values@ == values@,
        view.coeffs() == borrowed@,
        view_values@ == borrowed@,
{
}

} // verus!
