//! Polynomial views and the storage of bases.
use std::sync::Arc;

use ff::Field as _;
use midnight_curves::serde::SerdeObject;
use midnight_curves::{Fq, G1Projective};
use midnight_proofs::curve::Scalar;
use midnight_proofs::poly::kzg::bases::{BasesStorage, PlainBytes};
use midnight_proofs::poly::view::{
    polynomial_inner_product, polynomial_views, PolynomialRead, PolynomialView,
};
use midnight_proofs::poly::{Coeff, Polynomial};

type Bases = BasesStorage<u32, Vec<u32>>;

fn scalar(v: Fq) -> Scalar {
    Scalar::new(v.to_raw_bytes().try_into().unwrap())
}

fn poly(values: &[u64]) -> Polynomial<Scalar, Coeff> {
    Polynomial::new(values.iter().map(|v| scalar(Fq::from(*v))).collect())
}

/// The linear combination, computed with the field's own arithmetic.
fn inner_product(polys: &[&[u64]], scalars: &[Fq]) -> Vec<Scalar> {
    (0..polys[0].len())
        .map(|i| {
            let mut sum = Fq::ZERO;
            for (p, s) in polys.iter().zip(scalars) {
                sum += Fq::from(p[i]) * s;
            }
            scalar(sum)
        })
        .collect()
}

#[test]
fn view_inner_product_matches_owned_polynomials() {
    let polys = vec![poly(&[1, 2, 3]), poly(&[4, 5, 6])];
    let scalars = [Fq::from(7), Fq::from(11)];
    let combined = polynomial_inner_product(
        &polynomial_views(&polys),
        scalars.iter().map(|s| scalar(*s)).collect::<Vec<_>>().into_iter(),
    );
    assert_eq!(combined.values, inner_product(&[&[1, 2, 3], &[4, 5, 6]], &scalars));
    assert_eq!(combined.values, poly(&[51, 69, 87]).values);
}

#[test]
fn an_inner_product_wraps_around_the_modulus() {
    let polys = vec![poly(&[2]), poly(&[3])];
    let scalars = [-Fq::ONE, Fq::ONE];
    let combined = polynomial_inner_product(
        &polynomial_views(&polys),
        scalars.iter().map(|s| scalar(*s)).collect::<Vec<_>>().into_iter(),
    );
    assert_eq!(combined.values, poly(&[1]).values);
}

#[test]
fn unmatched_terms_of_an_inner_product_do_not_count() {
    let polys = vec![poly(&[1, 2]), poly(&[9])];
    let one = vec![scalar(Fq::from(3))];
    let combined = polynomial_inner_product(&polynomial_views(&polys), one.into_iter());
    assert_eq!(combined.values, poly(&[3, 6]).values);

    let more = vec![scalar(Fq::from(3)), scalar(Fq::from(5))];
    let combined = polynomial_inner_product(&polynomial_views(&polys[..1]), more.into_iter());
    assert_eq!(combined.values, poly(&[3, 6]).values);
}

#[test]
fn a_view_reads_and_materialises_its_values() {
    let p = poly(&[1, 2, 3]);
    let view: PolynomialView<'_, Scalar, Coeff> = PolynomialView::new(p.values());
    let copy = view;
    assert_eq!(&view[..], p.values());
    assert_eq!(view.materialise().values, p.values);
    assert_eq!(PolynomialRead::<Scalar>::values(&copy), p.values());
    let views = polynomial_views(std::slice::from_ref(&p));
    assert_eq!(views.len(), 1);
    assert_eq!(views[0].len(), 3);
    assert_eq!(p.clone().values, p.values);
}

#[test]
fn owned_round_trips() {
    let bs: Bases = BasesStorage::owned(vec![1, 2, 3, 4]);
    assert_eq!(bs.len(), 4);
    assert_eq!(&*bs, &[1, 2, 3, 4]);
    assert!(!bs.is_mapped());
    assert_eq!(bs.summary(), "BasesStorage { kind: \"Owned\", len: 4 }");
}

#[test]
fn clone_preserves_data() {
    let bs: Bases = BasesStorage::owned(vec![10, 20, 30]);
    let cloned = bs.clone();
    assert_eq!(&*bs, &*cloned);
}

#[test]
fn truncate_into_owned_shortens() {
    let mut bs: Bases = BasesStorage::owned(vec![1, 2, 3, 4, 5]);
    bs.truncate_into_owned(3);
    assert_eq!(&*bs, &[1, 2, 3]);
    bs.truncate_into_owned(9);
    assert_eq!(&*bs, &[1, 2, 3]);
}

#[test]
fn equality_uses_slice() {
    let a: Bases = BasesStorage::owned(vec![1, 2, 3]);
    let b: Bases = BasesStorage::owned(vec![1, 2, 3]);
    let c: Bases = BasesStorage::owned(vec![1, 2, 4]);
    assert!(a == b);
    assert!(a != c);
    let longer: Bases = BasesStorage::owned(vec![1, 2, 3, 4]);
    assert!(a != longer);
    let mapped: Bases = BasesStorage::mapped(Arc::new(vec![0, 1, 2, 3]), 1, 3);
    assert!(a == mapped, "where the elements live does not matter");
}

#[test]
fn a_mapped_basis_is_a_run_of_its_file() {
    let file = Arc::new(vec![9, 1, 2, 3, 4, 9]);
    let mut bs: Bases = BasesStorage::mapped(file.clone(), 1, 4);
    assert!(bs.is_mapped());
    assert_eq!(&*bs, &[1, 2, 3, 4]);
    assert_eq!(bs.summary(), "BasesStorage { kind: \"Mapped\", len: 4 }");

    let shared = bs.clone();
    assert!(shared.is_mapped());
    assert_eq!(Arc::strong_count(&file), 3, "a clone shares the mapping");

    bs.truncate_into_owned(2);
    assert!(!bs.is_mapped());
    assert_eq!(&*bs, &[1, 2]);
    assert_eq!(&*shared, &[1, 2, 3, 4], "the other handle is untouched");
    assert_eq!(Arc::strong_count(&file), 2);
}

#[test]
fn points_in_projective_form_are_plain_bytes() {
    fn size<T: PlainBytes>() -> (usize, usize) {
        (std::mem::size_of::<T>(), std::mem::align_of::<T>())
    }
    // Three coordinates of six 64-bit limbs, and nothing else.
    assert_eq!(size::<G1Projective>(), (3 * 6 * 8, 8));
}
