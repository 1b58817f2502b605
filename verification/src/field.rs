//! Prime-field arithmetic as the rest of the crate sees it.
use vstd::prelude::*;

use crate::bytes::le_value;
use crate::encoding::ProcessedSerdeObject;

verus! {

/// An element of a prime field.
///
/// An element is *valid* when its representation is the reduced one. Every
/// operation takes valid elements and gives valid elements.
pub trait Field: Copy {
    /// The field's characteristic.
    spec fn modulus() -> nat;

    /// The residue that the element stands for.
    spec fn value(self) -> nat;

    /// Whether the element's representation is reduced.
    spec fn valid(self) -> bool;

    /// The characteristic is not zero, and a residue lies below it.
    proof fn residues_are_reduced(self)
        ensures
            0 < Self::modulus(),
            self.value() < Self::modulus(),
    ;

    /// The product of two elements.
    fn times(self, rhs: Self) -> (product: Self)
        requires
            self.valid(),
            rhs.valid(),
        ensures
            product.valid(),
            product.value() == (self.value() * rhs.value()) % Self::modulus(),
    ;

    /// The sum of two elements.
    fn plus(self, rhs: Self) -> (sum: Self)
        requires
            self.valid(),
            rhs.valid(),
        ensures
            sum.valid(),
            sum.value() == (self.value() + rhs.value()) % Self::modulus(),
    ;
}

/// A field whose elements are stored in keys.
pub trait KeyField: Field + ProcessedSerdeObject {
    /// The largest `s` for which the field has a root of unity of order `2^s`.
    spec fn spec_s() -> u32;

    /// An element is determined by its representation.
    proof fn representations_identify(self, other: Self)
        requires
            self.repr() == other.repr(),
        ensures
            self == other,
    ;

    /// Domain sizes fit in 64 bits, and their logarithms in a byte.
    proof fn domains_are_bounded()
        ensures
            Self::spec_s() < 64,
    ;

    /// The largest `s` for which the field has a root of unity of order `2^s`.
    fn s() -> (s: u32)
        ensures
            s == Self::spec_s(),
    ;

    /// The element that is congruent to a little-endian number.
    fn from_uniform_bytes(bytes: &[u8; 64]) -> (element: Self)
        ensures
            element.valid(),
            element.value() == le_value(bytes@) % Self::modulus(),
    ;
}

} // verus!
