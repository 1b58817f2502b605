//! Storage for the bases of a structured reference string.
//!
//! [`BasesStorage`] holds a basis in a vector or views it in a mapped file. Both
//! dereference to a slice.
use std::ops::Deref;
use std::sync::Arc;

use vstd::prelude::*;
use vstd::std_specs::cmp::{PartialEqSpec, PartialEqSpecImpl};

use super::sealed::Sealed;
use crate::poly::view::clone_values;
use crate::store::{share, MappedStore};
use crate::text::{decimal, decimal_text};

verus! {

/// A point of BLS12-381's first group, in projective coordinates.
///
/// This is `midnight_curves::G1Projective`. Nothing is claimed of it.
#[verifier::external_type_specification]
#[verifier::external_body]
pub struct ExG1Projective(midnight_curves::G1Projective);

/// Types that may be read and written as plain bytes.
///
/// Every bit pattern must be a value, and no byte may be padding. The trait is
/// sealed, so that only this crate can add a type, after checking its layout.
pub trait PlainBytes: Sealed + Copy + 'static {

}

impl Sealed for midnight_curves::G1Projective {

}

/// Three coordinates of six 64-bit limbs each, without padding.
impl PlainBytes for midnight_curves::G1Projective {

}

/// Storage of a basis.
pub struct BasesStorage<C, M: MappedStore<C>> {
    backing: Backing<C, M>,
}

enum Backing<C, M: MappedStore<C>> {
    /// On the heap.
    Owned(Vec<C>),
    /// A run of the elements of a mapped file, which the handle keeps open.
    Mapped {
        mmap: Arc<M>,
        offset: usize,
        len: usize,
        _marker: std::marker::PhantomData<C>,
    },
}

impl<C, M: MappedStore<C>> BasesStorage<C, M> {
    /// A mapped run lies inside the file.
    #[verifier::type_invariant]
    spec fn in_bounds(self) -> bool {
        match self.backing {
            Backing::Owned(_) => true,
            Backing::Mapped { mmap, offset, len, _marker: _ } => offset + len
                <= mmap.slots().len(),
        }
    }

    /// The elements of the basis.
    pub closed spec fn elements(&self) -> Seq<C> {
        match self.backing {
            Backing::Owned(v) => v@,
            Backing::Mapped { mmap, offset, len, _marker: _ } => mmap.slots().subrange(
                offset as int,
                offset + len,
            ),
        }
    }

    /// Whether the basis is in a mapped file.
    pub closed spec fn spec_is_mapped(&self) -> bool {
        self.backing is Mapped
    }

    /// A basis that owns its elements.
    pub fn owned(v: Vec<C>) -> (storage: Self)
        ensures
            storage.elements() == v@,
            !storage.spec_is_mapped(),
    {
        BasesStorage { backing: Backing::Owned(v) }
    }

    /// A basis that is a run of the elements of a mapped file.
    pub fn mapped(mmap: Arc<M>, offset: usize, len: usize) -> (storage: Self)
        requires
            offset + len <= mmap.slots().len(),
        ensures
            storage.elements() == mmap.slots().subrange(offset as int, offset + len),
            storage.spec_is_mapped(),
    {
        BasesStorage {
            backing: Backing::Mapped { mmap, offset, len, _marker: std::marker::PhantomData },
        }
    }

    /// Whether the basis is in a mapped file.
    pub fn is_mapped(&self) -> (mapped: bool)
        ensures
            mapped == self.spec_is_mapped(),
    {
        match &self.backing {
            Backing::Owned(_) => false,
            Backing::Mapped { .. } => true,
        }
    }

    /// A short description, which does not touch the elements: how the basis is
    /// stored, and how long it is.
    pub fn summary(&self) -> (text: String)
        ensures
            text@ == if self.spec_is_mapped() {
                "BasesStorage { kind: \"Mapped\", len: "@
            } else {
                "BasesStorage { kind: \"Owned\", len: "@
            } + decimal(self.elements().len()) + " }"@,
    {
        let mut text = if self.is_mapped() {
            "BasesStorage { kind: \"Mapped\", len: ".to_owned()
        } else {
            "BasesStorage { kind: \"Owned\", len: ".to_owned()
        };
        let len: usize = self.as_elements().len();
        text.append(decimal_text(len as u64).as_str());
        text.append(" }");
        text
    }

    /// The elements of the basis.
    fn as_elements(&self) -> (elements: &[C])
        ensures
            elements@ == self.elements(),
    {
        proof {
            use_type_invariant(self);
        }
        match &self.backing {
            Backing::Owned(v) => v.as_slice(),
            Backing::Mapped { mmap, offset, len, _marker: _ } => {
                let elements = mmap.elems();
                assert(elements.len() == mmap.slots().len());
                &elements[*offset..*offset + *len]
            },
        }
    }

    /// Shortens the basis to `n` elements. A mapped basis is copied to the heap,
    /// since a file that is mapped for reading cannot be changed.
    ///
    /// An owned basis that is no longer than that stays as it is.
    pub fn truncate_into_owned(&mut self, n: usize) where C: Clone
        requires
            old(self).spec_is_mapped() ==> n <= old(self).elements().len(),
        ensures
            !final(self).spec_is_mapped(),
            !old(self).spec_is_mapped() ==> final(self).elements() == if n <= old(
                self,
            ).elements().len() {
                old(self).elements().take(n as int)
            } else {
                old(self).elements()
            },
            old(self).spec_is_mapped() ==> final(self).elements().len() == n && forall|i: int|
                0 <= i < n ==> cloned(
                    old(self).elements()[i],
                    #[trigger] final(self).elements()[i],
                ),
    {
        let mut storage = Self::owned(Vec::new());
        std::mem::swap(self, &mut storage);
        proof {
            use_type_invariant(&storage);
        }
        let elements = match storage.backing {
            Backing::Owned(v) => {
                let mut v = v;
                let ghost before = v@;
                v.truncate(n);
                assert(n <= before.len() ==> v@ =~= before.take(n as int));
                v
            },
            Backing::Mapped { mmap, offset, len: _, _marker: _ } => {
                let elements = mmap.elems();
                assert(elements.len() == mmap.slots().len());
                clone_values(&elements[offset..offset + n])
            },
        };
        *self = Self::owned(elements);
    }
}

impl<C, M: MappedStore<C>> Deref for BasesStorage<C, M> {
    type Target = [C];

    fn deref(&self) -> (elements: &[C])
        ensures
            elements@ == self.elements(),
    {
        self.as_elements()
    }
}

impl<C: Clone, M: MappedStore<C>> Clone for BasesStorage<C, M> {
    /// A mapped basis is shared and not copied.
    fn clone(&self) -> (copy: Self)
        ensures
            copy.spec_is_mapped() == self.spec_is_mapped(),
            self.spec_is_mapped() ==> copy.elements() == self.elements(),
            copy.elements().len() == self.elements().len(),
            forall|i: int|
                !self.spec_is_mapped() && 0 <= i < self.elements().len() ==> cloned(
                    self.elements()[i],
                    #[trigger] copy.elements()[i],
                ),
    {
        proof {
            use_type_invariant(self);
        }
        match &self.backing {
            Backing::Owned(v) => BasesStorage {
                backing: Backing::Owned(clone_values(v.as_slice())),
            },
            Backing::Mapped { mmap, offset, len, _marker: _ } => BasesStorage {
                backing: Backing::Mapped {
                    mmap: share(mmap),
                    offset: *offset,
                    len: *len,
                    _marker: std::marker::PhantomData,
                },
            },
        }
    }
}

impl<C: PartialEq, M: MappedStore<C>> PartialEq for BasesStorage<C, M> {
    /// Compares the elements; where they live does not matter.
    fn eq(&self, other: &Self) -> (equal: bool) {
        let mine = self.as_elements();
        let theirs = other.as_elements();
        let n: usize = mine.len();
        if n != theirs.len() {
            return false;
        }
        for i in 0..n
            invariant
                n == mine@.len(),
                n == theirs@.len(),
                mine@ == self.elements(),
                theirs@ == other.elements(),
                C::obeys_eq_spec() ==> forall|j: int|
                    0 <= j < i ==> (#[trigger] mine@[j]).eq_spec(&theirs@[j]),
        {
            if mine[i] != theirs[i] {
                return false;
            }
        }
        true
    }
}

impl<C: PartialEq, M: MappedStore<C>> PartialEqSpecImpl for BasesStorage<C, M> {
    open spec fn obeys_eq_spec() -> bool {
        C::obeys_eq_spec()
    }

    open spec fn eq_spec(&self, other: &Self) -> bool {
        &&& self.elements().len() == other.elements().len()
        &&& forall|i: int|
            0 <= i < self.elements().len() ==> (#[trigger] self.elements()[i]).eq_spec(
                &other.elements()[i],
            )
    }
}

impl<C: Eq, M: MappedStore<C>> Eq for BasesStorage<C, M> {

}

/// Two bases are equal exactly when they hold the same elements, however many these are
/// and wherever they live, provided that the elements' own equality means that.
pub proof fn law_equal_bases_hold_the_same_elements<C: PartialEq, M: MappedStore<C>>(
    one: BasesStorage<C, M>,
    other: BasesStorage<C, M>,
    equal: bool,
)
    requires
        C::obeys_eq_spec(),
        forall|a: C, b: C| #[trigger] a.eq_spec(&b) == (a == b),
        call_ensures(BasesStorage::<C, M>::eq, (&one, &other), equal),
    ensures
        equal == (one.elements() == other.elements()),
{
    if equal {
        assert forall|i: int| 0 <= i < one.elements().len() implies one.elements()[i]
            == other.elements()[i] by {
            assert(one.elements()[i].eq_spec(&other.elements()[i]));
        }
        assert(one.elements() =~= other.elements());
    }
}

/// A basis that is stored on the heap or viewed in a file hands out the elements that it
/// was made of, and knows which of the two it is.
pub proof fn law_a_basis_is_what_it_was_made_of<C, M: MappedStore<C>>(
    v: Vec<C>,
    owned: BasesStorage<C, M>,
    mmap: Arc<M>,
    offset: usize,
    len: usize,
    mapped: BasesStorage<C, M>,
    owned_says: bool,
    mapped_says: bool,
)
    requires
        offset + len <= mmap.slots().len(),
        call_ensures(BasesStorage::<C, M>::owned, (v,), owned),
        call_ensures(BasesStorage::<C, M>::mapped, (mmap, offset, len), mapped),
        call_ensures(BasesStorage::<C, M>::is_mapped, (&owned,), owned_says),
        call_ensures(BasesStorage::<C, M>::is_mapped, (&mapped,), mapped_says),
    ensures
        owned.elements() == v@,
        mapped.elements().len() == len,
        forall|i: int|
            0 <= i < len ==> #[trigger] mapped.elements()[i] == mmap.slots()[offset + i],
        !owned_says,
        mapped_says,
{
}

} // verus!
