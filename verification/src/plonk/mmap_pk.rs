//! Batches of polynomials that live in a mapped temporary file.
//!
//! [`spill_iter_to_disk`] moves polynomials into a mapping one at a time, makes
//! the mapping read-only and hands out typed views of it. The rows of a mapping
//! all have one length, so row `i` starts at element `i * n_per_poly` and no
//! header is needed.
use std::marker::PhantomData;

use vstd::prelude::*;

use crate::error::{ErrorKind, IoFailure, SpillError};
use crate::plonk::device::{
    create_outcome, lemma_steps_open, makes_tempfile, open_spill, opens, Mapping, Platform,
    Preallocation, SpillDevice, SpillTarget,
};
use crate::poly::view::{rows_of, PolynomialRead, PolynomialView};
use crate::poly::Polynomial;
use crate::store::{MappedStore, SpillStore};
use crate::text::{contains_text, decimal, decimal_text};

verus! {

/// One polynomial of a mapping: a run of its elements.
///
/// Positions are kept instead of addresses, so moving or cloning this value
/// cannot invalidate anything.
#[derive(Clone, Copy, Debug)]
pub struct MappedPolynomial {
    offset: usize,
    len: usize,
}

/// A read-only batch of polynomials in the basis `B`, backed by the store `M`.
pub struct MmappedPolys<F, B, M: MappedStore<F>> {
    store: Option<M>,
    polys: Vec<MappedPolynomial>,
    mmap_bytes: usize,
    _marker: PhantomData<(F, B)>,
}

impl<F, B, M: MappedStore<F>> MmappedPolys<F, B, M> {
    /// Every polynomial lies inside the mapping.
    #[verifier::type_invariant]
    spec fn in_bounds(self) -> bool {
        forall|i: int|
            0 <= i < self.polys@.len() ==> {
                let poly = #[trigger] self.polys@[i];
                self.store matches Some(store) && poly.offset + poly.len <= store.slots().len()
            }
    }

    /// The values of polynomial `i`.
    spec fn row(&self, i: int) -> Seq<F> {
        match self.store {
            Some(store) => store.slots().subrange(
                self.polys@[i].offset as int,
                self.polys@[i].offset + self.polys@[i].len,
            ),
            None => Seq::empty(),
        }
    }

    /// The values of each polynomial.
    pub closed spec fn rows(&self) -> Seq<Seq<F>> {
        Seq::new(self.polys@.len(), |i: int| self.row(i))
    }

    /// The size of the mapping.
    pub closed spec fn bytes(&self) -> usize {
        self.mmap_bytes
    }

    /// Borrows the batch in the representation that is also used for owned
    /// polynomials.
    pub fn views(&self) -> (views: Vec<PolynomialView<'_, F, B>>)
        ensures
            views@.len() == self.rows().len(),
            rows_of(views@) == self.rows(),
    {
        proof {
            use_type_invariant(self);
        }
        let n: usize = self.polys.len();
        let mut views: Vec<PolynomialView<'_, F, B>> = Vec::with_capacity(n);
        match &self.store {
            Some(store) => {
                let elems = store.elems();
                let count: usize = elems.len();
                for i in 0..n
                    invariant
                        count == elems@.len(),
                        n == self.polys@.len(),
                        self.in_bounds(),
                        self.store == Some(*store),
                        elems@ == store.slots(),
                        views@.len() == i,
                        forall|j: int|
                            0 <= j < i ==> (#[trigger] views@[j]).coeffs() == self.rows()[j],
                {
                    let poly = self.polys[i];
                    assert(self.polys@[i as int].offset + self.polys@[i as int].len
                        <= store.slots().len());
                    views.push(PolynomialView::new(&elems[poly.offset..poly.offset + poly.len]));
                }
            },
            None => {
                assert(n == 0) by {
                    if n > 0 {
                        let _ = self.polys@[0];
                    }
                }
            },
        }
        assert(rows_of(views@) =~= self.rows());
        views
    }

    /// Number of polynomials held.
    pub fn len(&self) -> (n: usize)
        ensures
            n == self.rows().len(),
    {
        self.polys.len()
    }

    /// Whether the batch is empty.
    pub fn is_empty(&self) -> (empty: bool)
        ensures
            empty == (self.rows().len() == 0),
    {
        self.polys.len() == 0
    }

    /// The size of the mapping in bytes.
    pub fn mmap_bytes(&self) -> (bytes: usize)
        ensures
            bytes == self.bytes(),
    {
        self.mmap_bytes
    }

    /// A short description, which does not touch the values: printing those would
    /// read the whole file.
    pub fn summary(&self) -> (text: String)
        ensures
            text@ == batch_summary(self.rows().len(), self.bytes() as nat),
    {
        let mut text = "MmappedPolys { n_polys: ".to_owned();
        text.append(decimal_text(self.polys.len() as u64).as_str());
        text.append(", mmap_bytes: ");
        text.append(decimal_text(self.mmap_bytes as u64).as_str());
        text.append(" }");
        text
    }

    /// The batch that holds nothing and maps nothing.
    fn empty() -> (polys: Self)
        ensures
            polys.rows() == Seq::<Seq<F>>::empty(),
            polys.bytes() == 0,
    {
        let polys = MmappedPolys {
            store: None,
            polys: Vec::new(),
            mmap_bytes: 0,
            _marker: PhantomData,
        };
        assert(polys.rows() =~= Seq::<Seq<F>>::empty());
        polys
    }
}

/// The description of a batch with this number of polynomials and bytes.
pub open spec fn batch_summary(n_polys: nat, mmap_bytes: nat) -> Seq<char> {
    "MmappedPolys { n_polys: "@ + decimal(n_polys) + ", mmap_bytes: "@ + decimal(mmap_bytes) + " }"@
}

/// Whether `slots` starts with `rows` one after the other, each `width` long.
pub open spec fn laid_out<F>(slots: Seq<F>, rows: Seq<Seq<F>>, width: nat) -> bool {
    &&& rows.len() * width <= slots.len()
    &&& forall|i: int| 0 <= i < rows.len() ==> (#[trigger] rows[i]).len() == width
    &&& forall|i: int, j: int|
        0 <= i < rows.len() && 0 <= j < width ==> slots[i * width + j] == #[trigger] rows[i][j]
}

/// The reason to reject the sizes of a spill, if there is one.
pub open spec fn plan_error(elem_size: nat, n_polys: nat, n_per_poly: nat) -> Option<SpillError> {
    if elem_size == 0 || n_per_poly == 0 {
        Some(SpillError::EmptyRows)
    } else if n_polys * n_per_poly > usize::MAX {
        Some(SpillError::ElementCountOverflow)
    } else if n_polys * n_per_poly * elem_size > usize::MAX {
        Some(SpillError::ByteCountOverflow)
    } else {
        None
    }
}

/// The number of bytes of a spill, from checked sizes.
pub fn spill_bytes(elem_size: usize, n_polys: usize, n_per_poly: usize) -> (total: Result<
    usize,
    SpillError,
>)
    ensures
        match plan_error(elem_size as nat, n_polys as nat, n_per_poly as nat) {
            Some(e) => total == Err::<usize, SpillError>(e),
            None => total matches Ok(bytes) && bytes == n_polys * n_per_poly * elem_size,
        },
{
    if elem_size == 0 || n_per_poly == 0 {
        return Err(SpillError::EmptyRows);
    }
    let total_elems: usize = match n_polys.checked_mul(n_per_poly) {
        Some(total) => total,
        None => return Err(SpillError::ElementCountOverflow),
    };
    match total_elems.checked_mul(elem_size) {
        Some(total) => Ok(total),
        None => Err(SpillError::ByteCountOverflow),
    }
}

/// The reason to reject a mapping, if there is one: it must have a slot for
/// each element, and start at a multiple of the element's alignment.
pub open spec fn mapping_error<F, M: SpillStore<F>>(
    mapping: Mapping<M>,
    align: nat,
    n_elems: nat,
) -> Option<SpillError> {
    if mapping.store.slots().len() != n_elems {
        Some(SpillError::MappingSize)
    } else if mapping.base as nat % align != 0 {
        Some(SpillError::Misaligned)
    } else {
        None
    }
}

/// The reason to reject the polynomial at position `index` of a spill, if there
/// is one.
pub open spec fn row_error(
    index: nat,
    len: nat,
    n_polys: usize,
    n_per_poly: usize,
) -> Option<SpillError> {
    if index >= n_polys {
        Some(SpillError::TooManyPolynomials)
    } else if len != n_per_poly {
        Some(SpillError::SizeMismatch { got: len as usize, expected: n_per_poly })
    } else {
        None
    }
}

/// The reason to reject the polynomials of a spill from position `from` on, if
/// there is one: the first polynomial that is out of place, or else that one is
/// missing.
pub open spec fn rows_error<F>(
    rows: Seq<Seq<F>>,
    from: nat,
    n_polys: usize,
    n_per_poly: usize,
) -> Option<SpillError>
    decreases rows.len() - from,
{
    if from >= rows.len() {
        if from != n_polys {
            Some(SpillError::TooFewPolynomials)
        } else {
            None
        }
    } else {
        match row_error(from, rows[from as int].len(), n_polys, n_per_poly) {
            Some(e) => Some(e),
            None => rows_error(rows, from + 1, n_polys, n_per_poly),
        }
    }
}

/// A spill that is being written: the polynomials that came so far lie in the
/// store, one after the other.
pub struct SpillWriter<F, M: SpillStore<F>> {
    store: M,
    n_polys: usize,
    n_per_poly: usize,
    written: usize,
    rows: Ghost<Seq<Seq<F>>>,
}

impl<F, M: SpillStore<F>> SpillWriter<F, M> {
    #[verifier::type_invariant]
    spec fn consistent(self) -> bool {
        &&& self.n_per_poly > 0
        &&& self.store.slots().len() == self.n_polys * self.n_per_poly
        &&& self.n_polys * self.n_per_poly <= usize::MAX
        &&& self.written <= self.n_polys
        &&& self.rows@.len() == self.written
        &&& laid_out(self.store.slots(), self.rows@, self.n_per_poly as nat)
    }

    /// The polynomials that were written.
    pub closed spec fn rows(&self) -> Seq<Seq<F>> {
        self.rows@
    }

    /// How many polynomials were promised.
    pub closed spec fn promised(&self) -> usize {
        self.n_polys
    }

    /// The length of each polynomial.
    pub closed spec fn width(&self) -> usize {
        self.n_per_poly
    }

    /// Starts a spill into a fresh mapping, after checking the mapping.
    pub fn start(mapping: Mapping<M>, n_polys: usize, n_per_poly: usize) -> (writer: Result<
        Self,
        SpillError,
    >)
        requires
            n_per_poly > 0,
            n_polys * n_per_poly <= usize::MAX,
        ensures
            match mapping_error(
                mapping,
                vstd::layout::align_of::<F>(),
                (n_polys * n_per_poly) as nat,
            ) {
                Some(e) => writer == Err::<Self, SpillError>(e),
                None => {
                    &&& writer matches Ok(w)
                    &&& w.rows() == Seq::<Seq<F>>::empty()
                    &&& w.promised() == n_polys
                    &&& w.width() == n_per_poly
                },
            },
    {
        if mapping.store.slot_count() != n_polys * n_per_poly {
            return Err(SpillError::MappingSize);
        }
        vstd::layout::layout_for_type_is_valid::<F>();
        let align: usize = std::mem::align_of::<F>();
        if mapping.base % align != 0 {
            return Err(SpillError::Misaligned);
        }
        Ok(
            SpillWriter {
                store: mapping.store,
                n_polys,
                n_per_poly,
                written: 0,
                rows: Ghost(Seq::empty()),
            },
        )
    }

    /// Moves one polynomial into the mapping. A polynomial beyond the promised
    /// count is rejected before anything is written, and so is one of another
    /// length.
    pub fn push(self, values: &[F]) -> (pushed: Result<Self, SpillError>) where F: Copy
        ensures
            match row_error(self.rows().len(), values@.len(), self.promised(), self.width()) {
                Some(e) => pushed == Err::<Self, SpillError>(e),
                None => {
                    &&& pushed matches Ok(w)
                    &&& w.rows() == self.rows().push(values@)
                    &&& w.promised() == self.promised()
                    &&& w.width() == self.width()
                },
            },
    {
        proof {
            use_type_invariant(&self);
        }
        if self.written >= self.n_polys {
            return Err(SpillError::TooManyPolynomials);
        }
        if values.len() != self.n_per_poly {
            return Err(SpillError::SizeMismatch { got: values.len(), expected: self.n_per_poly });
        }
        let n_polys: usize = self.n_polys;
        let width: usize = self.n_per_poly;
        let written: usize = self.written;
        let ghost rows = self.rows@;
        let mut store = self.store;
        let ghost before = store.slots();
        proof {
            lemma_row_fits(written as int, n_polys as int, width as int);
        }
        let start: usize = written * width;
        for index in 0..width
            invariant
                values@.len() == width,
                start == written * width,
                start + width <= before.len() <= usize::MAX,
                store.slots().len() == before.len(),
                forall|k: int| 0 <= k < start ==> store.slots()[k] == before[k],
                forall|k: int| 0 <= k < index ==> #[trigger] store.slots()[start + k] == values@[k],
        {
            let ghost earlier = store.slots();
            store.put(start + index, values[index]);
            assert forall|k: int| 0 <= k < index + 1 implies #[trigger] store.slots()[start + k]
                == values@[k] by {
                if k < index {
                    assert(earlier[start + k] == values@[k]);
                }
            }
        }
        let ghost after = rows.push(values@);
        let ghost w = width as nat;
        assert forall|i: int, j: int| 0 <= i < after.len() && 0 <= j < w implies store.slots()[i * w
            + j] == #[trigger] after[i][j] by {
            if i < written {
                lemma_row_fits(i, written as int, width as int);
                assert(rows[i][j] == after[i][j]);
                assert(before[i * w + j] == rows[i][j]);
            } else {
                assert(i * w == start);
                assert(store.slots()[start + j] == values@[j]);
            }
        }
        assert(after.len() * w <= store.slots().len()) by (nonlinear_arith)
            requires
                after.len() == written + 1,
                w == width,
                written * width + width <= store.slots().len(),
        ;
        assert(laid_out(store.slots(), after, w));
        Ok(
            SpillWriter {
                store,
                n_polys,
                n_per_poly: width,
                written: written + 1,
                rows: Ghost(after),
            },
        )
    }
}

impl<F, M: SpillStore<F>> SpillWriter<F, M> {
    /// Whether sealing a store that holds `rows` can end in `spilled`.
    pub open spec fn seals<B>(
        rows: Seq<Seq<F>>,
        n_per_poly: usize,
        spilled: Result<MmappedPolys<F, B, M>, SpillError>,
    ) -> bool {
        exists|filled: M, sealed: Result<M, IoFailure>|
            {
                &&& filled.slots().len() == rows.len() * n_per_poly
                &&& laid_out(filled.slots(), rows, n_per_poly as nat)
                &&& #[trigger] call_ensures(M::seal, (filled,), sealed)
                &&& match sealed {
                    Ok(_) => {
                        &&& spilled matches Ok(polys)
                        &&& polys.rows() == rows
                        &&& polys.bytes() == rows.len() * n_per_poly * vstd::layout::size_of::<F>()
                    },
                    Err(cause) => spilled matches Err(e) && e == SpillError::Io(cause),
                }
            }
    }

    /// Ends the spill: all the promised polynomials must have come. The mapping
    /// is written back and made read-only.
    pub fn finish<B>(self) -> (spilled: Result<MmappedPolys<F, B, M>, SpillError>)
        requires
            self.promised() * self.width() * vstd::layout::size_of::<F>() <= usize::MAX,
        ensures
            if self.rows().len() != self.promised() {
                spilled == Err::<MmappedPolys<F, B, M>, SpillError>(SpillError::TooFewPolynomials)
            } else {
                Self::seals(self.rows(), self.width(), spilled)
            },
    {
        proof {
            use_type_invariant(&self);
        }
        if self.written != self.n_polys {
            return Err(SpillError::TooFewPolynomials);
        }
        let n_polys: usize = self.n_polys;
        let width: usize = self.n_per_poly;
        let ghost rows = self.rows@;
        let filled = self.store;
        let ghost before = filled;
        let sealed = filled.seal();
        let store = match sealed {
            Ok(store) => store,
            Err(cause) => {
                let spilled = Err(SpillError::Io(cause));
                assert(Self::seals(rows, width, spilled));
                return spilled;
            },
        };
        let mut polys: Vec<MappedPolynomial> = Vec::with_capacity(n_polys);
        for index in 0..n_polys
            invariant
                store.slots().len() == n_polys * width,
                n_polys * width <= usize::MAX,
                polys@.len() == index,
                forall|i: int|
                    0 <= i < index ==> (#[trigger] polys@[i]).offset == i * width && polys@[i].len
                        == width,
        {
            proof {
                lemma_row_fits(index as int, n_polys as int, width as int);
            }
            polys.push(MappedPolynomial { offset: index * width, len: width });
        }
        proof {
            assert forall|i: int| 0 <= i < n_polys implies (#[trigger] polys@[i]).offset
                + polys@[i].len <= store.slots().len() by {
                lemma_row_fits(i, n_polys as int, width as int);
            }
        }
        let bytes: usize = n_polys * width * std::mem::size_of::<F>();
        let spilled = MmappedPolys {
            store: Some(store),
            polys,
            mmap_bytes: bytes,
            _marker: PhantomData,
        };
        proof {
            let w = width as nat;
            assert forall|i: int| 0 <= i < n_polys implies #[trigger] spilled.rows()[i]
                == rows[i] by {
                lemma_row_fits(i, n_polys as int, width as int);
                assert(spilled.rows()[i] =~= rows[i]) by {
                    assert forall|j: int| 0 <= j < w implies #[trigger] spilled.rows()[i][j]
                        == rows[i][j] by {
                        assert(store.slots()[i * w + j] == rows[i][j]);
                    }
                }
            }
            assert(spilled.rows() =~= rows);
            assert(Self::seals(rows, width, Ok(spilled)));
        }
        Ok(spilled)
    }
}

/// Row `i` of `n` rows of `width` elements ends within the first `n * width`.
proof fn lemma_row_fits(i: int, n: int, width: int)
    requires
        0 <= i < n,
        0 <= width,
    ensures
        0 <= i * width,
        i * width + width <= n * width,
{
    assert(0 <= i * width && i * width + width <= n * width) by (nonlinear_arith)
        requires
            0 <= i < n,
            0 <= width,
    ;
}

/// Whether filling `mapping` with `rows` can end in `spilled`.
pub open spec fn fills<F, B, M: SpillStore<F>>(
    mapping: Mapping<M>,
    rows: Seq<Seq<F>>,
    n_polys: usize,
    n_per_poly: usize,
    spilled: Result<MmappedPolys<F, B, M>, SpillError>,
) -> bool {
    match mapping_error(
        mapping,
        vstd::layout::align_of::<F>(),
        (n_polys * n_per_poly) as nat,
    ) {
        Some(e) => spilled == Err::<MmappedPolys<F, B, M>, SpillError>(e),
        None => match rows_error(rows, 0, n_polys, n_per_poly) {
            Some(e) => spilled == Err::<MmappedPolys<F, B, M>, SpillError>(e),
            None => SpillWriter::<F, M>::seals(rows, n_per_poly, spilled),
        },
    }
}

/// Whether filling what was opened with `rows` can end in `spilled`. Where
/// nothing was mapped there is nothing to hold, and no polynomial may come.
pub open spec fn fills_opened<F, B, M: SpillStore<F>>(
    opened: Option<Mapping<M>>,
    rows: Seq<Seq<F>>,
    n_polys: usize,
    n_per_poly: usize,
    spilled: Result<MmappedPolys<F, B, M>, SpillError>,
) -> bool {
    match opened {
        Some(mapping) => fills(mapping, rows, n_polys, n_per_poly, spilled),
        None => match rows_error(rows, 0, n_polys, n_per_poly) {
            Some(e) => spilled == Err::<MmappedPolys<F, B, M>, SpillError>(e),
            None => {
                &&& spilled matches Ok(polys)
                &&& polys.rows() == Seq::<Seq<F>>::empty()
                &&& polys.bytes() == 0
            },
        },
    }
}

/// Whether spilling `rows` to `target` can end in `spilled`.
///
/// Bad sizes are rejected before the device is used at all. A batch that is
/// promised to be empty needs a file but no mapping. In any case the polynomials
/// must be as many and as long as was promised, and then the batch holds
/// exactly them.
pub open spec fn spills<F, B, D: SpillDevice<F>>(
    target: SpillTarget<'_, D>,
    rows: Seq<Seq<F>>,
    n_polys: usize,
    n_per_poly: usize,
    spilled: Result<MmappedPolys<F, B, D::Store>, SpillError>,
) -> bool {
    match plan_error(vstd::layout::size_of::<F>(), n_polys as nat, n_per_poly as nat) {
        Some(e) => spilled == Err::<MmappedPolys<F, B, D::Store>, SpillError>(e),
        None => exists|opened: Result<Option<Mapping<D::Store>>, SpillError>|
            {
                &&& #[trigger] opens::<F, D>(
                    target,
                    (n_polys * n_per_poly * vstd::layout::size_of::<F>()) as usize,
                    opened,
                )
                &&& match opened {
                    Err(e) => spilled == Err::<MmappedPolys<F, B, D::Store>, SpillError>(e),
                    Ok(opened) => fills_opened(opened, rows, n_polys, n_per_poly, spilled),
                }
            },
    }
}

/// Opens a spill of checked sizes, up to the point where polynomials can be
/// written to it. A spill of no bytes has nothing to write to.
fn begin_spill<F, D: SpillDevice<F>>(
    target: &SpillTarget<'_, D>,
    n_polys: usize,
    n_per_poly: usize,
) -> (begun: Result<Option<Mapping<D::Store>>, SpillError>)
    ensures
        match plan_error(vstd::layout::size_of::<F>(), n_polys as nat, n_per_poly as nat) {
            Some(e) => begun == Err::<Option<Mapping<D::Store>>, SpillError>(e),
            None => opens::<F, D>(
                *target,
                (n_polys * n_per_poly * vstd::layout::size_of::<F>()) as usize,
                begun,
            ),
        },
{
    let total_bytes: usize = match spill_bytes(std::mem::size_of::<F>(), n_polys, n_per_poly) {
        Ok(total) => total,
        Err(e) => return Err(e),
    };
    open_spill(target, total_bytes)
}

/// Moves each polynomial into a mapped temporary file, makes the mapping
/// read-only, and returns typed views over it.
///
/// The iterator must yield exactly `n_polys` polynomials of `n_per_poly` values
/// each. Both are checked, the first one before anything is written beyond the
/// end. One polynomial at a time is held: each is dropped when its values have
/// been copied.
pub fn spill_iter_to_disk<F, B, I, D>(
    target: &SpillTarget<'_, D>,
    polys: I,
    n_polys: usize,
    n_per_poly: usize,
) -> (spilled: Result<MmappedPolys<F, B, D::Store>, SpillError>) where
    F: Copy,
    I: Iterator<Item = Polynomial<F, B>>,
    D: SpillDevice<F>,

    requires
        vstd::std_specs::iter::IteratorSpec::obeys_prophetic_iter_laws(&polys),
        vstd::std_specs::iter::IteratorSpec::decrease(&polys) is Some,
    ensures
        spills(
            *target,
            rows_of(vstd::std_specs::iter::IteratorSpec::remaining(&polys)),
            n_polys,
            n_per_poly,
            spilled,
        ),
{
    let mut iter = polys;
    let ghost items = vstd::std_specs::iter::IteratorSpec::remaining(&polys);
    let ghost rows = rows_of(items);
    let begun = begin_spill(target, n_polys, n_per_poly);
    let mapping = match begun {
        Ok(Some(mapping)) => mapping,
        Ok(None) => {
            proof {
                if n_polys > 0 {
                    lemma_product_is_positive(
                        n_polys as nat,
                        n_per_poly as nat,
                        vstd::layout::size_of::<F>(),
                    );
                }
            }
            // Nothing was promised, so nothing may come.
            return match iter.next() {
                Some(_) => Err(SpillError::TooManyPolynomials),
                None => Ok(MmappedPolys::empty()),
            };
        },
        Err(e) => return Err(e),
    };
    let mut writer = match SpillWriter::start(mapping, n_polys, n_per_poly) {
        Ok(writer) => writer,
        Err(e) => return Err(e),
    };
    let ghost mut done: int = 0;
    assert(rows.take(0) =~= Seq::empty());
    assert(items.skip(0) =~= items);
    loop
        invariant
            rows == rows_of(items),
            0 <= done <= items.len(),
            writer.rows() == rows.take(done),
            writer.promised() == n_polys,
            writer.width() == n_per_poly,
            rows_error(rows, done as nat, n_polys, n_per_poly) == rows_error(
                rows,
                0,
                n_polys,
                n_per_poly,
            ),
            items == vstd::std_specs::iter::IteratorSpec::remaining(&polys),
            vstd::std_specs::iter::IteratorSpec::obeys_prophetic_iter_laws(&iter),
            vstd::std_specs::iter::IteratorSpec::decrease(&iter) is Some,
            vstd::std_specs::iter::IteratorSpec::remaining(&iter) == items.skip(done),
            mapping_error(
                mapping,
                vstd::layout::align_of::<F>(),
                (n_polys * n_per_poly) as nat,
            ) is None,
            plan_error(vstd::layout::size_of::<F>(), n_polys as nat, n_per_poly as nat) is None,
            opens::<F, D>(
                *target,
                (n_polys * n_per_poly * vstd::layout::size_of::<F>()) as usize,
                Ok(Some(mapping)),
            ),
        ensures
            done == items.len(),
        decreases vstd::std_specs::iter::IteratorSpec::decrease(&iter)->0,
    {
        let next = iter.next();
        let poly = match next {
            Some(poly) => poly,
            None => {
                break;
            },
        };
        assert(poly == items[done]);
        assert(poly.coeffs() == rows[done]);
        writer = match writer.push(poly.values()) {
            Ok(writer) => writer,
            Err(e) => return Err(e),
        };
        proof {
            assert(rows.take(done).push(rows[done]) =~= rows.take(done + 1));
            assert(items.skip(done).drop_first() =~= items.skip(done + 1));
            done = done + 1;
        }
    }
    assert(rows.take(done) =~= rows);
    writer.finish()
}

/// Spills a vector of polynomials, which it consumes.
pub fn spill_vec_to_disk<F, B, D>(
    target: &SpillTarget<'_, D>,
    polys: Vec<Polynomial<F, B>>,
    n_per_poly: usize,
) -> (spilled: Result<MmappedPolys<F, B, D::Store>, SpillError>) where
    F: Copy,
    D: SpillDevice<F>,

    ensures
        spills(
            *target,
            rows_of(polys@),
            polys@.len() as usize,
            n_per_poly,
            spilled,
        ),
{
    let n_polys: usize = polys.len();
    spill_iter_to_disk(target, polys.into_iter(), n_polys, n_per_poly)
}

/// Whether `transform` can send a polynomial with values `input` to one with
/// values `output`.
pub open spec fn sends<F, In, Out, T>(transform: T, input: Seq<F>, output: Seq<F>) -> bool where
    T: for<'a>Fn(PolynomialView<'a, F, In>) -> Polynomial<F, Out>,
 {
    exists|view: PolynomialView<'_, F, In>, poly: Polynomial<F, Out>|
        {
            &&& view.coeffs() == input
            &&& poly.coeffs() == output
            &&& #[trigger] call_ensures(transform, (view,), poly)
        }
}

/// Rows that stand for a batch of `n` of which only `rows` were computed: the
/// missing ones count as the first one.
pub open spec fn padded<F>(rows: Seq<Seq<F>>, n: nat) -> Seq<Seq<F>> {
    Seq::new(
        n,
        |i: int|
            if i < rows.len() {
                rows[i]
            } else {
                rows[0]
            },
    )
}

/// Whether spilling the transformed `inputs` can end in `spilled`, when
/// `computed` are the outputs that were computed before it ended.
///
/// The first output gives the row length. Outputs are computed in order, and
/// all of them if the spill succeeds.
pub open spec fn transforms<F, In, Out, T, D: SpillDevice<F>>(
    target: SpillTarget<'_, D>,
    inputs: Seq<Seq<F>>,
    transform: T,
    computed: Seq<Seq<F>>,
    spilled: Result<MmappedPolys<F, Out, D::Store>, SpillError>,
) -> bool where T: for<'a>Fn(PolynomialView<'a, F, In>) -> Polynomial<F, Out> {
    &&& 0 < computed.len() <= inputs.len()
    &&& forall|i: int|
        0 <= i < computed.len() ==> sends::<F, In, Out, T>(
            transform,
            inputs[i],
            #[trigger] computed[i],
        )
    &&& spilled is Ok ==> computed.len() == inputs.len()
    &&& spills(
        target,
        padded(computed, inputs.len()),
        inputs.len() as usize,
        computed[0].len() as usize,
        spilled,
    )
}

/// When the first `n` rows are as promised, only a later one can be rejected.
proof fn lemma_good_rows_pass<F>(rows: Seq<Seq<F>>, n: nat, n_polys: usize, n_per_poly: usize)
    requires
        n <= rows.len(),
        n <= n_polys,
        forall|i: int| 0 <= i < n ==> (#[trigger] rows[i]).len() == n_per_poly,
    ensures
        rows_error(rows, 0, n_polys, n_per_poly) == rows_error(rows, n, n_polys, n_per_poly),
    decreases n,
{
    if n > 0 {
        lemma_good_rows_pass(rows, (n - 1) as nat, n_polys, n_per_poly);
    }
}

/// Spills the result of applying `transform` to each polynomial.
///
/// At most one output is held at a time: it is computed, written and dropped
/// before the next one is computed. The inputs stay with the caller. The first
/// output gives the row length and is not computed twice.
pub fn spill_with_transform<F, In, Out, P, T, D>(
    target: &SpillTarget<'_, D>,
    inputs: &[P],
    transform: &T,
) -> (spilled: Result<MmappedPolys<F, Out, D::Store>, SpillError>) where
    F: Copy,
    P: PolynomialRead<F, Basis = In>,
    T: for<'a>Fn(PolynomialView<'a, F, In>) -> Polynomial<F, Out>,
    D: SpillDevice<F>,

    requires
        forall|i: int, view: PolynomialView<'_, F, In>|
            0 <= i < inputs@.len() && view.coeffs() == (#[trigger] inputs@[i]).coeffs()
                ==> #[trigger] call_requires(*transform, (view,)),
    ensures
        if inputs@.len() == 0 {
            spilled == Err::<MmappedPolys<F, Out, D::Store>, SpillError>(SpillError::EmptyBatch)
        } else {
            exists|computed: Seq<Seq<F>>| #[trigger]
                transforms::<F, In, Out, T, D>(
                    *target,
                    rows_of(inputs@),
                    *transform,
                    computed,
                    spilled,
                )
        },
{
    let n_polys: usize = inputs.len();
    if n_polys == 0 {
        return Err(SpillError::EmptyBatch);
    }
    let ghost rows = rows_of(inputs@);
    let first = transform(PolynomialView::new(inputs[0].values()));
    let width: usize = first.values.len();
    let ghost mut computed: Seq<Seq<F>> = seq![first.coeffs()];
    assert(sends::<F, In, Out, T>(*transform, rows[0], computed[0]));
    let begun = begin_spill(target, n_polys, width);
    let mapping = match begun {
        Ok(Some(mapping)) => mapping,
        Ok(None) => {
            let spilled = Ok(MmappedPolys::empty());
            proof {
                lemma_product_is_positive(
                    n_polys as nat,
                    width as nat,
                    vstd::layout::size_of::<F>(),
                );
            }
            return spilled;
        },
        Err(e) => {
            let spilled = Err(e);
            assert(transforms::<F, In, Out, T, D>(*target, rows, *transform, computed, spilled));
            return spilled;
        },
    };
    let started = match SpillWriter::start(mapping, n_polys, width) {
        Ok(writer) => writer,
        Err(e) => {
            let spilled = Err(e);
            assert(transforms::<F, In, Out, T, D>(*target, rows, *transform, computed, spilled));
            return spilled;
        },
    };
    let pushed = started.push(first.values());
    let mut writer = match pushed {
        Ok(writer) => writer,
        Err(e) => return Err(e),
    };
    assert(writer.rows() =~= computed);
    for i in 1..n_polys
        invariant
            n_polys == inputs@.len(),
            rows == rows_of(inputs@),
            forall|i: int, view: PolynomialView<'_, F, In>|
                0 <= i < inputs@.len() && view.coeffs() == (#[trigger] inputs@[i]).coeffs()
                    ==> #[trigger] call_requires(*transform, (view,)),
            computed.len() == i,
            computed[0].len() == width,
            forall|k: int| 0 <= k < i ==> (#[trigger] computed[k]).len() == width,
            forall|k: int|
                0 <= k < i ==> sends::<F, In, Out, T>(
                    *transform,
                    rows[k],
                    #[trigger] computed[k],
                ),
            writer.rows() == computed,
            writer.promised() == n_polys,
            writer.width() == width,
            mapping_error(
                mapping,
                vstd::layout::align_of::<F>(),
                (n_polys * width) as nat,
            ) is None,
            plan_error(vstd::layout::size_of::<F>(), n_polys as nat, width as nat) is None,
            opens::<F, D>(
                *target,
                (n_polys * width * vstd::layout::size_of::<F>()) as usize,
                Ok(Some(mapping)),
            ),
    {
        let output = transform(PolynomialView::new(inputs[i].values()));
        proof {
            computed = computed.push(output.coeffs());
            assert(sends::<F, In, Out, T>(*transform, rows[i as int], computed[i as int]));
        }
        writer = match writer.push(output.values()) {
            Ok(writer) => writer,
            Err(e) => {
                let spilled = Err(e);
                proof {
                    let batch = padded(computed, n_polys as nat);
                    lemma_good_rows_pass(batch, i as nat, n_polys, width);
                    assert(batch[i as int] == output.coeffs());
                    assert(transforms::<F, In, Out, T, D>(
                        *target,
                        rows,
                        *transform,
                        computed,
                        spilled,
                    ));
                }
                return spilled;
            },
        };
    }
    let spilled = writer.finish();
    proof {
        let batch = padded(computed, n_polys as nat);
        assert(batch =~= computed);
        lemma_good_rows_pass(batch, n_polys as nat, n_polys, width);
        assert(transforms::<F, In, Out, T, D>(*target, rows, *transform, computed, spilled));
    }
    spilled
}

/// A product of positive factors is positive.
proof fn lemma_product_is_positive(a: nat, b: nat, c: nat)
    requires
        0 < a,
        0 < b,
        0 < c,
    ensures
        0 < a * b * c,
{
    assert(0 < a * b * c) by (nonlinear_arith)
        requires
            0 < a,
            0 < b,
            0 < c,
    ;
}

/// What a successful spill holds is what was spilled: the batch has exactly the
/// promised number of polynomials, each of the promised length, with the values
/// that came in. Nothing else can be read from the mapping.
pub proof fn law_a_spill_holds_what_was_spilled<F, B, D: SpillDevice<F>>(
    target: SpillTarget<'_, D>,
    rows: Seq<Seq<F>>,
    n_polys: usize,
    n_per_poly: usize,
    polys: MmappedPolys<F, B, D::Store>,
)
    requires
        spills(target, rows, n_polys, n_per_poly, Ok::<_, SpillError>(polys)),
    ensures
        polys.rows() == rows,
        rows.len() == n_polys,
        forall|i: int| 0 <= i < rows.len() ==> (#[trigger] rows[i]).len() == n_per_poly,
        polys.bytes() == n_polys * n_per_poly * vstd::layout::size_of::<F>(),
{
    let size = vstd::layout::size_of::<F>();
    let total = (n_polys * n_per_poly * size) as usize;
    if n_polys > 0 {
        lemma_product_is_positive(n_polys as nat, n_per_poly as nat, size);
    } else {
        assert(0 * n_per_poly == 0 && 0 * n_per_poly * size == 0) by (nonlinear_arith);
    }
    let opened = choose|opened: Result<Option<Mapping<D::Store>>, SpillError>|
        {
            &&& #[trigger] opens::<F, D>(target, total, opened)
            &&& match opened {
                Err(e) => false,
                Ok(opened) => fills_opened(
                    opened,
                    rows,
                    n_polys,
                    n_per_poly,
                    Ok::<_, SpillError>(polys),
                ),
            }
        };
    assert(opened is Ok);
    lemma_accepted_rows(rows, 0, n_polys, n_per_poly);
    if n_polys == 0 {
        assert(rows =~= Seq::<Seq<F>>::empty());
    }
}

/// A batch that is not as promised is never spilled: neither one with more or
/// fewer polynomials, nor one with a polynomial of another length.
pub proof fn law_a_broken_promise_is_rejected<F, B, D: SpillDevice<F>>(
    target: SpillTarget<'_, D>,
    rows: Seq<Seq<F>>,
    n_polys: usize,
    n_per_poly: usize,
    spilled: Result<MmappedPolys<F, B, D::Store>, SpillError>,
)
    requires
        rows.len() != n_polys || exists|i: int|
            0 <= i < rows.len() && (#[trigger] rows[i]).len() != n_per_poly,
        spills(target, rows, n_polys, n_per_poly, spilled),
    ensures
        spilled is Err,
{
    match spilled {
        Ok(polys) => {
            law_a_spill_holds_what_was_spilled(target, rows, n_polys, n_per_poly, polys);
        },
        Err(_) => {},
    }
}

/// A batch that is not as promised is the caller's mistake, and is reported as
/// such once the file has been opened and fits: as invalid input, and not as a
/// failure of the device.
pub proof fn law_a_broken_promise_is_invalid_input<F, B, M: SpillStore<F>>(
    opened: Option<Mapping<M>>,
    rows: Seq<Seq<F>>,
    n_polys: usize,
    n_per_poly: usize,
    spilled: Result<MmappedPolys<F, B, M>, SpillError>,
)
    requires
        rows.len() != n_polys || exists|i: int|
            0 <= i < rows.len() && (#[trigger] rows[i]).len() != n_per_poly,
        opened matches Some(mapping) ==> mapping_error(
            mapping,
            vstd::layout::align_of::<F>(),
            (n_polys * n_per_poly) as nat,
        ) is None,
        fills_opened(opened, rows, n_polys, n_per_poly, spilled),
    ensures
        spilled matches Err(e) && e.spec_kind() == ErrorKind::InvalidInput,
{
    if rows_error(rows, 0, n_polys, n_per_poly) is None {
        lemma_accepted_rows(rows, 0, n_polys, n_per_poly);
    }
    lemma_rejections_are_invalid_input(rows, 0, n_polys, n_per_poly);
}

/// Every reason to reject rows is the caller's mistake.
proof fn lemma_rejections_are_invalid_input<F>(
    rows: Seq<Seq<F>>,
    from: nat,
    n_polys: usize,
    n_per_poly: usize,
)
    ensures
        rows_error(rows, from, n_polys, n_per_poly) matches Some(e) ==> e.spec_kind()
            == ErrorKind::InvalidInput,
    decreases rows.len() - from,
{
    if from < rows.len() {
        lemma_rejections_are_invalid_input(rows, from + 1, n_polys, n_per_poly);
    }
}

/// A batch that is promised to be empty must be empty, and maps nothing.
pub proof fn law_an_empty_spill_maps_nothing<F, B, D: SpillDevice<F>>(
    target: SpillTarget<'_, D>,
    rows: Seq<Seq<F>>,
    n_per_poly: usize,
    polys: MmappedPolys<F, B, D::Store>,
)
    requires
        spills(target, rows, 0, n_per_poly, Ok::<_, SpillError>(polys)),
    ensures
        rows.len() == 0,
        polys.rows() == Seq::<Seq<F>>::empty(),
        polys.bytes() == 0,
{
    law_a_spill_holds_what_was_spilled(target, rows, 0, n_per_poly, polys);
    assert(0 * n_per_poly * vstd::layout::size_of::<F>() == 0) by (nonlinear_arith);
    assert(rows =~= Seq::<Seq<F>>::empty());
}

/// Rows that are not rejected from position `from` on are as promised.
proof fn lemma_accepted_rows<F>(rows: Seq<Seq<F>>, from: nat, n_polys: usize, n_per_poly: usize)
    requires
        from <= rows.len(),
        rows_error(rows, from, n_polys, n_per_poly) is None,
    ensures
        rows.len() == n_polys,
        forall|i: int| from <= i < rows.len() ==> (#[trigger] rows[i]).len() == n_per_poly,
    decreases rows.len() - from,
{
    if from < rows.len() {
        lemma_accepted_rows(rows, from + 1, n_polys, n_per_poly);
    }
}

/// The result of a successful transforming spill is the transform of each input,
/// in order.
pub proof fn law_a_transforming_spill_holds_the_outputs<F, In, Out, T, D: SpillDevice<F>>(
    target: SpillTarget<'_, D>,
    inputs: Seq<Seq<F>>,
    transform: T,
    computed: Seq<Seq<F>>,
    polys: MmappedPolys<F, Out, D::Store>,
) where T: for<'a>Fn(PolynomialView<'a, F, In>) -> Polynomial<F, Out>
    requires
        inputs.len() <= usize::MAX,
        transforms::<F, In, Out, T, D>(
            target,
            inputs,
            transform,
            computed,
            Ok::<_, SpillError>(polys),
        ),
    ensures
        polys.rows().len() == inputs.len(),
        forall|i: int|
            0 <= i < inputs.len() ==> sends::<F, In, Out, T>(
                transform,
                inputs[i],
                #[trigger] polys.rows()[i],
            ),
{
    law_a_spill_holds_what_was_spilled(
        target,
        padded(computed, inputs.len()),
        inputs.len() as usize,
        computed[0].len() as usize,
        polys,
    );
    assert(padded(computed, inputs.len()) =~= computed);
}

/// Sizes are turned down only for what is wrong with them. Rows and elements that take
/// space can be spilled in any number as long as the number of bytes can be counted,
/// and it is then the product.
pub proof fn law_only_sizes_that_cannot_be_counted_are_turned_down(
    elem_size: usize,
    n_polys: usize,
    n_per_poly: usize,
    total: Result<usize, SpillError>,
)
    requires
        call_ensures(spill_bytes, (elem_size, n_polys, n_per_poly), total),
    ensures
        elem_size == 0 || n_per_poly == 0 ==> total == Err::<usize, SpillError>(
            SpillError::EmptyRows,
        ),
        elem_size > 0 && n_per_poly > 0 && n_polys * n_per_poly * elem_size <= usize::MAX ==> total
            == Ok::<usize, SpillError>((n_polys * n_per_poly * elem_size) as usize),
        elem_size > 0 && n_per_poly > 0 && n_polys * n_per_poly > usize::MAX ==> total == Err::<
            usize,
            SpillError,
        >(SpillError::ElementCountOverflow),
        elem_size > 0 && n_per_poly > 0 && n_polys * n_per_poly <= usize::MAX && n_polys
            * n_per_poly * elem_size > usize::MAX ==> total == Err::<usize, SpillError>(
            SpillError::ByteCountOverflow,
        ),
{
    if elem_size > 0 {
        lemma_factor_is_no_larger(n_polys as nat * n_per_poly as nat, elem_size as nat);
    }
}

/// A factor is no larger than its product with a positive one.
proof fn lemma_factor_is_no_larger(a: nat, b: nat)
    requires
        0 < b,
    ensures
        a <= a * b,
{
    assert(a <= a * b) by (nonlinear_arith)
        requires
            0 < b,
    ;
}

/// Factors of a positive number are determined by each other.
proof fn lemma_factors_cancel(a: nat, b: nat, c: nat)
    requires
        0 < c,
        a * c == b * c,
    ensures
        a == b,
{
    assert(a == b) by (nonlinear_arith)
        requires
            0 < c,
            a * c == b * c,
    ;
}

/// A mapping is taken exactly when it has a slot for each element and starts at a
/// multiple of the alignment.
pub proof fn law_a_mapping_must_fit_and_be_aligned<F, M: SpillStore<F>>(
    mapping: Mapping<M>,
    n_polys: usize,
    n_per_poly: usize,
    writer: Result<SpillWriter<F, M>, SpillError>,
)
    requires
        call_ensures(SpillWriter::<F, M>::start, (mapping, n_polys, n_per_poly), writer),
    ensures
        mapping.store.slots().len() != n_polys * n_per_poly ==> writer == Err::<
            SpillWriter<F, M>,
            SpillError,
        >(SpillError::MappingSize),
        mapping.store.slots().len() == n_polys * n_per_poly && mapping.base as nat
            % vstd::layout::align_of::<F>() != 0 ==> writer == Err::<
            SpillWriter<F, M>,
            SpillError,
        >(SpillError::Misaligned),
        mapping.store.slots().len() == n_polys * n_per_poly && mapping.base as nat
            % vstd::layout::align_of::<F>() == 0 ==> writer is Ok,
{
}

/// A polynomial is taken exactly when it is promised and has the promised length, and
/// then it is the next one. What is wrong with it is said otherwise.
pub proof fn law_a_promised_polynomial_is_taken<F: Copy, M: SpillStore<F>>(
    writer: SpillWriter<F, M>,
    values: &[F],
    pushed: Result<SpillWriter<F, M>, SpillError>,
)
    requires
        call_ensures(SpillWriter::<F, M>::push, (writer, values), pushed),
    ensures
        writer.rows().len() >= writer.promised() ==> pushed == Err::<
            SpillWriter<F, M>,
            SpillError,
        >(SpillError::TooManyPolynomials),
        writer.rows().len() < writer.promised() && values@.len() != writer.width() ==> pushed
            == Err::<SpillWriter<F, M>, SpillError>(
            SpillError::SizeMismatch {
                got: values@.len() as usize,
                expected: writer.width(),
            },
        ),
        writer.rows().len() < writer.promised() && values@.len() == writer.width() ==> pushed is Ok
            && pushed->Ok_0.rows() == writer.rows().push(values@) && pushed->Ok_0.promised()
            == writer.promised() && pushed->Ok_0.width() == writer.width(),
{
}

/// Rows are as promised, and pass, or the first one that is not decides why not.
pub proof fn law_the_first_row_out_of_place_decides<F>(
    rows: Seq<Seq<F>>,
    at: nat,
    n_polys: usize,
    n_per_poly: usize,
)
    requires
        at <= rows.len(),
        at <= n_polys,
        forall|i: int| 0 <= i < at ==> (#[trigger] rows[i]).len() == n_per_poly,
    ensures
        at == rows.len() == n_polys ==> rows_error(rows, 0, n_polys, n_per_poly) is None,
        at == rows.len() < n_polys ==> rows_error(rows, 0, n_polys, n_per_poly) == Some(
            SpillError::TooFewPolynomials,
        ),
        at == n_polys < rows.len() ==> rows_error(rows, 0, n_polys, n_per_poly) == Some(
            SpillError::TooManyPolynomials,
        ),
        at < rows.len() && at < n_polys && rows[at as int].len() != n_per_poly ==> rows_error(
            rows,
            0,
            n_polys,
            n_per_poly,
        ) == Some(
            SpillError::SizeMismatch {
                got: rows[at as int].len() as usize,
                expected: n_per_poly,
            },
        ),
{
    lemma_good_rows_pass(rows, at, n_polys, n_per_poly);
}

/// When the device's steps succeed, only the rows decide how a spill ends.
pub proof fn lemma_the_rows_decide<F, B, D: SpillDevice<F>>(
    target: SpillTarget<'_, D>,
    rows: Seq<Seq<F>>,
    n_polys: usize,
    n_per_poly: usize,
    spilled: Result<MmappedPolys<F, B, D::Store>, SpillError>,
)
    requires
        spills(target, rows, n_polys, n_per_poly, spilled),
        0 < vstd::layout::size_of::<F>(),
        0 < n_per_poly,
        n_polys * n_per_poly * vstd::layout::size_of::<F>() <= usize::MAX,
        target.platform matches Platform::Fallocate { max_offset } ==> n_polys * n_per_poly
            * vstd::layout::size_of::<F>() <= max_offset,
        target.platform matches Platform::Preallocate { max_offset } ==> n_polys * n_per_poly
            * vstd::layout::size_of::<F>() <= max_offset,
        forall|made: Result<D::File, IoFailure>| #[trigger]
            call_ensures(D::tempfile, (target.device,), made) ==> made is Ok,
        forall|dir: String, made: Result<D::File, IoFailure>| #[trigger]
            call_ensures(D::tempfile_in, (target.device, &dir), made) ==> made is Ok,
        forall|f: D::File, len: i64, outcome: Result<D::File, IoFailure>| #[trigger]
            call_ensures(D::posix_fallocate, (target.device, f, len), outcome) ==> outcome is Ok,
        forall|f: D::File, len: i64, contiguous: bool, outcome: Preallocation<D::File>| #[trigger]
            call_ensures(D::preallocate, (target.device, f, len, contiguous), outcome)
                ==> outcome is Reserved && outcome->Reserved_1 >= len,
        forall|f: D::File, len: u64, outcome: Result<D::File, IoFailure>| #[trigger]
            call_ensures(D::set_len, (target.device, f, len), outcome) ==> outcome is Ok,
        forall|f: D::File, len: usize, outcome: Result<D::File, IoFailure>| #[trigger]
            call_ensures(D::write_zeros, (target.device, f, len), outcome) ==> outcome is Ok,
        forall|f: D::File, outcome: Result<D::File, IoFailure>| #[trigger]
            call_ensures(D::flush, (target.device, f), outcome) ==> outcome is Ok,
        forall|f: D::File, len: usize, mapped: Result<Mapping<D::Store>, IoFailure>| #[trigger]
            call_ensures(D::map, (target.device, f, len), mapped) ==> mapped is Ok
                && mapped->Ok_0.store.slots().len() * vstd::layout::size_of::<F>() == len
                && mapped->Ok_0.base as nat % vstd::layout::align_of::<F>() == 0,
        forall|filled: D::Store, sealed: Result<D::Store, IoFailure>| #[trigger]
            call_ensures(D::Store::seal, (filled,), sealed) ==> sealed is Ok,
    ensures
        match rows_error(rows, 0, n_polys, n_per_poly) {
            Some(e) => spilled == Err::<MmappedPolys<F, B, D::Store>, SpillError>(e),
            None => spilled is Ok,
        },
{
    let size = vstd::layout::size_of::<F>();
    let total = (n_polys * n_per_poly * size) as usize;
    lemma_factor_is_no_larger(n_polys as nat * n_per_poly as nat, size);
    let opened = choose|opened: Result<Option<Mapping<D::Store>>, SpillError>|
        {
            &&& #[trigger] opens::<F, D>(target, total, opened)
            &&& match opened {
                Err(e) => spilled == Err::<MmappedPolys<F, B, D::Store>, SpillError>(e),
                Ok(opened) => fills_opened(opened, rows, n_polys, n_per_poly, spilled),
            }
        };
    lemma_steps_open::<F, D>(target, total, opened);
    if total > 0 {
        let mapping = opened->Ok_0->Some_0;
        let file = choose|file: D::File| #[trigger]
            call_ensures(D::map, (target.device, file, total), Ok::<_, IoFailure>(mapping));
        assert(call_ensures(
            D::map,
            (target.device, file, total),
            Ok::<Mapping<D::Store>, IoFailure>(mapping),
        ));
        lemma_factors_cancel(
            mapping.store.slots().len(),
            n_polys as nat * n_per_poly as nat,
            size,
        );
    }
}

/// A batch that is as promised is spilled whenever the device's steps succeed with a
/// mapping that fits and is aligned, however large it is: as many bytes are mapped as
/// its values take, and reading it gives back exactly its values.
pub proof fn law_a_batch_as_promised_is_spilled<F: Copy, B, D: SpillDevice<F>>(
    target: SpillTarget<'_, D>,
    polys: Vec<Polynomial<F, B>>,
    n_per_poly: usize,
    spilled: Result<MmappedPolys<F, B, D::Store>, SpillError>,
)
    requires
        call_ensures(spill_vec_to_disk::<F, B, D>, (&target, polys, n_per_poly), spilled),
        forall|i: int|
            0 <= i < polys@.len() ==> (#[trigger] polys@[i]).values@.len() == n_per_poly,
        0 < vstd::layout::size_of::<F>(),
        0 < n_per_poly,
        polys@.len() * n_per_poly * vstd::layout::size_of::<F>() <= usize::MAX,
        target.platform matches Platform::Fallocate { max_offset } ==> polys@.len() * n_per_poly
            * vstd::layout::size_of::<F>() <= max_offset,
        target.platform matches Platform::Preallocate { max_offset } ==> polys@.len() * n_per_poly
            * vstd::layout::size_of::<F>() <= max_offset,
        forall|made: Result<D::File, IoFailure>| #[trigger]
            call_ensures(D::tempfile, (target.device,), made) ==> made is Ok,
        forall|dir: String, made: Result<D::File, IoFailure>| #[trigger]
            call_ensures(D::tempfile_in, (target.device, &dir), made) ==> made is Ok,
        forall|f: D::File, len: i64, outcome: Result<D::File, IoFailure>| #[trigger]
            call_ensures(D::posix_fallocate, (target.device, f, len), outcome) ==> outcome is Ok,
        forall|f: D::File, len: i64, contiguous: bool, outcome: Preallocation<D::File>| #[trigger]
            call_ensures(D::preallocate, (target.device, f, len, contiguous), outcome)
                ==> outcome is Reserved && outcome->Reserved_1 >= len,
        forall|f: D::File, len: u64, outcome: Result<D::File, IoFailure>| #[trigger]
            call_ensures(D::set_len, (target.device, f, len), outcome) ==> outcome is Ok,
        forall|f: D::File, len: usize, outcome: Result<D::File, IoFailure>| #[trigger]
            call_ensures(D::write_zeros, (target.device, f, len), outcome) ==> outcome is Ok,
        forall|f: D::File, outcome: Result<D::File, IoFailure>| #[trigger]
            call_ensures(D::flush, (target.device, f), outcome) ==> outcome is Ok,
        forall|f: D::File, len: usize, mapped: Result<Mapping<D::Store>, IoFailure>| #[trigger]
            call_ensures(D::map, (target.device, f, len), mapped) ==> mapped is Ok
                && mapped->Ok_0.store.slots().len() * vstd::layout::size_of::<F>() == len
                && mapped->Ok_0.base as nat % vstd::layout::align_of::<F>() == 0,
        forall|filled: D::Store, sealed: Result<D::Store, IoFailure>| #[trigger]
            call_ensures(D::Store::seal, (filled,), sealed) ==> sealed is Ok,
    ensures
        spilled is Ok,
        spilled->Ok_0.bytes() == polys@.len() * n_per_poly * vstd::layout::size_of::<F>(),
        spilled->Ok_0.rows().len() == polys@.len(),
        forall|i: int|
            0 <= i < polys@.len() ==> #[trigger] spilled->Ok_0.rows()[i] == polys@[i].values@,
{
    assert(polys.len() <= usize::MAX);
    let rows = rows_of(polys@);
    let n_polys = polys@.len() as usize;
    assert forall|i: int| 0 <= i < rows.len() implies (#[trigger] rows[i]).len() == n_per_poly by {
        assert(polys@[i].values@.len() == n_per_poly);
    }
    law_the_first_row_out_of_place_decides(rows, polys@.len(), n_polys, n_per_poly);
    lemma_the_rows_decide(target, rows, n_polys, n_per_poly, spilled);
    law_a_spill_holds_what_was_spilled(target, rows, n_polys, n_per_poly, spilled->Ok_0);
}

/// When the device's steps succeed, a batch that is not as promised is rejected for the
/// first polynomial that is out of place.
pub proof fn law_a_batch_that_breaks_its_promise_is_told_why<F: Copy, B, I, D: SpillDevice<F>>(
    target: SpillTarget<'_, D>,
    polys: I,
    items: Seq<Polynomial<F, B>>,
    n_polys: usize,
    n_per_poly: usize,
    at: nat,
    spilled: Result<MmappedPolys<F, B, D::Store>, SpillError>,
) where I: Iterator<Item = Polynomial<F, B>>
    requires
        call_ensures(
            spill_iter_to_disk::<F, B, I, D>,
            (&target, polys, n_polys, n_per_poly),
            spilled,
        ),
        items == vstd::std_specs::iter::IteratorSpec::remaining(&polys),
        at <= items.len(),
        at <= n_polys,
        forall|i: int| 0 <= i < at ==> (#[trigger] items[i]).values@.len() == n_per_poly,
        0 < vstd::layout::size_of::<F>(),
        0 < n_per_poly,
        n_polys * n_per_poly * vstd::layout::size_of::<F>() <= usize::MAX,
        target.platform matches Platform::Fallocate { max_offset } ==> n_polys * n_per_poly
            * vstd::layout::size_of::<F>() <= max_offset,
        target.platform matches Platform::Preallocate { max_offset } ==> n_polys * n_per_poly
            * vstd::layout::size_of::<F>() <= max_offset,
        forall|made: Result<D::File, IoFailure>| #[trigger]
            call_ensures(D::tempfile, (target.device,), made) ==> made is Ok,
        forall|dir: String, made: Result<D::File, IoFailure>| #[trigger]
            call_ensures(D::tempfile_in, (target.device, &dir), made) ==> made is Ok,
        forall|f: D::File, len: i64, outcome: Result<D::File, IoFailure>| #[trigger]
            call_ensures(D::posix_fallocate, (target.device, f, len), outcome) ==> outcome is Ok,
        forall|f: D::File, len: i64, contiguous: bool, outcome: Preallocation<D::File>| #[trigger]
            call_ensures(D::preallocate, (target.device, f, len, contiguous), outcome)
                ==> outcome is Reserved && outcome->Reserved_1 >= len,
        forall|f: D::File, len: u64, outcome: Result<D::File, IoFailure>| #[trigger]
            call_ensures(D::set_len, (target.device, f, len), outcome) ==> outcome is Ok,
        forall|f: D::File, len: usize, outcome: Result<D::File, IoFailure>| #[trigger]
            call_ensures(D::write_zeros, (target.device, f, len), outcome) ==> outcome is Ok,
        forall|f: D::File, outcome: Result<D::File, IoFailure>| #[trigger]
            call_ensures(D::flush, (target.device, f), outcome) ==> outcome is Ok,
        forall|f: D::File, len: usize, mapped: Result<Mapping<D::Store>, IoFailure>| #[trigger]
            call_ensures(D::map, (target.device, f, len), mapped) ==> mapped is Ok
                && mapped->Ok_0.store.slots().len() * vstd::layout::size_of::<F>() == len
                && mapped->Ok_0.base as nat % vstd::layout::align_of::<F>() == 0,
        forall|filled: D::Store, sealed: Result<D::Store, IoFailure>| #[trigger]
            call_ensures(D::Store::seal, (filled,), sealed) ==> sealed is Ok,
    ensures
        at == items.len() == n_polys ==> spilled is Ok,
        at == items.len() < n_polys ==> spilled == Err::<
            MmappedPolys<F, B, D::Store>,
            SpillError,
        >(SpillError::TooFewPolynomials),
        at == n_polys < items.len() ==> spilled == Err::<
            MmappedPolys<F, B, D::Store>,
            SpillError,
        >(SpillError::TooManyPolynomials),
        at < items.len() && at < n_polys && items[at as int].values@.len() != n_per_poly
            ==> spilled == Err::<MmappedPolys<F, B, D::Store>, SpillError>(
            SpillError::SizeMismatch {
                got: items[at as int].values@.len() as usize,
                expected: n_per_poly,
            },
        ),
{
    let rows = rows_of(items);
    assert forall|i: int| 0 <= i < at implies (#[trigger] rows[i]).len() == n_per_poly by {
        assert(items[i].values@.len() == n_per_poly);
    }
    law_the_first_row_out_of_place_decides(rows, at, n_polys, n_per_poly);
    lemma_the_rows_decide(target, rows, n_polys, n_per_poly, spilled);
}

/// What is read from a batch that was spilled is what was spilled, polynomial by
/// polynomial and value by value.
pub proof fn law_views_of_a_spill_are_what_was_spilled<F: Copy, B, D: SpillDevice<F>>(
    target: SpillTarget<'_, D>,
    polys: Vec<Polynomial<F, B>>,
    n_per_poly: usize,
    mapped: MmappedPolys<F, B, D::Store>,
    views: Vec<PolynomialView<'_, F, B>>,
    len: usize,
    bytes: usize,
    i: int,
)
    requires
        call_ensures(
            spill_vec_to_disk::<F, B, D>,
            (&target, polys, n_per_poly),
            Ok::<_, SpillError>(mapped),
        ),
        call_ensures(MmappedPolys::<F, B, D::Store>::views, (&mapped,), views),
        call_ensures(MmappedPolys::<F, B, D::Store>::len, (&mapped,), len),
        call_ensures(MmappedPolys::<F, B, D::Store>::mmap_bytes, (&mapped,), bytes),
    ensures
        views@.len() == polys@.len(),
        len == polys@.len(),
        bytes == polys@.len() * n_per_poly * vstd::layout::size_of::<F>(),
        0 <= i < polys@.len() ==> views@[i].coeffs() == polys@[i].values@,
        0 <= i < polys@.len() ==> polys@[i].values@.len() == n_per_poly,
{
    assert(polys.len() <= usize::MAX);
    let rows = rows_of(polys@);
    law_a_spill_holds_what_was_spilled(
        target,
        rows,
        polys@.len() as usize,
        n_per_poly,
        mapped,
    );
    if 0 <= i < polys@.len() {
        assert(rows_of(views@)[i] == views@[i].coeffs());
        assert(rows[i] == polys@[i].values@);
    }
}

/// What is read from a transforming spill is the transform of each input, in order:
/// row `i` is an output of the transform on a view of input `i`, which are handed back.
pub proof fn law_a_transforming_spill_holds_each_output<'v, F, In, Out, P, T, D>(
    target: SpillTarget<'_, D>,
    inputs: &[P],
    transform: T,
    polys: MmappedPolys<F, Out, D::Store>,
    i: int,
) -> (made: (PolynomialView<'v, F, In>, Polynomial<F, Out>)) where
    F: Copy,
    P: PolynomialRead<F, Basis = In>,
    T: for<'a>Fn(PolynomialView<'a, F, In>) -> Polynomial<F, Out>,
    D: SpillDevice<F>,

    requires
        call_ensures(
            spill_with_transform::<F, In, Out, P, T, D>,
            (&target, inputs, &transform),
            Ok::<_, SpillError>(polys),
        ),
        inputs@.len() <= usize::MAX,
        0 <= i < inputs@.len(),
    ensures
        polys.rows().len() == inputs@.len(),
        made.0.coeffs() == inputs@[i].coeffs(),
        call_ensures(transform, (made.0,), made.1),
        polys.rows()[i] == made.1.values@,
{
    let spilled = Ok::<_, SpillError>(polys);
    let rows = rows_of(inputs@);
    let computed = choose|computed: Seq<Seq<F>>| #[trigger]
        transforms::<F, In, Out, T, D>(target, rows, transform, computed, spilled);
    law_a_transforming_spill_holds_the_outputs::<F, In, Out, T, D>(
        target,
        rows,
        transform,
        computed,
        polys,
    );
    assert(sends::<F, In, Out, T>(transform, rows[i], polys.rows()[i]));
    choose|view: PolynomialView<'_, F, In>, poly: Polynomial<F, Out>|
        {
            &&& view.coeffs() == rows[i]
            &&& poly.coeffs() == polys.rows()[i]
            &&& #[trigger] call_ensures(transform, (view,), poly)
        }
}

/// Without an input there is nothing to spill, and no row length to spill it with.
pub proof fn law_a_transforming_spill_needs_an_input<F, In, Out, P, T, D>(
    target: SpillTarget<'_, D>,
    inputs: &[P],
    transform: T,
    spilled: Result<MmappedPolys<F, Out, D::Store>, SpillError>,
) where
    F: Copy,
    P: PolynomialRead<F, Basis = In>,
    T: for<'a>Fn(PolynomialView<'a, F, In>) -> Polynomial<F, Out>,
    D: SpillDevice<F>,

    requires
        call_ensures(
            spill_with_transform::<F, In, Out, P, T, D>,
            (&target, inputs, &transform),
            spilled,
        ),
        inputs@.len() == 0,
    ensures
        spilled == Err::<MmappedPolys<F, Out, D::Store>, SpillError>(SpillError::EmptyBatch),
{
}

/// Outputs of one length are spilled when the device's steps succeed.
pub proof fn lemma_outputs_are_spilled<F, In, Out, T, D: SpillDevice<F>>(
    target: SpillTarget<'_, D>,
    inputs: Seq<Seq<F>>,
    transform: T,
    width: usize,
    computed: Seq<Seq<F>>,
    spilled: Result<MmappedPolys<F, Out, D::Store>, SpillError>,
) where T: for<'a>Fn(PolynomialView<'a, F, In>) -> Polynomial<F, Out>
    requires
        transforms::<F, In, Out, T, D>(target, inputs, transform, computed, spilled),
        0 < inputs.len() <= usize::MAX,
        forall|view: PolynomialView<'_, F, In>, poly: Polynomial<F, Out>| #[trigger]
            call_ensures(transform, (view,), poly) ==> poly.values@.len() == width,
        0 < vstd::layout::size_of::<F>(),
        0 < width,
        inputs.len() * width * vstd::layout::size_of::<F>() <= usize::MAX,
        target.platform matches Platform::Fallocate { max_offset } ==> inputs.len() * width
            * vstd::layout::size_of::<F>() <= max_offset,
        target.platform matches Platform::Preallocate { max_offset } ==> inputs.len() * width
            * vstd::layout::size_of::<F>() <= max_offset,
        forall|made: Result<D::File, IoFailure>| #[trigger]
            call_ensures(D::tempfile, (target.device,), made) ==> made is Ok,
        forall|dir: String, made: Result<D::File, IoFailure>| #[trigger]
            call_ensures(D::tempfile_in, (target.device, &dir), made) ==> made is Ok,
        forall|f: D::File, len: i64, outcome: Result<D::File, IoFailure>| #[trigger]
            call_ensures(D::posix_fallocate, (target.device, f, len), outcome) ==> outcome is Ok,
        forall|f: D::File, len: i64, contiguous: bool, outcome: Preallocation<D::File>| #[trigger]
            call_ensures(D::preallocate, (target.device, f, len, contiguous), outcome)
                ==> outcome is Reserved && outcome->Reserved_1 >= len,
        forall|f: D::File, len: u64, outcome: Result<D::File, IoFailure>| #[trigger]
            call_ensures(D::set_len, (target.device, f, len), outcome) ==> outcome is Ok,
        forall|f: D::File, len: usize, outcome: Result<D::File, IoFailure>| #[trigger]
            call_ensures(D::write_zeros, (target.device, f, len), outcome) ==> outcome is Ok,
        forall|f: D::File, outcome: Result<D::File, IoFailure>| #[trigger]
            call_ensures(D::flush, (target.device, f), outcome) ==> outcome is Ok,
        forall|f: D::File, len: usize, mapped: Result<Mapping<D::Store>, IoFailure>| #[trigger]
            call_ensures(D::map, (target.device, f, len), mapped) ==> mapped is Ok
                && mapped->Ok_0.store.slots().len() * vstd::layout::size_of::<F>() == len
                && mapped->Ok_0.base as nat % vstd::layout::align_of::<F>() == 0,
        forall|filled: D::Store, sealed: Result<D::Store, IoFailure>| #[trigger]
            call_ensures(D::Store::seal, (filled,), sealed) ==> sealed is Ok,
    ensures
        spilled is Ok,
{
    let n_polys = inputs.len() as usize;
    let batch = padded(computed, inputs.len());
    assert forall|i: int| 0 <= i < computed.len() implies (#[trigger] computed[i]).len()
        == width by {
        assert(sends::<F, In, Out, T>(transform, inputs[i], computed[i]));
    }
    assert(computed[0].len() == width);
    assert forall|i: int| 0 <= i < batch.len() implies (#[trigger] batch[i]).len() == width by {
        if i < computed.len() {
            assert(computed[i].len() == width);
        }
    }
    law_the_first_row_out_of_place_decides(batch, inputs.len(), n_polys, width);
    lemma_the_rows_decide(target, batch, n_polys, width, spilled);
}

/// A transforming spill succeeds whenever the device's steps do and every output has
/// one length, however many inputs there are.
pub proof fn law_a_transforming_spill_succeeds_when_its_steps_do<F, In, Out, P, T, D>(
    target: SpillTarget<'_, D>,
    inputs: &[P],
    transform: T,
    width: usize,
    spilled: Result<MmappedPolys<F, Out, D::Store>, SpillError>,
) where
    F: Copy,
    P: PolynomialRead<F, Basis = In>,
    T: for<'a>Fn(PolynomialView<'a, F, In>) -> Polynomial<F, Out>,
    D: SpillDevice<F>,

    requires
        call_ensures(
            spill_with_transform::<F, In, Out, P, T, D>,
            (&target, inputs, &transform),
            spilled,
        ),
        0 < inputs@.len() <= usize::MAX,
        forall|view: PolynomialView<'_, F, In>, poly: Polynomial<F, Out>| #[trigger]
            call_ensures(transform, (view,), poly) ==> poly.values@.len() == width,
        0 < vstd::layout::size_of::<F>(),
        0 < width,
        inputs@.len() * width * vstd::layout::size_of::<F>() <= usize::MAX,
        target.platform matches Platform::Fallocate { max_offset } ==> inputs@.len() * width
            * vstd::layout::size_of::<F>() <= max_offset,
        target.platform matches Platform::Preallocate { max_offset } ==> inputs@.len() * width
            * vstd::layout::size_of::<F>() <= max_offset,
        forall|made: Result<D::File, IoFailure>| #[trigger]
            call_ensures(D::tempfile, (target.device,), made) ==> made is Ok,
        forall|dir: String, made: Result<D::File, IoFailure>| #[trigger]
            call_ensures(D::tempfile_in, (target.device, &dir), made) ==> made is Ok,
        forall|f: D::File, len: i64, outcome: Result<D::File, IoFailure>| #[trigger]
            call_ensures(D::posix_fallocate, (target.device, f, len), outcome) ==> outcome is Ok,
        forall|f: D::File, len: i64, contiguous: bool, outcome: Preallocation<D::File>| #[trigger]
            call_ensures(D::preallocate, (target.device, f, len, contiguous), outcome)
                ==> outcome is Reserved && outcome->Reserved_1 >= len,
        forall|f: D::File, len: u64, outcome: Result<D::File, IoFailure>| #[trigger]
            call_ensures(D::set_len, (target.device, f, len), outcome) ==> outcome is Ok,
        forall|f: D::File, len: usize, outcome: Result<D::File, IoFailure>| #[trigger]
            call_ensures(D::write_zeros, (target.device, f, len), outcome) ==> outcome is Ok,
        forall|f: D::File, outcome: Result<D::File, IoFailure>| #[trigger]
            call_ensures(D::flush, (target.device, f), outcome) ==> outcome is Ok,
        forall|f: D::File, len: usize, mapped: Result<Mapping<D::Store>, IoFailure>| #[trigger]
            call_ensures(D::map, (target.device, f, len), mapped) ==> mapped is Ok
                && mapped->Ok_0.store.slots().len() * vstd::layout::size_of::<F>() == len
                && mapped->Ok_0.base as nat % vstd::layout::align_of::<F>() == 0,
        forall|filled: D::Store, sealed: Result<D::Store, IoFailure>| #[trigger]
            call_ensures(D::Store::seal, (filled,), sealed) ==> sealed is Ok,
    ensures
        spilled is Ok,
{
    let rows = rows_of(inputs@);
    let computed = choose|computed: Seq<Seq<F>>| #[trigger]
        transforms::<F, In, Out, T, D>(target, rows, transform, computed, spilled);
    lemma_outputs_are_spilled::<F, In, Out, T, D>(
        target,
        rows,
        transform,
        width,
        computed,
        spilled,
    );
}

/// A description says how many polynomials there are and how many bytes they take.
pub proof fn law_a_description_has_both_numbers<F, B, M: MappedStore<F>>(
    polys: MmappedPolys<F, B, M>,
    text: String,
)
    requires
        call_ensures(MmappedPolys::<F, B, M>::summary, (&polys,), text),
    ensures
        contains_text(text@, decimal(polys.rows().len())),
        contains_text(text@, decimal(polys.bytes() as nat)),
        text@ == "MmappedPolys { n_polys: "@ + decimal(polys.rows().len()) + ", mmap_bytes: "@
            + decimal(polys.bytes() as nat) + " }"@,
{
    let count = decimal(polys.rows().len());
    let size = decimal(polys.bytes() as nat);
    let at = "MmappedPolys { n_polys: "@.len() as int;
    let then_at = at + count.len() + ", mmap_bytes: "@.len();
    assert(text@.subrange(at, at + count.len()) =~= count);
    assert(text@.subrange(then_at, then_at + size.len()) =~= size);
}

/// What is spilled with a directory requested is spilled into a file of that directory,
/// which is handed back.
pub proof fn lemma_a_spill_is_in_the_requested_directory<F, B, D: SpillDevice<F>>(
    target: SpillTarget<'_, D>,
    rows: Seq<Seq<F>>,
    n_polys: usize,
    n_per_poly: usize,
    polys: MmappedPolys<F, B, D::Store>,
    dir: String,
) -> (file: D::File)
    requires
        spills(target, rows, n_polys, n_per_poly, Ok::<_, SpillError>(polys)),
        target.dir == Some(dir),
        dir@.len() > 0,
    ensures
        call_ensures(D::tempfile_in, (target.device, &dir), Ok::<_, IoFailure>(file)),
{
    let total = (n_polys * n_per_poly * vstd::layout::size_of::<F>()) as usize;
    let opened = choose|opened: Result<Option<Mapping<D::Store>>, SpillError>|
        {
            &&& #[trigger] opens::<F, D>(target, total, opened)
            &&& opened is Ok
        };
    let made = choose|made: Result<D::File, SpillError>|
        {
            &&& #[trigger] makes_tempfile::<F, D>(target, made)
            &&& made is Ok
        };
    let outcome = choose|outcome: Result<D::File, IoFailure>|
        {
            &&& #[trigger] call_ensures(D::tempfile_in, (target.device, &dir), outcome)
            &&& made == create_outcome(Some(dir), outcome)
        };
    assert(outcome == Ok::<_, IoFailure>(outcome->Ok_0));
    outcome->Ok_0
}

/// A spill into a directory that takes no file fails with that: the directory and the
/// system's own word on it are the error.
pub proof fn law_a_bad_directory_fails_the_spill<F, B, D: SpillDevice<F>>(
    target: SpillTarget<'_, D>,
    rows: Seq<Seq<F>>,
    n_polys: usize,
    n_per_poly: usize,
    spilled: Result<MmappedPolys<F, B, D::Store>, SpillError>,
    dir: String,
    cause: IoFailure,
)
    requires
        spills(target, rows, n_polys, n_per_poly, spilled),
        0 < vstd::layout::size_of::<F>(),
        0 < n_per_poly,
        n_polys * n_per_poly * vstd::layout::size_of::<F>() <= usize::MAX,
        target.dir == Some(dir),
        dir@.len() > 0,
        forall|made: Result<D::File, IoFailure>| #[trigger]
            call_ensures(D::tempfile_in, (target.device, &dir), made) ==> made is Err && made->Err_0
                == cause,
    ensures
        spilled == Err::<MmappedPolys<F, B, D::Store>, SpillError>(
            SpillError::CreateTempFile { dir: Some(dir), cause },
        ),
{
    let size = vstd::layout::size_of::<F>();
    let total = (n_polys * n_per_poly * size) as usize;
    lemma_factor_is_no_larger(n_polys as nat * n_per_poly as nat, size);
    let opened = choose|opened: Result<Option<Mapping<D::Store>>, SpillError>|
        {
            &&& #[trigger] opens::<F, D>(target, total, opened)
            &&& match opened {
                Err(e) => spilled == Err::<MmappedPolys<F, B, D::Store>, SpillError>(e),
                Ok(opened) => fills_opened(opened, rows, n_polys, n_per_poly, spilled),
            }
        };
    let made = choose|made: Result<D::File, SpillError>|
        {
            &&& #[trigger] makes_tempfile::<F, D>(target, made)
            &&& match made {
                Err(e) => opened == Err::<Option<Mapping<D::Store>>, SpillError>(e),
                Ok(file) => true,
            }
        };
    let outcome = choose|outcome: Result<D::File, IoFailure>|
        {
            &&& #[trigger] call_ensures(D::tempfile_in, (target.device, &dir), outcome)
            &&& made == create_outcome(Some(dir), outcome)
        };
    assert(outcome is Err);
}

} // verus!
