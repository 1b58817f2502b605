//! Coset construction for the prover, on the heap or spilled to a mapped file.
use rayon::prelude::{IntoParallelRefIterator, ParallelIterator};
use vstd::prelude::*;

use crate::config::ProverConfig;
use crate::error::{IoFailure, SpillError};
use crate::plonk::device::{
    target_under, Mapping, Platform, Preallocation, SpillDevice, SpillHost, SpillTarget,
};
use crate::plonk::mmap_pk::{
    batch_summary, law_a_bad_directory_fails_the_spill, law_a_transforming_spill_holds_the_outputs,
    lemma_a_spill_is_in_the_requested_directory, lemma_outputs_are_spilled, padded, sends,
    spill_with_transform, transforms, MmappedPolys,
};
use crate::poly::view::{polynomial_views, rows_of, PolynomialRead, PolynomialView};
use crate::poly::{Coeff, ExtendedLagrangeCoeff, Polynomial};
use crate::store::{MappedStore, SpillStore};
use crate::text::{decimal, decimal_text};

verus! {

/// Cosets that are held in memory, or spilled to a mapped file.
///
/// Both arms hand out basis-typed, read-only views, so the storage choice stays
/// invisible to the evaluator.
pub enum Cosets<F, M: MappedStore<F>> {
    /// Built in parallel and held in memory.
    Heap(Vec<Polynomial<F, ExtendedLagrangeCoeff>>),
    /// Streamed to a file and mapped back, one polynomial at a time.
    Spilled(MmappedPolys<F, ExtendedLagrangeCoeff, M>),
}

impl<F, M: MappedStore<F>> Cosets<F, M> {
    /// The values of each coset.
    pub open spec fn rows(&self) -> Seq<Seq<F>> {
        match self {
            Cosets::Heap(cosets) => rows_of(cosets@),
            Cosets::Spilled(cosets) => cosets.rows(),
        }
    }

    /// Borrows the cosets as read-only views, whichever arm this is.
    pub fn views(&self) -> (views: Vec<PolynomialView<'_, F, ExtendedLagrangeCoeff>>)
        ensures
            views@.len() == self.rows().len(),
            rows_of(views@) == self.rows(),
    {
        match self {
            Cosets::Heap(cosets) => polynomial_views(cosets.as_slice()),
            Cosets::Spilled(cosets) => cosets.views(),
        }
    }

    /// A short description, which does not touch the values.
    pub fn summary(&self) -> (text: String)
        ensures
            text@ == match self {
                Cosets::Heap(cosets) => "Cosets::Heap { n_polys: "@ + decimal(cosets@.len())
                    + " }"@,
                Cosets::Spilled(cosets) => "Cosets::Spilled { inner: "@ + batch_summary(
                    cosets.rows().len(),
                    cosets.bytes() as nat,
                ) + " }"@,
            },
    {
        match self {
            Cosets::Heap(cosets) => {
                let mut text = "Cosets::Heap { n_polys: ".to_owned();
                text.append(decimal_text(cosets.len() as u64).as_str());
                text.append(" }");
                text
            },
            Cosets::Spilled(cosets) => {
                let mut text = "Cosets::Spilled { inner: ".to_owned();
                text.append(cosets.summary().as_str());
                text.append(" }");
                text
            },
        }
    }
}

/// Cosets, and why they are on the heap if they were meant to be spilled.
pub struct BuiltCosets<F, M: MappedStore<F>> {
    /// The cosets.
    pub cosets: Cosets<F, M>,
    /// What stopped the spill, if it was tried and failed.
    pub spill_error: Option<SpillError>,
}

/// Whether the policy spills cosets for a circuit of size `k`.
pub fn should_spill_cosets(policy: &ProverConfig, k: u32) -> (asked: bool)
    ensures
        asked == policy.spec_spills_cosets_at(k),
{
    policy.spills_cosets_at(k)
}

/// Whether [`build_cosets`] will try to spill: it was asked to, and the host can.
///
/// [`should_spill_cosets`] answers only whether spilling was asked for.
pub fn will_spill(policy: &ProverConfig, k: u32, host_can_spill: bool) -> (spills: bool)
    ensures
        spills == (host_can_spill && policy.spec_spills_cosets_at(k)),
{
    host_can_spill && should_spill_cosets(policy, k)
}

/// Applies `f` to every item, in parallel.
///
/// This is `map` and `collect` of `rayon` on a slice's `par_iter`. An indexed
/// parallel iterator collects in the order of the items, so the result at each
/// position is what `f` returned for the item there. Which thread makes a call,
/// and when, is left open.
#[verifier::external_body]
fn par_map<T: Sync, U: Send, G: Fn(&T) -> U + Sync + Send>(items: &[T], f: G) -> (mapped: Vec<U>)
    requires
        forall|i: int| 0 <= i < items@.len() ==> call_requires(f, (&#[trigger] items@[i],)),
    ensures
        mapped@.len() == items@.len(),
        forall|i: int|
            0 <= i < items@.len() ==> call_ensures(f, (&items@[i],), #[trigger] mapped@[i]),
{
    items.par_iter().map(f).collect()
}

/// Whether `rows` are the outputs of `transform` on `inputs`, in order.
pub open spec fn all_sent<F, D>(transform: D, inputs: Seq<Seq<F>>, rows: Seq<Seq<F>>) -> bool where
    D: for<'a>Fn(PolynomialView<'a, F, Coeff>) -> Polynomial<F, ExtendedLagrangeCoeff>,
 {
    &&& rows.len() == inputs.len()
    &&& forall|i: int|
        0 <= i < inputs.len() ==> sends::<F, Coeff, ExtendedLagrangeCoeff, D>(
            transform,
            inputs[i],
            #[trigger] rows[i],
        )
}

/// Builds cosets in memory, in parallel.
fn build_on_heap<F, P, D>(polys: &[P], to_extended: &D) -> (cosets: Vec<
    Polynomial<F, ExtendedLagrangeCoeff>,
>) where
    F: Send + Sync,
    P: PolynomialRead<F, Basis = Coeff> + Sync,
    D: for<'a>Fn(PolynomialView<'a, F, Coeff>) -> Polynomial<F, ExtendedLagrangeCoeff>
        + Send + Sync,

    requires
        forall|i: int, view: PolynomialView<'_, F, Coeff>|
            0 <= i < polys@.len() && view.coeffs() == (#[trigger] polys@[i]).coeffs()
                ==> #[trigger] call_requires(*to_extended, (view,)),
    ensures
        all_sent(*to_extended, rows_of(polys@), rows_of(cosets@)),
{
    let extend = |poly: &P| -> (coset: Polynomial<F, ExtendedLagrangeCoeff>)
        requires
            forall|view: PolynomialView<'_, F, Coeff>|
                view.coeffs() == poly.coeffs() ==> #[trigger] call_requires(*to_extended, (view,)),
        ensures
            sends::<F, Coeff, ExtendedLagrangeCoeff, D>(
                *to_extended,
                poly.coeffs(),
                coset.coeffs(),
            ),
        { to_extended(PolynomialView::new(poly.values())) };
    let cosets = par_map(polys, extend);
    proof {
        let inputs = rows_of(polys@);
        let rows = rows_of(cosets@);
        assert forall|i: int| 0 <= i < inputs.len() implies sends::<
            F,
            Coeff,
            ExtendedLagrangeCoeff,
            D,
        >(*to_extended, inputs[i], #[trigger] rows[i]) by {
            assert(call_ensures(extend, (&polys@[i],), cosets@[i]));
        }
    }
    cosets
}

/// Whether the spill of the cosets of `inputs` can end in `built`: it succeeds,
/// or else the cosets are built on the heap and the failure is reported.
pub open spec fn spills_or_falls_back<F, T, D: SpillDevice<F>>(
    target: SpillTarget<'_, D>,
    inputs: Seq<Seq<F>>,
    to_extended: T,
    built: BuiltCosets<F, D::Store>,
) -> bool where
    T: for<'a>Fn(PolynomialView<'a, F, Coeff>) -> Polynomial<F, ExtendedLagrangeCoeff>,
 {
    exists|
        computed: Seq<Seq<F>>,
        spilled: Result<MmappedPolys<F, ExtendedLagrangeCoeff, D::Store>, SpillError>,
    |
        {
            &&& #[trigger] transforms::<F, Coeff, ExtendedLagrangeCoeff, T, D>(
                target,
                inputs,
                to_extended,
                computed,
                spilled,
            )
            &&& match spilled {
                Ok(polys) => built.cosets == Cosets::Spilled(polys) && built.spill_error is None,
                Err(e) => built.cosets is Heap && built.spill_error == Some(e),
            }
        }
}

/// Builds the extended-domain cosets of `polys`, spilling them when the policy
/// says so, the host can, and the spill succeeds.
///
/// A spill failure is not fatal: the cosets are then built on the heap, and the
/// failure is handed back beside them. Spilling is sequential, one coset at a
/// time; the heap arm is parallel.
pub fn build_cosets<F, P, T, D>(
    host: Option<&SpillHost<'_, D>>,
    policy: &ProverConfig,
    polys: &[P],
    k: u32,
    to_extended: &T,
) -> (built: BuiltCosets<F, D::Store>) where
    F: Copy + Send + Sync,
    P: PolynomialRead<F, Basis = Coeff> + Sync,
    T: for<'a>Fn(PolynomialView<'a, F, Coeff>) -> Polynomial<F, ExtendedLagrangeCoeff>
        + Send + Sync,
    D: SpillDevice<F>,

    requires
        forall|i: int, view: PolynomialView<'_, F, Coeff>|
            0 <= i < polys@.len() && view.coeffs() == (#[trigger] polys@[i]).coeffs()
                ==> #[trigger] call_requires(*to_extended, (view,)),
    ensures
        all_sent(*to_extended, rows_of(polys@), built.cosets.rows()),
        match host {
            Some(host) if policy.spec_spills_cosets_at(k) && polys@.len() > 0
                => spills_or_falls_back::<F, T, D>(
                target_under(*host, *policy),
                rows_of(polys@),
                *to_extended,
                built,
            ),
            _ => built.cosets is Heap && built.spill_error is None,
        },
{
    let mut spill_error: Option<SpillError> = None;
    match host {
        Some(host) => {
            if will_spill(policy, k, true) && polys.len() > 0 {
                let target = SpillTarget::under(host, policy);
                let spilled = spill_with_transform(&target, polys, to_extended);
                match spilled {
                    Ok(cosets) => {
                        proof {
                            let computed = choose|computed: Seq<Seq<F>>| #[trigger]
                                transforms::<F, Coeff, ExtendedLagrangeCoeff, T, D>(
                                    target,
                                    rows_of(polys@),
                                    *to_extended,
                                    computed,
                                    Ok::<_, SpillError>(cosets),
                                );
                            law_a_transforming_spill_holds_the_outputs::<
                                F,
                                Coeff,
                                ExtendedLagrangeCoeff,
                                T,
                                D,
                            >(target, rows_of(polys@), *to_extended, computed, cosets);
                        }
                        return BuiltCosets { cosets: Cosets::Spilled(cosets), spill_error: None };
                    },
                    Err(error) => {
                        spill_error = Some(error);
                    },
                }
            }
        },
        None => {},
    }
    BuiltCosets { cosets: Cosets::Heap(build_on_heap(polys, to_extended)), spill_error }
}

/// Where cosets live does not change what they are: under any two policies and on
/// any two hosts, the cosets of one batch are the same, provided that the
/// transform gives one output for one input.
pub proof fn law_spilled_and_heap_cosets_agree<F, T>(
    to_extended: T,
    inputs: Seq<Seq<F>>,
    heap: Seq<Seq<F>>,
    spilled: Seq<Seq<F>>,
) where T: for<'a>Fn(PolynomialView<'a, F, Coeff>) -> Polynomial<F, ExtendedLagrangeCoeff>
    requires
        forall|input: Seq<F>, one: Seq<F>, other: Seq<F>|
            #[trigger] sends::<F, Coeff, ExtendedLagrangeCoeff, T>(to_extended, input, one)
                && #[trigger] sends::<F, Coeff, ExtendedLagrangeCoeff, T>(
                to_extended,
                input,
                other,
            ) ==> one == other,
        all_sent(to_extended, inputs, heap),
        all_sent(to_extended, inputs, spilled),
    ensures
        heap == spilled,
{
    assert forall|i: int| 0 <= i < inputs.len() implies heap[i] == spilled[i] by {
        assert(sends::<F, Coeff, ExtendedLagrangeCoeff, T>(to_extended, inputs[i], heap[i]));
        assert(sends::<F, Coeff, ExtendedLagrangeCoeff, T>(to_extended, inputs[i], spilled[i]));
    }
    assert(heap =~= spilled);
}

/// Whether cosets are to be spilled is the policy's word, and whether they will be is
/// also the host's.
pub proof fn law_spilling_takes_the_policy_and_the_host(
    policy: ProverConfig,
    k: u32,
    host_can_spill: bool,
    asked: bool,
    spills: bool,
)
    requires
        call_ensures(should_spill_cosets, (&policy, k), asked),
        call_ensures(will_spill, (&policy, k, host_can_spill), spills),
    ensures
        asked <==> policy.spill_cosets && policy.coset_spill_floor_k <= k,
        !host_can_spill ==> !spills,
        host_can_spill ==> spills == asked,
{
}

/// Each coset is the transform of its polynomial, wherever the cosets live: what is
/// read at position `i` is an output of the transform on a view of polynomial `i`, which
/// are handed back.
pub proof fn law_each_coset_is_the_transform_of_its_polynomial<'v, F, P, T, D>(
    host: Option<&SpillHost<'_, D>>,
    policy: ProverConfig,
    polys: &[P],
    k: u32,
    to_extended: T,
    built: BuiltCosets<F, D::Store>,
    views: Vec<PolynomialView<'_, F, ExtendedLagrangeCoeff>>,
    i: int,
) -> (made: (PolynomialView<'v, F, Coeff>, Polynomial<F, ExtendedLagrangeCoeff>)) where
    F: Copy + Send + Sync,
    P: PolynomialRead<F, Basis = Coeff> + Sync,
    T: for<'a>Fn(PolynomialView<'a, F, Coeff>) -> Polynomial<F, ExtendedLagrangeCoeff>
        + Send + Sync,
    D: SpillDevice<F>,

    requires
        call_ensures(
            build_cosets::<F, P, T, D>,
            (host, &policy, polys, k, &to_extended),
            built,
        ),
        call_ensures(Cosets::<F, D::Store>::views, (&built.cosets,), views),
        0 <= i < polys@.len(),
    ensures
        views@.len() == polys@.len(),
        made.0.coeffs() == polys@[i].coeffs(),
        call_ensures(to_extended, (made.0,), made.1),
        views@[i].coeffs() == made.1.values@,
{
    let rows = rows_of(polys@);
    let cosets = built.cosets.rows();
    assert(sends::<F, Coeff, ExtendedLagrangeCoeff, T>(to_extended, rows[i], cosets[i]));
    assert(rows_of(views@)[i] == cosets[i]);
    choose|view: PolynomialView<'_, F, Coeff>, poly: Polynomial<F, ExtendedLagrangeCoeff>|
        {
            &&& view.coeffs() == rows[i]
            &&& poly.coeffs() == cosets[i]
            &&& #[trigger] call_ensures(to_extended, (view,), poly)
        }
}

/// Cosets stay on the heap, without a failure, where the host cannot spill, the policy
/// does not ask for it, the circuit is below the floor, or there is nothing to spill.
/// Otherwise they are on the heap only beside the failure that put them there.
pub proof fn law_cosets_are_on_the_heap_for_a_reason<F, P, T, D>(
    host: Option<&SpillHost<'_, D>>,
    policy: ProverConfig,
    polys: &[P],
    k: u32,
    to_extended: T,
    built: BuiltCosets<F, D::Store>,
) where
    F: Copy + Send + Sync,
    P: PolynomialRead<F, Basis = Coeff> + Sync,
    T: for<'a>Fn(PolynomialView<'a, F, Coeff>) -> Polynomial<F, ExtendedLagrangeCoeff>
        + Send + Sync,
    D: SpillDevice<F>,

    requires
        call_ensures(
            build_cosets::<F, P, T, D>,
            (host, &policy, polys, k, &to_extended),
            built,
        ),
    ensures
        host is None || !policy.spill_cosets || k < policy.coset_spill_floor_k || polys@.len() == 0
            ==> built.cosets is Heap && built.spill_error is None,
        host is Some && policy.spill_cosets && policy.coset_spill_floor_k <= k && polys@.len() > 0
            ==> (built.cosets is Heap <==> built.spill_error is Some),
{
}

/// Cosets that are to be spilled are, whenever the device's steps succeed, however many
/// and however long they are.
pub proof fn law_cosets_are_spilled_when_the_steps_succeed<F, P, T, D>(
    host: SpillHost<'_, D>,
    policy: ProverConfig,
    polys: &[P],
    k: u32,
    to_extended: T,
    width: usize,
    built: BuiltCosets<F, D::Store>,
) where
    F: Copy + Send + Sync,
    P: PolynomialRead<F, Basis = Coeff> + Sync,
    T: for<'a>Fn(PolynomialView<'a, F, Coeff>) -> Polynomial<F, ExtendedLagrangeCoeff>
        + Send + Sync,
    D: SpillDevice<F>,

    requires
        call_ensures(
            build_cosets::<F, P, T, D>,
            (Some(&host), &policy, polys, k, &to_extended),
            built,
        ),
        policy.spill_cosets,
        policy.coset_spill_floor_k <= k,
        0 < polys@.len() <= usize::MAX,
        forall|view: PolynomialView<'_, F, Coeff>, poly: Polynomial<F, ExtendedLagrangeCoeff>|
            #[trigger] call_ensures(to_extended, (view,), poly) ==> poly.values@.len() == width,
        0 < vstd::layout::size_of::<F>(),
        0 < width,
        polys@.len() * width * vstd::layout::size_of::<F>() <= usize::MAX,
        host.platform matches Platform::Fallocate { max_offset } ==> polys@.len() * width
            * vstd::layout::size_of::<F>() <= max_offset,
        host.platform matches Platform::Preallocate { max_offset } ==> polys@.len() * width
            * vstd::layout::size_of::<F>() <= max_offset,
        forall|made: Result<D::File, IoFailure>| #[trigger]
            call_ensures(D::tempfile, (host.device,), made) ==> made is Ok,
        forall|dir: String, made: Result<D::File, IoFailure>| #[trigger]
            call_ensures(D::tempfile_in, (host.device, &dir), made) ==> made is Ok,
        forall|f: D::File, len: i64, outcome: Result<D::File, IoFailure>| #[trigger]
            call_ensures(D::posix_fallocate, (host.device, f, len), outcome) ==> outcome is Ok,
        forall|f: D::File, len: i64, contiguous: bool, outcome: Preallocation<D::File>| #[trigger]
            call_ensures(D::preallocate, (host.device, f, len, contiguous), outcome)
                ==> outcome is Reserved && outcome->Reserved_1 >= len,
        forall|f: D::File, len: u64, outcome: Result<D::File, IoFailure>| #[trigger]
            call_ensures(D::set_len, (host.device, f, len), outcome) ==> outcome is Ok,
        forall|f: D::File, len: usize, outcome: Result<D::File, IoFailure>| #[trigger]
            call_ensures(D::write_zeros, (host.device, f, len), outcome) ==> outcome is Ok,
        forall|f: D::File, outcome: Result<D::File, IoFailure>| #[trigger]
            call_ensures(D::flush, (host.device, f), outcome) ==> outcome is Ok,
        forall|f: D::File, len: usize, mapped: Result<Mapping<D::Store>, IoFailure>| #[trigger]
            call_ensures(D::map, (host.device, f, len), mapped) ==> mapped is Ok
                && mapped->Ok_0.store.slots().len() * vstd::layout::size_of::<F>() == len
                && mapped->Ok_0.base as nat % vstd::layout::align_of::<F>() == 0,
        forall|filled: D::Store, sealed: Result<D::Store, IoFailure>| #[trigger]
            call_ensures(D::Store::seal, (filled,), sealed) ==> sealed is Ok,
    ensures
        built.cosets is Spilled,
        built.spill_error is None,
{
    let target = target_under(host, policy);
    let rows = rows_of(polys@);
    let (computed, spilled) = choose|
        computed: Seq<Seq<F>>,
        spilled: Result<MmappedPolys<F, ExtendedLagrangeCoeff, D::Store>, SpillError>,
    |
        {
            &&& #[trigger] transforms::<F, Coeff, ExtendedLagrangeCoeff, T, D>(
                target,
                rows,
                to_extended,
                computed,
                spilled,
            )
            &&& match spilled {
                Ok(polys) => built.cosets == Cosets::Spilled(polys) && built.spill_error is None,
                Err(e) => built.cosets is Heap && built.spill_error == Some(e),
            }
        };
    lemma_outputs_are_spilled::<F, Coeff, ExtendedLagrangeCoeff, T, D>(
        target,
        rows,
        to_extended,
        width,
        computed,
        spilled,
    );
}

/// Cosets that are spilled are spilled on the host's device, into the directory of the
/// policy if it names one. The file is handed back.
pub proof fn law_cosets_are_spilled_where_the_policy_says<F, P, T, D>(
    host: SpillHost<'_, D>,
    policy: ProverConfig,
    polys: &[P],
    k: u32,
    to_extended: T,
    built: BuiltCosets<F, D::Store>,
    dir: String,
) -> (file: D::File) where
    F: Copy + Send + Sync,
    P: PolynomialRead<F, Basis = Coeff> + Sync,
    T: for<'a>Fn(PolynomialView<'a, F, Coeff>) -> Polynomial<F, ExtendedLagrangeCoeff>
        + Send + Sync,
    D: SpillDevice<F>,

    requires
        call_ensures(
            build_cosets::<F, P, T, D>,
            (Some(&host), &policy, polys, k, &to_extended),
            built,
        ),
        built.cosets is Spilled,
        policy.spill_dir == Some(dir),
        dir@.len() > 0,
    ensures
        call_ensures(D::tempfile_in, (host.device, &dir), Ok::<_, IoFailure>(file)),
{
    let target = target_under(host, policy);
    let rows = rows_of(polys@);
    let (computed, spilled) = choose|
        computed: Seq<Seq<F>>,
        spilled: Result<MmappedPolys<F, ExtendedLagrangeCoeff, D::Store>, SpillError>,
    |
        {
            &&& #[trigger] transforms::<F, Coeff, ExtendedLagrangeCoeff, T, D>(
                target,
                rows,
                to_extended,
                computed,
                spilled,
            )
            &&& spilled is Ok
        };
    lemma_a_spill_is_in_the_requested_directory(
        target,
        padded(computed, rows.len()),
        rows.len() as usize,
        computed[0].len() as usize,
        spilled->Ok_0,
        dir,
    )
}

/// Cosets that cannot be spilled because the policy's directory takes no file are on the
/// heap, and that is what is reported.
pub proof fn law_a_bad_directory_is_reported_beside_the_cosets<F, P, T, D>(
    host: SpillHost<'_, D>,
    policy: ProverConfig,
    polys: &[P],
    k: u32,
    to_extended: T,
    width: usize,
    built: BuiltCosets<F, D::Store>,
    dir: String,
    cause: IoFailure,
) where
    F: Copy + Send + Sync,
    P: PolynomialRead<F, Basis = Coeff> + Sync,
    T: for<'a>Fn(PolynomialView<'a, F, Coeff>) -> Polynomial<F, ExtendedLagrangeCoeff>
        + Send + Sync,
    D: SpillDevice<F>,

    requires
        call_ensures(
            build_cosets::<F, P, T, D>,
            (Some(&host), &policy, polys, k, &to_extended),
            built,
        ),
        policy.spill_cosets,
        policy.coset_spill_floor_k <= k,
        0 < polys@.len() <= usize::MAX,
        forall|view: PolynomialView<'_, F, Coeff>, poly: Polynomial<F, ExtendedLagrangeCoeff>|
            #[trigger] call_ensures(to_extended, (view,), poly) ==> poly.values@.len() == width,
        0 < vstd::layout::size_of::<F>(),
        0 < width,
        polys@.len() * width * vstd::layout::size_of::<F>() <= usize::MAX,
        policy.spill_dir == Some(dir),
        dir@.len() > 0,
        forall|made: Result<D::File, IoFailure>| #[trigger]
            call_ensures(D::tempfile_in, (host.device, &dir), made) ==> made is Err && made->Err_0
                == cause,
    ensures
        built.cosets is Heap,
        built.spill_error == Some(SpillError::CreateTempFile { dir: Some(dir), cause }),
{
    let target = target_under(host, policy);
    let rows = rows_of(polys@);
    let (computed, spilled) = choose|
        computed: Seq<Seq<F>>,
        spilled: Result<MmappedPolys<F, ExtendedLagrangeCoeff, D::Store>, SpillError>,
    |
        {
            &&& #[trigger] transforms::<F, Coeff, ExtendedLagrangeCoeff, T, D>(
                target,
                rows,
                to_extended,
                computed,
                spilled,
            )
            &&& match spilled {
                Ok(polys) => built.cosets == Cosets::Spilled(polys) && built.spill_error is None,
                Err(e) => built.cosets is Heap && built.spill_error == Some(e),
            }
        };
    assert(sends::<F, Coeff, ExtendedLagrangeCoeff, T>(to_extended, rows[0], computed[0]));
    law_a_bad_directory_fails_the_spill(
        target,
        padded(computed, rows.len()),
        rows.len() as usize,
        computed[0].len() as usize,
        spilled,
        dir,
        cause,
    );
}

} // verus!
