//! Proving keys: where their polynomials live, and their bytes.
use std::sync::Arc;

use vstd::prelude::*;

use crate::bytes::{left_of, lemma_left_of_left, surfaced, ByteReader, ByteSource};
use crate::config::{process_policy, PolicyVars, ProverConfig};
use crate::encoding::{
    all_pass, all_read_back, batch_encoded, batch_length, batch_parsed, law_batches_read_back,
    lengths_fit, polynomial_slice_byte_length, read_polynomial_vec, reprs_of, row_lengths,
    row_reprs, rows_pass, rows_read_back, write_polynomial_slice, Parsed, ProcessedSerdeObject,
    SerdeFormat,
};
use crate::error::{IoFailure, ReadError, SpillError};
use crate::field::KeyField;
use crate::plonk::device::{
    target_under, Mapping, Platform, Preallocation, SpillDevice, SpillHost, SpillTarget,
};
use crate::plonk::mmap_pk::{
    law_a_bad_directory_fails_the_spill, law_a_spill_holds_what_was_spilled,
    law_the_first_row_out_of_place_decides,
    lemma_a_spill_is_in_the_requested_directory, lemma_the_rows_decide, spill_vec_to_disk, spills,
    MmappedPolys,
};
use crate::plonk::stage::{
    report_stage, stage_names, stages_reported, StageMonitor, Unmonitored,
};
use crate::plonk::system::{
    Circuit, ConstraintSystem, EvaluationDomain, LagrangePolys, ProofSystem,
};
use crate::plonk::vk::{
    built_from, law_a_verifying_key_is_read_where_it_lies, law_verifying_keys_read_back, no_rows,
    vk_encoded, vk_parsed, KeyParts, VerifyingKey,
};
use crate::poly::view::{polynomial_views, rows_of, PolynomialRead, PolynomialView};
use crate::poly::{clone_polys, Coeff, ExtendedLagrangeCoeff, LagrangeCoeff, Polynomial};
use crate::store::{share, MappedStore, SpillStore};

verus! {

/// The permutation polynomials of a circuit.
pub struct PermutationProvingKey<F> {
    /// Their evaluations.
    pub permutations: Vec<Polynomial<F, LagrangeCoeff>>,
    /// Their coefficients.
    pub polys: Vec<Polynomial<F, Coeff>>,
    /// Their evaluations over the extended domain.
    pub cosets: Vec<Polynomial<F, ExtendedLagrangeCoeff>>,
}

/// A proving key, which allows for the creation of proofs for a particular
/// circuit.
///
/// Three of its batches can live in a mapped file. While one does, the vector
/// beside it is empty ([`ProvingKey::stored_once`]), and the batch is read through
/// the accessor of views.
pub struct ProvingKey<F: KeyField, C: ProcessedSerdeObject, E, M: MappedStore<F>> {
    /// The verifying key.
    pub vk: VerifyingKey<F, C>,
    /// One in the first row, and zero in the others.
    pub l0: Polynomial<F, ExtendedLagrangeCoeff>,
    /// One in the last usable row, and zero in the others.
    pub l_last: Polynomial<F, ExtendedLagrangeCoeff>,
    /// One in the active rows, and zero in the others.
    pub l_active_row: Polynomial<F, ExtendedLagrangeCoeff>,
    /// The evaluations of the fixed columns.
    pub fixed_values: Vec<Polynomial<F, LagrangeCoeff>>,
    /// The coefficients of the fixed columns.
    pub fixed_polys: Vec<Polynomial<F, Coeff>>,
    /// The evaluations of the fixed columns over the extended domain.
    pub fixed_cosets: Vec<Polynomial<F, ExtendedLagrangeCoeff>>,
    /// The permutation polynomials.
    pub permutation: PermutationProvingKey<F>,
    /// The compiled gates.
    pub ev: E,
    /// The batch `fixed_polys`, if it is mapped.
    pub fixed_polys_mmap: Option<Arc<MmappedPolys<F, Coeff, M>>>,
    /// The batch `fixed_values`, if it is mapped.
    pub fixed_values_mmap: Option<Arc<MmappedPolys<F, LagrangeCoeff, M>>>,
    /// The batch `permutation.polys`, if it is mapped.
    pub permutation_polys_mmap: Option<Arc<MmappedPolys<F, Coeff, M>>>,
}

/// The values of a batch that is on the heap or mapped.
pub open spec fn rows_in<F, B, M: MappedStore<F>>(
    heap: Seq<Polynomial<F, B>>,
    mapped: Option<Arc<MmappedPolys<F, B, M>>>,
) -> Seq<Seq<F>> {
    match mapped {
        Some(polys) => polys.rows(),
        None => rows_of(heap),
    }
}

/// Borrows a batch that is on the heap or mapped.
fn views_in<'a, F, B, M: MappedStore<F>>(
    heap: &'a Vec<Polynomial<F, B>>,
    mapped: &'a Option<Arc<MmappedPolys<F, B, M>>>,
) -> (views: Vec<PolynomialView<'a, F, B>>)
    ensures
        views@.len() == rows_in(heap@, *mapped).len(),
        rows_of(views@) == rows_in(heap@, *mapped),
{
    match mapped {
        Some(polys) => polys.views(),
        None => polynomial_views(heap.as_slice()),
    }
}

/// Whether moving a batch into a mapped file can end in `outcome`, with the batch
/// then in `heap_after` and `mapped_after`.
///
/// A batch that is mapped already, or that is empty, stays as it is. Any other
/// leaves the heap, and is lost if the spill fails.
pub open spec fn moves<F, B, D: SpillDevice<F>>(
    target: SpillTarget<'_, D>,
    heap: Seq<Polynomial<F, B>>,
    mapped: Option<Arc<MmappedPolys<F, B, D::Store>>>,
    heap_after: Seq<Polynomial<F, B>>,
    mapped_after: Option<Arc<MmappedPolys<F, B, D::Store>>>,
    outcome: Result<(), SpillError>,
) -> bool {
    if mapped is Some || heap.len() == 0 {
        outcome is Ok && heap_after == heap && mapped_after == mapped
    } else {
        exists|spilled: Result<MmappedPolys<F, B, D::Store>, SpillError>|
            {
                &&& #[trigger] spills(
                    target,
                    rows_of(heap),
                    heap.len() as usize,
                    heap[0].coeffs().len() as usize,
                    spilled,
                )
                &&& heap_after.len() == 0
                &&& match spilled {
                    Ok(polys) => {
                        &&& outcome is Ok
                        &&& mapped_after matches Some(shared)
                        &&& *shared == polys
                    },
                    Err(e) => outcome == Err::<(), SpillError>(e) && mapped_after is None,
                }
            }
    }
}

/// A batch that was moved holds what it held, and a batch that is mapped, or that
/// is empty, is not moved again.
pub proof fn law_moving_keeps_the_values<F, B, D: SpillDevice<F>>(
    target: SpillTarget<'_, D>,
    heap: Seq<Polynomial<F, B>>,
    mapped: Option<Arc<MmappedPolys<F, B, D::Store>>>,
    heap_after: Seq<Polynomial<F, B>>,
    mapped_after: Option<Arc<MmappedPolys<F, B, D::Store>>>,
)
    requires
        heap.len() <= usize::MAX,
        moves(target, heap, mapped, heap_after, mapped_after, Ok::<(), SpillError>(())),
    ensures
        rows_in(heap_after, mapped_after) == rows_in(heap, mapped),
        mapped_after is Some || heap_after.len() == 0,
        mapped_after is Some <==> mapped is Some || heap.len() > 0,
{
    if mapped is Some || heap.len() == 0 {
    } else {
        let n = heap.len() as usize;
        let width = heap[0].coeffs().len() as usize;
        let spilled = choose|spilled: Result<MmappedPolys<F, B, D::Store>, SpillError>|
            {
                &&& #[trigger] spills(target, rows_of(heap), n, width, spilled)
                &&& match spilled {
                    Ok(polys) => mapped_after matches Some(shared) && *shared == polys,
                    Err(e) => false,
                }
            };
        law_a_spill_holds_what_was_spilled(target, rows_of(heap), n, width, spilled->Ok_0);
    }
}

/// Moves a batch into a mapped file.
fn move_to_mmap<F, B, D>(
    target: &SpillTarget<'_, D>,
    heap: &mut Vec<Polynomial<F, B>>,
    mapped: &mut Option<Arc<MmappedPolys<F, B, D::Store>>>,
) -> (outcome: Result<(), SpillError>) where F: Copy, D: SpillDevice<F>
    ensures
        moves(*target, old(heap)@, *old(mapped), final(heap)@, *final(mapped), outcome),
{
    if mapped.is_some() {
        return Ok(());
    }
    if heap.len() == 0 {
        return Ok(());
    }
    let n_per_poly: usize = heap[0].values.len();
    let mut polys: Vec<Polynomial<F, B>> = Vec::new();
    std::mem::swap(&mut polys, heap);
    let ghost batch = polys@;
    let spilled = spill_vec_to_disk(target, polys, n_per_poly);
    assert(spills(
        *target,
        rows_of(batch),
        batch.len() as usize,
        batch[0].coeffs().len() as usize,
        spilled,
    ));
    match spilled {
        Ok(polys) => {
            *mapped = Some(Arc::new(polys));
            Ok(())
        },
        Err(e) => Err(e),
    }
}

/// What the bytes of a proving key hold.
#[verifier::ext_equal]
pub struct ProvingKeyParts {
    /// What the bytes of the verifying key hold.
    pub vk: KeyParts,
    /// The evaluations of the fixed columns.
    pub fixed: Seq<Seq<Seq<u8>>>,
    /// The evaluations of the permutation polynomials.
    pub permutation: Seq<Seq<Seq<u8>>>,
}

/// A proving key as bytes: the verifying key, the fixed columns and the
/// permutation polynomials.
pub open spec fn pk_encoded<F: ProcessedSerdeObject, C: ProcessedSerdeObject>(
    parts: ProvingKeyParts,
    format: SerdeFormat,
) -> Seq<u8> {
    vk_encoded::<C>(parts.vk, format) + batch_encoded::<F>(parts.fixed, format) + batch_encoded::<
        F,
    >(parts.permutation, format)
}

/// A proving key at the front of `input`, for a circuit with this number of
/// permutation columns.
pub open spec fn pk_parsed<F: ProcessedSerdeObject, C: ProcessedSerdeObject>(
    input: Seq<u8>,
    format: SerdeFormat,
    max_k: u32,
    columns: usize,
) -> Parsed<ProvingKeyParts> {
    match vk_parsed::<C>(input, format, max_k, columns) {
        Err(e) => Err(e),
        Ok((vk, rest)) => match batch_parsed::<F>(rest, format) {
            Err(e) => Err(e),
            Ok((fixed, rest)) => match batch_parsed::<F>(rest, format) {
                Err(e) => Err(e),
                Ok((permutation, rest)) => Ok((ProvingKeyParts { vk, fixed, permutation }, rest)),
            },
        },
    }
}

/// Whether every count and length of a key fits in the 32 bits that it is stored
/// in.
pub open spec fn key_fits(parts: ProvingKeyParts) -> bool {
    &&& parts.vk.fixed.len() < 0x1_0000_0000
    &&& parts.vk.permutation.len() < 0x1_0000_0000
    &&& lengths_fit(parts.fixed)
    &&& lengths_fit(parts.permutation)
}

/// Whether every commitment and every value of a key is read back.
pub open spec fn key_reads_back<F: ProcessedSerdeObject, C: ProcessedSerdeObject>(
    parts: ProvingKeyParts,
    format: SerdeFormat,
) -> bool {
    &&& all_read_back::<C>(parts.vk.fixed, format)
    &&& all_read_back::<C>(parts.vk.permutation, format)
    &&& rows_read_back::<F>(parts.fixed, format)
    &&& rows_read_back::<F>(parts.permutation, format)
}

/// Whether every commitment and every value of a key passes the checks of the
/// format.
pub open spec fn key_passes<F: ProcessedSerdeObject, C: ProcessedSerdeObject>(
    parts: ProvingKeyParts,
    format: SerdeFormat,
) -> bool {
    &&& all_pass::<C>(parts.vk.fixed, format)
    &&& all_pass::<C>(parts.vk.permutation, format)
    &&& rows_pass::<F>(parts.fixed, format)
    &&& rows_pass::<F>(parts.permutation, format)
}

/// A proving key is read back as it was written, whatever comes after it.
pub proof fn law_proving_keys_read_back<F: ProcessedSerdeObject, C: ProcessedSerdeObject>(
    parts: ProvingKeyParts,
    format: SerdeFormat,
    max_k: u32,
    rest: Seq<u8>,
)
    requires
        parts.vk.k <= max_k,
        key_fits(parts),
        key_reads_back::<F, C>(parts, format),
    ensures
        pk_parsed::<F, C>(
            pk_encoded::<F, C>(parts, format) + rest,
            format,
            max_k,
            parts.vk.permutation.len() as usize,
        ) == Ok::<_, ReadError>((parts, rest)),
{
    let after_fixed = batch_encoded::<F>(parts.permutation, format) + rest;
    let after_vk = batch_encoded::<F>(parts.fixed, format) + after_fixed;
    assert(pk_encoded::<F, C>(parts, format) + rest =~= vk_encoded::<C>(parts.vk, format)
        + after_vk);
    law_verifying_keys_read_back::<C>(parts.vk, format, max_k, after_vk);
    law_batches_read_back::<F>(parts.fixed, format, after_fixed);
    law_batches_read_back::<F>(parts.permutation, format, rest);
}

impl<F: KeyField, C: ProcessedSerdeObject, E, M: MappedStore<F>> ProvingKey<F, C, E, M> {
    /// The coefficients of the fixed columns, wherever they live.
    pub open spec fn fixed_polys_rows(&self) -> Seq<Seq<F>> {
        rows_in(self.fixed_polys@, self.fixed_polys_mmap)
    }

    /// The evaluations of the fixed columns, wherever they live.
    pub open spec fn fixed_values_rows(&self) -> Seq<Seq<F>> {
        rows_in(self.fixed_values@, self.fixed_values_mmap)
    }

    /// The coefficients of the permutation polynomials, wherever they live.
    pub open spec fn permutation_polys_rows(&self) -> Seq<Seq<F>> {
        rows_in(self.permutation.polys@, self.permutation_polys_mmap)
    }

    /// What the key's bytes hold.
    pub open spec fn parts(&self) -> ProvingKeyParts {
        ProvingKeyParts {
            vk: self.vk.parts(),
            fixed: row_reprs(self.fixed_values_rows()),
            permutation: row_reprs(rows_of(self.permutation.permutations@)),
        }
    }

    /// The number of bytes of the key.
    pub open spec fn spec_bytes_length(&self, format: SerdeFormat) -> nat {
        self.vk.spec_bytes_length(format) + batch_length(
            row_lengths(self.fixed_values_rows()),
            F::spec_byte_length(format),
        ) + batch_length(
            row_lengths(rows_of(self.permutation.permutations@)),
            F::spec_byte_length(format),
        )
    }

    /// Reads `fixed_polys`, whether it is on the heap or mapped.
    pub fn fixed_polys_views(&self) -> (views: Vec<PolynomialView<'_, F, Coeff>>)
        ensures
            views@.len() == self.fixed_polys_rows().len(),
            rows_of(views@) == self.fixed_polys_rows(),
    {
        views_in(&self.fixed_polys, &self.fixed_polys_mmap)
    }

    /// Reads `fixed_values`, whether it is on the heap or mapped.
    pub fn fixed_values_views(&self) -> (views: Vec<PolynomialView<'_, F, LagrangeCoeff>>)
        ensures
            views@.len() == self.fixed_values_rows().len(),
            rows_of(views@) == self.fixed_values_rows(),
    {
        views_in(&self.fixed_values, &self.fixed_values_mmap)
    }

    /// Reads `permutation.polys`, whether it is on the heap or mapped.
    pub fn permutation_polys_views(&self) -> (views: Vec<PolynomialView<'_, F, Coeff>>)
        ensures
            views@.len() == self.permutation_polys_rows().len(),
            rows_of(views@) == self.permutation_polys_rows(),
    {
        views_in(&self.permutation.polys, &self.permutation_polys_mmap)
    }

    /// The verifying key.
    pub fn get_vk(&self) -> (vk: &VerifyingKey<F, C>)
        ensures
            *vk == self.vk,
    {
        &self.vk
    }

    /// The number of bytes of the key.
    pub fn bytes_length(&self, format: SerdeFormat) -> (length: usize)
        requires
            self.spec_bytes_length(format) <= usize::MAX,
        ensures
            length == self.spec_bytes_length(format),
    {
        let fixed_values = self.fixed_values_views();
        self.vk.bytes_length(format) + polynomial_slice_byte_length(
            fixed_values.as_slice(),
            format,
        ) + polynomial_slice_byte_length(self.permutation.permutations.as_slice(), format)
    }

    /// Appends the key's bytes.
    pub fn write(&self, out: &mut Vec<u8>, format: SerdeFormat)
        ensures
            final(out)@ == old(out)@ + pk_encoded::<F, C>(self.parts(), format),
            pk_encoded::<F, C>(self.parts(), format).len() == self.spec_bytes_length(format),
            key_passes::<F, C>(self.parts(), format) ==> key_reads_back::<F, C>(
                self.parts(),
                format,
            ),
            self.parts().vk.k <= F::spec_s(),
    {
        let ghost start = out@;
        self.vk.write(out, format);
        let fixed_values = self.fixed_values_views();
        write_polynomial_slice(fixed_values.as_slice(), out, format);
        write_polynomial_slice(self.permutation.permutations.as_slice(), out, format);
        assert(out@ =~= start + pk_encoded::<F, C>(self.parts(), format));
    }

    /// The key's bytes. Reading them gives back what the key holds.
    pub fn to_bytes(&self, format: SerdeFormat) -> (bytes: Vec<u8>)
        ensures
            bytes@ == pk_encoded::<F, C>(self.parts(), format),
            bytes@.len() == self.spec_bytes_length(format),
            key_passes::<F, C>(self.parts(), format) && key_fits(self.parts()) ==> pk_parsed::<
                F,
                C,
            >(
                bytes@,
                format,
                F::spec_s(),
                self.parts().vk.permutation.len() as usize,
            ) == Ok::<_, ReadError>((self.parts(), Seq::<u8>::empty())),
    {
        let mut bytes: Vec<u8> = Vec::new();
        self.write(&mut bytes, format);
        proof {
            let encoded = pk_encoded::<F, C>(self.parts(), format);
            assert(bytes@ =~= encoded);
            if key_passes::<F, C>(self.parts(), format) && key_fits(self.parts()) {
                law_proving_keys_read_back::<F, C>(
                    self.parts(),
                    format,
                    F::spec_s(),
                    Seq::<u8>::empty(),
                );
                assert(encoded + Seq::<u8>::empty() =~= encoded);
            }
        }
        bytes
    }
}

/// Clones a batch of polynomials, row for row.
fn clone_rows<F: Copy, B>(polys: &Vec<Polynomial<F, B>>) -> (copy: Vec<Polynomial<F, B>>)
    ensures
        rows_of(copy@) == rows_of(polys@),
{
    let copy = clone_polys(polys.as_slice());
    assert(rows_of(copy@) =~= rows_of(polys@));
    copy
}

/// Another handle on a mapped batch, if there is one.
fn share_batch<F, B, M: MappedStore<F>>(mapped: &Option<Arc<MmappedPolys<F, B, M>>>) -> (shared:
    Option<Arc<MmappedPolys<F, B, M>>>)
    ensures
        shared == *mapped,
{
    match mapped {
        Some(polys) => Some(share(polys)),
        None => None,
    }
}

impl<F: KeyField, C: ProcessedSerdeObject, E, M: MappedStore<F>> ProvingKey<F, C, E, M> {
    /// Whether no batch is both mapped and on the heap.
    pub open spec fn stored_once(&self) -> bool {
        &&& self.fixed_polys_mmap is Some ==> self.fixed_polys@.len() == 0
        &&& self.fixed_values_mmap is Some ==> self.fixed_values@.len() == 0
        &&& self.permutation_polys_mmap is Some ==> self.permutation.polys@.len() == 0
    }
}

/// Batches with the same rows have the same number of polynomials.
proof fn lemma_same_number_of_rows<F, B>(one: Seq<Polynomial<F, B>>, other: Seq<Polynomial<F, B>>)
    requires
        rows_of(one) == rows_of(other),
    ensures
        one.len() == other.len(),
{
    assert(rows_of(one).len() == one.len() && rows_of(other).len() == other.len());
}

impl<F: KeyField, C: ProcessedSerdeObject + Copy, E: Clone, M: MappedStore<F>> Clone for ProvingKey<
    F,
    C,
    E,
    M,
> {
    /// Batches that are mapped are shared and not copied.
    fn clone(&self) -> (copy: Self)
        ensures
            copy.parts() == self.parts(),
            copy.vk.spec_domain() == self.vk.spec_domain(),
            copy.vk.spec_cs() == self.vk.spec_cs(),
            copy.vk.spec_transcript_repr() == self.vk.spec_transcript_repr(),
            copy.l0.coeffs() == self.l0.coeffs(),
            copy.l_last.coeffs() == self.l_last.coeffs(),
            copy.l_active_row.coeffs() == self.l_active_row.coeffs(),
            copy.fixed_polys_rows() == self.fixed_polys_rows(),
            copy.fixed_values_rows() == self.fixed_values_rows(),
            copy.permutation_polys_rows() == self.permutation_polys_rows(),
            rows_of(copy.fixed_cosets@) == rows_of(self.fixed_cosets@),
            rows_of(copy.permutation.cosets@) == rows_of(self.permutation.cosets@),
            rows_of(copy.fixed_polys@) == rows_of(self.fixed_polys@),
            rows_of(copy.fixed_values@) == rows_of(self.fixed_values@),
            rows_of(copy.permutation.polys@) == rows_of(self.permutation.polys@),
            rows_of(copy.permutation.permutations@) == rows_of(self.permutation.permutations@),
            copy.stored_once() == self.stored_once(),
            cloned(self.ev, copy.ev),
            copy.fixed_polys_mmap == self.fixed_polys_mmap,
            copy.fixed_values_mmap == self.fixed_values_mmap,
            copy.permutation_polys_mmap == self.permutation_polys_mmap,
    {
        let copy = ProvingKey {
            vk: self.vk.clone(),
            l0: self.l0.clone(),
            l_last: self.l_last.clone(),
            l_active_row: self.l_active_row.clone(),
            fixed_values: clone_rows(&self.fixed_values),
            fixed_polys: clone_rows(&self.fixed_polys),
            fixed_cosets: clone_rows(&self.fixed_cosets),
            permutation: PermutationProvingKey {
                permutations: clone_rows(&self.permutation.permutations),
                polys: clone_rows(&self.permutation.polys),
                cosets: clone_rows(&self.permutation.cosets),
            },
            ev: self.ev.clone(),
            fixed_polys_mmap: share_batch(&self.fixed_polys_mmap),
            fixed_values_mmap: share_batch(&self.fixed_values_mmap),
            permutation_polys_mmap: share_batch(&self.permutation_polys_mmap),
        };
        proof {
            lemma_same_number_of_rows(copy.fixed_polys@, self.fixed_polys@);
            lemma_same_number_of_rows(copy.fixed_values@, self.fixed_values@);
            lemma_same_number_of_rows(copy.permutation.polys@, self.permutation.polys@);
        }
        copy
    }
}

/// Whether two keys differ at most in where their batches live, and in the
/// cosets.
pub open spec fn same_but_storage<F: KeyField, C: ProcessedSerdeObject, E, M: MappedStore<F>>(
    before: ProvingKey<F, C, E, M>,
    after: ProvingKey<F, C, E, M>,
) -> bool {
    &&& after.vk == before.vk
    &&& after.l0 == before.l0
    &&& after.l_last == before.l_last
    &&& after.l_active_row == before.l_active_row
    &&& after.permutation.permutations == before.permutation.permutations
    &&& after.ev == before.ev
}

/// Whether two keys hold the same cosets.
pub open spec fn same_cosets<F: KeyField, C: ProcessedSerdeObject, E, M: MappedStore<F>>(
    before: ProvingKey<F, C, E, M>,
    after: ProvingKey<F, C, E, M>,
) -> bool {
    &&& after.fixed_cosets == before.fixed_cosets
    &&& after.permutation.cosets == before.permutation.cosets
}

/// Whether two keys hold the batch `fixed_polys` alike.
pub open spec fn same_fixed_polys<F: KeyField, C: ProcessedSerdeObject, E, M: MappedStore<F>>(
    before: ProvingKey<F, C, E, M>,
    after: ProvingKey<F, C, E, M>,
) -> bool {
    &&& after.fixed_polys == before.fixed_polys
    &&& after.fixed_polys_mmap == before.fixed_polys_mmap
}

/// Whether two keys hold the batch `fixed_values` alike.
pub open spec fn same_fixed_values<F: KeyField, C: ProcessedSerdeObject, E, M: MappedStore<F>>(
    before: ProvingKey<F, C, E, M>,
    after: ProvingKey<F, C, E, M>,
) -> bool {
    &&& after.fixed_values == before.fixed_values
    &&& after.fixed_values_mmap == before.fixed_values_mmap
}

/// Whether two keys hold the batch `permutation.polys` alike.
pub open spec fn same_permutation_polys<
    F: KeyField,
    C: ProcessedSerdeObject,
    E,
    M: MappedStore<F>,
>(before: ProvingKey<F, C, E, M>, after: ProvingKey<F, C, E, M>) -> bool {
    &&& after.permutation.polys == before.permutation.polys
    &&& after.permutation_polys_mmap == before.permutation_polys_mmap
}

/// Whether moving the batch `fixed_polys` can end in `outcome`.
pub open spec fn moves_fixed_polys<F: KeyField, C: ProcessedSerdeObject, E, D: SpillDevice<F>>(
    target: SpillTarget<'_, D>,
    before: ProvingKey<F, C, E, D::Store>,
    after: ProvingKey<F, C, E, D::Store>,
    outcome: Result<(), SpillError>,
) -> bool {
    moves(
        target,
        before.fixed_polys@,
        before.fixed_polys_mmap,
        after.fixed_polys@,
        after.fixed_polys_mmap,
        outcome,
    )
}

/// Whether moving the batch `fixed_values` can end in `outcome`.
pub open spec fn moves_fixed_values<F: KeyField, C: ProcessedSerdeObject, E, D: SpillDevice<F>>(
    target: SpillTarget<'_, D>,
    before: ProvingKey<F, C, E, D::Store>,
    after: ProvingKey<F, C, E, D::Store>,
    outcome: Result<(), SpillError>,
) -> bool {
    moves(
        target,
        before.fixed_values@,
        before.fixed_values_mmap,
        after.fixed_values@,
        after.fixed_values_mmap,
        outcome,
    )
}

/// Whether moving the batch `permutation.polys` can end in `outcome`.
pub open spec fn moves_permutation_polys<
    F: KeyField,
    C: ProcessedSerdeObject,
    E,
    D: SpillDevice<F>,
>(
    target: SpillTarget<'_, D>,
    before: ProvingKey<F, C, E, D::Store>,
    after: ProvingKey<F, C, E, D::Store>,
    outcome: Result<(), SpillError>,
) -> bool {
    moves(
        target,
        before.permutation.polys@,
        before.permutation_polys_mmap,
        after.permutation.polys@,
        after.permutation_polys_mmap,
        outcome,
    )
}

/// Whether moving all three batches can end in `outcome`: the first failure ends
/// it, and the batches that come after stay as they are. The cosets are dropped
/// when all three have been moved.
pub open spec fn moves_all<F: KeyField, C: ProcessedSerdeObject, E, D: SpillDevice<F>>(
    target: SpillTarget<'_, D>,
    before: ProvingKey<F, C, E, D::Store>,
    after: ProvingKey<F, C, E, D::Store>,
    outcome: Result<(), SpillError>,
) -> bool {
    ||| {
        &&& outcome is Err
        &&& moves_fixed_polys(target, before, after, outcome)
        &&& same_fixed_values(before, after)
        &&& same_permutation_polys(before, after)
        &&& same_cosets(before, after)
    }
    ||| {
        &&& outcome is Err
        &&& moves_fixed_polys(target, before, after, Ok::<(), SpillError>(()))
        &&& moves_fixed_values(target, before, after, outcome)
        &&& same_permutation_polys(before, after)
        &&& same_cosets(before, after)
    }
    ||| {
        &&& outcome is Err
        &&& moves_fixed_polys(target, before, after, Ok::<(), SpillError>(()))
        &&& moves_fixed_values(target, before, after, Ok::<(), SpillError>(()))
        &&& moves_permutation_polys(target, before, after, outcome)
        &&& same_cosets(before, after)
    }
    ||| {
        &&& outcome is Ok
        &&& moves_fixed_polys(target, before, after, outcome)
        &&& moves_fixed_values(target, before, after, outcome)
        &&& moves_permutation_polys(target, before, after, outcome)
        &&& after.fixed_cosets@.len() == 0
        &&& after.permutation.cosets@.len() == 0
    }
}

impl<F: KeyField, C: ProcessedSerdeObject, E, M: MappedStore<F>> ProvingKey<F, C, E, M> {
    /// Moves `fixed_polys` into a mapped file.
    pub fn spill_fixed_polys_to_mmap<D: SpillDevice<F, Store = M>>(
        &mut self,
        target: &SpillTarget<'_, D>,
    ) -> (outcome: Result<(), SpillError>)
        ensures
            old(self).stored_once() ==> final(self).stored_once(),
            moves_fixed_polys::<F, C, E, D>(*target, *old(self), *final(self), outcome),
            same_but_storage(*old(self), *final(self)),
            same_cosets(*old(self), *final(self)),
            same_fixed_values(*old(self), *final(self)),
            same_permutation_polys(*old(self), *final(self)),
    {
        move_to_mmap(target, &mut self.fixed_polys, &mut self.fixed_polys_mmap)
    }

    /// Moves `fixed_values` into a mapped file.
    pub fn spill_fixed_values_to_mmap<D: SpillDevice<F, Store = M>>(
        &mut self,
        target: &SpillTarget<'_, D>,
    ) -> (outcome: Result<(), SpillError>)
        ensures
            old(self).stored_once() ==> final(self).stored_once(),
            moves_fixed_values::<F, C, E, D>(*target, *old(self), *final(self), outcome),
            same_but_storage(*old(self), *final(self)),
            same_cosets(*old(self), *final(self)),
            same_fixed_polys(*old(self), *final(self)),
            same_permutation_polys(*old(self), *final(self)),
    {
        move_to_mmap(target, &mut self.fixed_values, &mut self.fixed_values_mmap)
    }

    /// Moves `permutation.polys` into a mapped file.
    pub fn spill_permutation_polys_to_mmap<D: SpillDevice<F, Store = M>>(
        &mut self,
        target: &SpillTarget<'_, D>,
    ) -> (outcome: Result<(), SpillError>)
        ensures
            old(self).stored_once() ==> final(self).stored_once(),
            moves_permutation_polys::<F, C, E, D>(*target, *old(self), *final(self), outcome),
            same_but_storage(*old(self), *final(self)),
            same_cosets(*old(self), *final(self)),
            same_fixed_polys(*old(self), *final(self)),
            same_fixed_values(*old(self), *final(self)),
    {
        move_to_mmap(target, &mut self.permutation.polys, &mut self.permutation_polys_mmap)
    }

    /// Moves `fixed_polys`, `fixed_values` and `permutation.polys` into mapped
    /// files, in this order, and then drops the cosets.
    ///
    /// Each step leaves a batch alone that is mapped already. After a failure the
    /// batches of the earlier steps stay mapped. The cosets are the largest part
    /// of a key and can be computed again from what was moved; they go last, so
    /// that a failure does not discard them for nothing.
    pub fn spill_all_to_mmap<D: SpillDevice<F, Store = M>>(
        &mut self,
        target: &SpillTarget<'_, D>,
    ) -> (outcome: Result<(), SpillError>)
        ensures
            old(self).stored_once() ==> final(self).stored_once(),
            moves_all::<F, C, E, D>(*target, *old(self), *final(self), outcome),
            same_but_storage(*old(self), *final(self)),
    {
        match self.spill_fixed_polys_to_mmap(target) {
            Ok(_) => {},
            Err(e) => return Err(e),
        }
        match self.spill_fixed_values_to_mmap(target) {
            Ok(_) => {},
            Err(e) => return Err(e),
        }
        match self.spill_permutation_polys_to_mmap(target) {
            Ok(_) => {},
            Err(e) => return Err(e),
        }
        self.fixed_cosets = Vec::new();
        self.permutation.cosets = Vec::new();
        Ok(())
    }
}

/// Whether `polys` are the coefficients of `values`, one for one, as the proof
/// system computes them.
pub open spec fn interpolated<F, P: ProofSystem<F>>(
    system: &P,
    domain: EvaluationDomain,
    values: Seq<Polynomial<F, LagrangeCoeff>>,
    polys: Seq<Polynomial<F, Coeff>>,
) -> bool {
    &&& polys.len() == values.len()
    &&& forall|i: int|
        0 <= i < values.len() ==> call_ensures(
            P::lagrange_to_coeff,
            (system, &domain, &values[i]),
            #[trigger] polys[i],
        )
}

/// Whether `cosets` are the evaluations of `polys` over the extended domain, one
/// for one, as the proof system computes them.
pub open spec fn extended<F, P: ProofSystem<F>>(
    system: &P,
    domain: EvaluationDomain,
    polys: Seq<Polynomial<F, Coeff>>,
    cosets: Seq<Polynomial<F, ExtendedLagrangeCoeff>>,
) -> bool {
    &&& cosets.len() == polys.len()
    &&& forall|i: int|
        0 <= i < polys.len() ==> call_ensures(
            P::coeff_to_extended,
            (system, &domain, &polys[i]),
            #[trigger] cosets[i],
        )
}

/// The coefficients of `values`.
fn interpolate<F, P: ProofSystem<F>>(
    system: &P,
    domain: &EvaluationDomain,
    values: &[Polynomial<F, LagrangeCoeff>],
) -> (polys: Vec<Polynomial<F, Coeff>>)
    ensures
        interpolated::<F, P>(system, *domain, values@, polys@),
{
    let n: usize = values.len();
    let mut polys: Vec<Polynomial<F, Coeff>> = Vec::with_capacity(n);
    for i in 0..n
        invariant
            n == values@.len(),
            polys@.len() == i,
            forall|j: int|
                0 <= j < i ==> call_ensures(
                    P::lagrange_to_coeff,
                    (system, domain, &values@[j]),
                    #[trigger] polys@[j],
                ),
    {
        polys.push(system.lagrange_to_coeff(domain, &values[i]));
    }
    polys
}

/// The evaluations of `polys` over the extended domain, or none if they are
/// deferred.
fn extend_unless<F, P: ProofSystem<F>>(
    deferred: bool,
    system: &P,
    domain: &EvaluationDomain,
    polys: &[Polynomial<F, Coeff>],
) -> (cosets: Vec<Polynomial<F, ExtendedLagrangeCoeff>>)
    ensures
        if deferred {
            cosets@.len() == 0
        } else {
            extended::<F, P>(system, *domain, polys@, cosets@)
        },
{
    let n: usize = if deferred {
        0
    } else {
        polys.len()
    };
    let mut cosets: Vec<Polynomial<F, ExtendedLagrangeCoeff>> = Vec::with_capacity(n);
    for i in 0..n
        invariant
            n <= polys@.len(),
            cosets@.len() == i,
            forall|j: int|
                0 <= j < i ==> call_ensures(
                    P::coeff_to_extended,
                    (system, domain, &polys@[j]),
                    #[trigger] cosets@[j],
                ),
    {
        cosets.push(system.coeff_to_extended(domain, &polys[i]));
    }
    cosets
}

/// Whether `permutation` was made from evaluations, with its cosets or without.
pub open spec fn permutation_made<F, P: ProofSystem<F>>(
    system: &P,
    domain: EvaluationDomain,
    permutation: PermutationProvingKey<F>,
    deferred: bool,
) -> bool {
    &&& interpolated::<F, P>(system, domain, permutation.permutations@, permutation.polys@)
    &&& if deferred {
        permutation.cosets@.len() == 0
    } else {
        extended::<F, P>(system, domain, permutation.polys@, permutation.cosets@)
    }
}

/// Reads the permutation polynomials. Their cosets are built unless they are
/// deferred.
fn read_permutation<F: KeyField, P: ProofSystem<F>, R: ByteSource>(
    reader: &mut R,
    format: SerdeFormat,
    system: &P,
    domain: &EvaluationDomain,
    defer_cosets: bool,
) -> (read: Result<PermutationProvingKey<F>, ReadError>)
    ensures
        match batch_parsed::<F>(old(reader).rest(), format) {
            Ok((rows, rest)) => {
                &&& read matches Ok(permutation)
                &&& row_reprs(rows_of(permutation.permutations@)) == rows
                &&& permutation_made::<F, P>(system, *domain, permutation, defer_cosets)
                &&& final(reader).rest() == rest
            },
            Err(e) => read matches Err(error) && error == surfaced(e, old(reader).ending()),
        },
        left_of(final(reader).rest(), old(reader).rest()),
        final(reader).ending() == old(reader).ending(),
{
    let permutations = match read_polynomial_vec(reader, format) {
        Ok(permutations) => permutations,
        Err(e) => return Err(e),
    };
    let polys = interpolate(system, domain, permutations.as_slice());
    let cosets = extend_unless(defer_cosets, system, domain, polys.as_slice());
    Ok(PermutationProvingKey { permutations, polys, cosets })
}

/// Whether `pk` is the key for `parts` before anything is moved, of a circuit that
/// was configured to `cs`. The cosets are there unless they are deferred.
pub open spec fn loaded<F: KeyField, C: ProcessedSerdeObject, P: ProofSystem<F>, M: MappedStore<F>>(
    pk: ProvingKey<F, C, P::Evaluator, M>,
    system: &P,
    cs: ConstraintSystem,
    parts: ProvingKeyParts,
    deferred: bool,
) -> bool {
    let domain = pk.vk.spec_domain();
    &&& built_from::<F, C, P>(pk.vk, system, cs, parts.vk)
    &&& pk.parts() == parts
    &&& call_ensures(
        P::compute_lagrange_polys,
        (system, &domain, &pk.vk.spec_cs()),
        LagrangePolys { l0: pk.l0, l_last: pk.l_last, l_active_row: pk.l_active_row },
    )
    &&& interpolated::<F, P>(system, domain, pk.fixed_values@, pk.fixed_polys@)
    &&& if deferred {
        pk.fixed_cosets@.len() == 0
    } else {
        extended::<F, P>(system, domain, pk.fixed_polys@, pk.fixed_cosets@)
    }
    &&& permutation_made::<F, P>(system, domain, pk.permutation, deferred)
    &&& call_ensures(P::evaluator, (system, &pk.vk.spec_cs()), pk.ev)
    &&& pk.fixed_polys_mmap is None
    &&& pk.fixed_values_mmap is None
    &&& pk.permutation_polys_mmap is None
}

/// Whether reading the key for `parts` under `policy` can end in `read`.
///
/// The policy decides, before any coset is built, whether the key is mapped. A
/// mapped key is read without cosets and then moved; if that fails, the whole
/// load is rejected.
pub open spec fn read_under<
    F: KeyField,
    C: ProcessedSerdeObject,
    P: ProofSystem<F>,
    D: SpillDevice<F>,
>(
    host: Option<&SpillHost<'_, D>>,
    policy: ProverConfig,
    system: &P,
    cs: ConstraintSystem,
    parts: ProvingKeyParts,
    read: Result<ProvingKey<F, C, P::Evaluator, D::Store>, ReadError>,
) -> bool {
    match host {
        Some(host) if policy.map_prover_key => exists|
            heap: ProvingKey<F, C, P::Evaluator, D::Store>,
            pk: ProvingKey<F, C, P::Evaluator, D::Store>,
            outcome: Result<(), SpillError>,
        |
            {
                &&& loaded::<F, C, P, D::Store>(heap, system, cs, parts, true)
                &&& #[trigger] moves_all::<F, C, P::Evaluator, D>(
                    target_under(*host, policy),
                    heap,
                    pk,
                    outcome,
                )
                &&& same_but_storage(heap, pk)
                &&& match outcome {
                    Ok(_) => read == Ok::<_, ReadError>(pk),
                    Err(e) => read matches Err(error) && error == ReadError::Spill(e),
                }
            },
        _ => {
            &&& read matches Ok(pk)
            &&& loaded::<F, C, P, D::Store>(pk, system, cs, parts, false)
        },
    }
}

/// Whether reading a key from the front of `input` under `policy`, for a circuit
/// that was configured as `cs`, can end in `read`, with `rest` left to be read.
pub open spec fn reads_key_for<
    F: KeyField,
    C: ProcessedSerdeObject,
    P: ProofSystem<F>,
    D: SpillDevice<F>,
>(
    cs: ConstraintSystem,
    input: Seq<u8>,
    ending: ReadError,
    format: SerdeFormat,
    system: &P,
    host: Option<&SpillHost<'_, D>>,
    policy: ProverConfig,
    read: Result<ProvingKey<F, C, P::Evaluator, D::Store>, ReadError>,
    rest: Seq<u8>,
) -> bool {
    match pk_parsed::<F, C>(input, format, F::spec_s(), cs.permutation_columns) {
        Ok((parts, after)) => {
            &&& read_under::<F, C, P, D>(host, policy, system, cs, parts, read)
            &&& read matches Ok(pk) ==> pk.parts() == parts && pk.stored_once()
            &&& rest == after
        },
        Err(e) => read matches Err(error) && error == surfaced(e, ending),
    }
}

/// Whether reading a key from the front of `input` under `policy` can end in
/// `read`, with `rest` left to be read.
///
/// The bytes decide whether there is a key, and what it holds; where it lives
/// does not change that.
pub open spec fn reads_key<
    F: KeyField,
    C: ProcessedSerdeObject,
    P: ProofSystem<F>,
    Ci: Circuit,
    D: SpillDevice<F>,
>(
    input: Seq<u8>,
    ending: ReadError,
    format: SerdeFormat,
    system: &P,
    circuit: &Ci,
    host: Option<&SpillHost<'_, D>>,
    policy: ProverConfig,
    read: Result<ProvingKey<F, C, P::Evaluator, D::Store>, ReadError>,
    rest: Seq<u8>,
) -> bool {
    &&& left_of(rest, input)
    &&& exists|cs: ConstraintSystem|
        {
            &&& #[trigger] call_ensures(Ci::configure, (circuit,), cs)
            &&& reads_key_for::<F, C, P, D>(
                cs,
                input,
                ending,
                format,
                system,
                host,
                policy,
                read,
                rest,
            )
        }
}

/// How many stages of reading a key from the front of `input` are completed: those
/// before the bytes that hold no key, or those before the spill if it is the spill
/// that fails.
pub open spec fn stages_completed<F: ProcessedSerdeObject, C: ProcessedSerdeObject>(
    input: Seq<u8>,
    format: SerdeFormat,
    max_k: u32,
    columns: usize,
    succeeded: bool,
) -> nat {
    match vk_parsed::<C>(input, format, max_k, columns) {
        Err(_) => 1,
        Ok((_, rest)) => match batch_parsed::<F>(rest, format) {
            Err(_) => 3,
            Ok((_, rest)) => match batch_parsed::<F>(rest, format) {
                Err(_) => 6,
                Ok(_) => if succeeded {
                    9
                } else {
                    8
                },
            },
        },
    }
}

/// Where a key's values live does not change what they are: a key that was moved
/// hands out the same values, and serialises to the same bytes.
pub proof fn law_policy_does_not_change_what_the_key_serialises_to<
    F: KeyField,
    C: ProcessedSerdeObject,
    E,
    D: SpillDevice<F>,
>(
    target: SpillTarget<'_, D>,
    before: ProvingKey<F, C, E, D::Store>,
    after: ProvingKey<F, C, E, D::Store>,
    format: SerdeFormat,
)
    requires
        before.fixed_polys@.len() <= usize::MAX,
        before.fixed_values@.len() <= usize::MAX,
        before.permutation.polys@.len() <= usize::MAX,
        moves_all(target, before, after, Ok::<(), SpillError>(())),
        same_but_storage(before, after),
    ensures
        after.parts() == before.parts(),
        pk_encoded::<F, C>(after.parts(), format) == pk_encoded::<F, C>(before.parts(), format),
        after.fixed_polys_rows() == before.fixed_polys_rows(),
        after.fixed_values_rows() == before.fixed_values_rows(),
        after.permutation_polys_rows() == before.permutation_polys_rows(),
{
    law_moving_keeps_the_values(
        target,
        before.fixed_polys@,
        before.fixed_polys_mmap,
        after.fixed_polys@,
        after.fixed_polys_mmap,
    );
    law_moving_keeps_the_values(
        target,
        before.fixed_values@,
        before.fixed_values_mmap,
        after.fixed_values@,
        after.fixed_values_mmap,
    );
    law_moving_keeps_the_values(
        target,
        before.permutation.polys@,
        before.permutation_polys_mmap,
        after.permutation.polys@,
        after.permutation_polys_mmap,
    );
}

impl<F: KeyField, C: ProcessedSerdeObject, E, M: MappedStore<F>> ProvingKey<F, C, E, M> {
    /// [`ProvingKey::read_with_policy`], reporting each stage to a monitor.
    pub fn read_in_stages<R, P, Ci, D, S>(
        reader: &mut R,
        format: SerdeFormat,
        system: &P,
        circuit: &Ci,
        host: Option<&SpillHost<'_, D>>,
        policy: &ProverConfig,
        monitor: &mut S,
    ) -> (read: Result<Self, ReadError>) where
        R: ByteSource,
        P: ProofSystem<F, Evaluator = E>,
        Ci: Circuit,
        D: SpillDevice<F, Store = M>,
        S: StageMonitor,

        ensures
            left_of(final(reader).rest(), old(reader).rest()),
            final(reader).ending() == old(reader).ending(),
            exists|cs: ConstraintSystem|
                {
                    &&& #[trigger] call_ensures(Ci::configure, (circuit,), cs)
                    &&& reads_key_for::<F, C, P, D>(
                        cs,
                        old(reader).rest(),
                        old(reader).ending(),
                        format,
                        system,
                        host,
                        *policy,
                        read,
                        final(reader).rest(),
                    )
                    &&& stages_reported(
                        old(monitor),
                        final(monitor),
                        stages_completed::<F, C>(
                            old(reader).rest(),
                            format,
                            F::spec_s(),
                            cs.permutation_columns,
                            read is Ok,
                        ),
                    )
                },
    {
        let ghost input = reader.rest();
        let ghost before = *monitor;
        let mut hwm: u64 = 0;
        proof {
            assert(before.samples().skip(before.samples().len() as int) =~= Seq::empty());
            assert(before.samples() + Seq::empty() =~= before.samples());
            assert(before.lines() + Seq::empty() =~= before.lines());
        }
        report_stage(monitor, "start", &mut hwm, Ghost(before), Ghost(0));
        let cs = circuit.configure();
        let ghost configured = cs;
        let vk = match VerifyingKey::<F, C>::read_from_cs(reader, format, system, cs) {
            Ok(vk) => vk,
            Err(e) => return Err(e),
        };
        let ghost after_vk = reader.rest();
        report_stage(monitor, "vk read (incl. domain)", &mut hwm, Ghost(before), Ghost(1));
        let lagrange = system.compute_lagrange_polys(vk.get_domain(), vk.cs());
        report_stage(monitor, "lagrange polys", &mut hwm, Ghost(before), Ghost(2));
        let read_values = read_polynomial_vec::<F, LagrangeCoeff, R>(reader, format);
        let ghost after_fixed = reader.rest();
        proof {
            lemma_left_of_left(after_fixed, after_vk, input);
        }
        let fixed_values = match read_values {
            Ok(values) => values,
            Err(e) => return Err(e),
        };
        report_stage(monitor, "fixed_values read", &mut hwm, Ghost(before), Ghost(3));
        let fixed_polys = interpolate(system, vk.get_domain(), fixed_values.as_slice());
        report_stage(monitor, "fixed_polys (ifft)", &mut hwm, Ghost(before), Ghost(4));
        let defer_cosets = host.is_some() && policy.map_prover_key;
        let fixed_cosets = extend_unless(
            defer_cosets,
            system,
            vk.get_domain(),
            fixed_polys.as_slice(),
        );
        report_stage(monitor, "fixed_cosets (or deferred)", &mut hwm, Ghost(before), Ghost(5));
        let read_permutations = read_permutation(
            reader,
            format,
            system,
            vk.get_domain(),
            defer_cosets,
        );
        proof {
            lemma_left_of_left(reader.rest(), after_fixed, input);
        }
        let permutation = match read_permutations {
            Ok(permutation) => permutation,
            Err(e) => return Err(e),
        };
        report_stage(monitor, "permutation read", &mut hwm, Ghost(before), Ghost(6));
        let ev = system.evaluator(vk.cs());
        report_stage(monitor, "evaluator", &mut hwm, Ghost(before), Ghost(7));
        let mut pk = ProvingKey {
            vk,
            l0: lagrange.l0,
            l_last: lagrange.l_last,
            l_active_row: lagrange.l_active_row,
            fixed_values,
            fixed_polys,
            fixed_cosets,
            permutation,
            ev,
            fixed_polys_mmap: None,
            fixed_values_mmap: None,
            permutation_polys_mmap: None,
        };
        let ghost parts = pk.parts();
        assert(pk_parsed::<F, C>(input, format, F::spec_s(), configured.permutation_columns)
            == Ok::<_, ReadError>((parts, reader.rest())));
        assert(loaded::<F, C, P, M>(pk, system, configured, parts, defer_cosets));
        match host {
            Some(host) => {
                if policy.map_prover_key {
                    let target = SpillTarget::under(host, policy);
                    let ghost heap = pk;
                    let outcome = pk.spill_all_to_mmap(&target);
                    match outcome {
                        Ok(_) => {
                            proof {
                                assert(heap.fixed_polys.len() <= usize::MAX);
                                assert(heap.fixed_values.len() <= usize::MAX);
                                assert(heap.permutation.polys.len() <= usize::MAX);
                                law_policy_does_not_change_what_the_key_serialises_to(
                                    target,
                                    heap,
                                    pk,
                                    format,
                                );
                            }
                        },
                        Err(e) => return Err(ReadError::Spill(e)),
                    }
                }
            },
            None => {},
        }
        report_stage(monitor, "spill (or none)", &mut hwm, Ghost(before), Ghost(8));
        Ok(pk)
    }

    /// Reads a key for a circuit, under the given memory policy.
    ///
    /// `host` is where a key can be mapped; without one it stays on the heap,
    /// whatever the policy says.
    pub fn read_with_policy<R, P, Ci, D>(
        reader: &mut R,
        format: SerdeFormat,
        system: &P,
        circuit: &Ci,
        host: Option<&SpillHost<'_, D>>,
        policy: &ProverConfig,
    ) -> (read: Result<Self, ReadError>) where
        R: ByteSource,
        P: ProofSystem<F, Evaluator = E>,
        Ci: Circuit,
        D: SpillDevice<F, Store = M>,

        ensures
            final(reader).ending() == old(reader).ending(),
            reads_key::<F, C, P, Ci, D>(
                old(reader).rest(),
                old(reader).ending(),
                format,
                system,
                circuit,
                host,
                *policy,
                read,
                final(reader).rest(),
            ),
    {
        let mut monitor = Unmonitored::new();
        Self::read_in_stages(reader, format, system, circuit, host, policy, &mut monitor)
    }

    /// Reads a key for a circuit, under the policy of the process.
    pub fn read<R, P, Ci, D>(
        reader: &mut R,
        format: SerdeFormat,
        system: &P,
        circuit: &Ci,
        host: Option<&SpillHost<'_, D>>,
        cell: &mut Option<ProverConfig>,
        vars: &PolicyVars,
    ) -> (read: Result<Self, ReadError>) where
        R: ByteSource,
        P: ProofSystem<F, Evaluator = E>,
        Ci: Circuit,
        D: SpillDevice<F, Store = M>,

        ensures
            *final(cell) == Some(process_policy(*old(cell), *vars)),
            final(reader).ending() == old(reader).ending(),
            reads_key::<F, C, P, Ci, D>(
                old(reader).rest(),
                old(reader).ending(),
                format,
                system,
                circuit,
                host,
                process_policy(*old(cell), *vars),
                read,
                final(reader).rest(),
            ),
    {
        let policy = ProverConfig::process(cell, vars);
        Self::read_with_policy(reader, format, system, circuit, host, policy)
    }

    /// Reads a key for a circuit from bytes, under the policy of the process.
    pub fn from_bytes<P, Ci, D>(
        bytes: &[u8],
        format: SerdeFormat,
        system: &P,
        circuit: &Ci,
        host: Option<&SpillHost<'_, D>>,
        cell: &mut Option<ProverConfig>,
        vars: &PolicyVars,
    ) -> (read: Result<Self, ReadError>) where
        P: ProofSystem<F, Evaluator = E>,
        Ci: Circuit,
        D: SpillDevice<F, Store = M>,

        ensures
            *final(cell) == Some(process_policy(*old(cell), *vars)),
            exists|rest: Seq<u8>| #[trigger]
                reads_key::<F, C, P, Ci, D>(
                    bytes@,
                    ReadError::UnexpectedEof,
                    format,
                    system,
                    circuit,
                    host,
                    process_policy(*old(cell), *vars),
                    read,
                    rest,
                ),
    {
        let mut reader = ByteReader::new(bytes);
        Self::read(&mut reader, format, system, circuit, host, cell, vars)
    }
}

/// A key that was moved holds no coset, and its batches have left the heap: each
/// is mapped exactly when it was before or when there was anything to map.
pub proof fn law_a_mapped_key_holds_no_cosets<
    F: KeyField,
    C: ProcessedSerdeObject,
    E,
    D: SpillDevice<F>,
>(
    target: SpillTarget<'_, D>,
    heap: ProvingKey<F, C, E, D::Store>,
    pk: ProvingKey<F, C, E, D::Store>,
)
    requires
        heap.fixed_polys@.len() <= usize::MAX,
        heap.fixed_values@.len() <= usize::MAX,
        heap.permutation.polys@.len() <= usize::MAX,
        heap.stored_once(),
        moves_all(target, heap, pk, Ok::<(), SpillError>(())),
    ensures
        pk.stored_once(),
        pk.fixed_cosets@.len() == 0,
        pk.permutation.cosets@.len() == 0,
        pk.fixed_polys_mmap is Some <==> heap.fixed_polys_mmap is Some || heap.fixed_polys@.len() > 0,
        pk.fixed_values_mmap is Some <==> heap.fixed_values_mmap is Some || heap.fixed_values@.len() > 0,
        pk.permutation_polys_mmap is Some <==> heap.permutation_polys_mmap is Some || heap.permutation.polys@.len() > 0,
        pk.fixed_polys@.len() == 0,
        pk.fixed_values@.len() == 0,
        pk.permutation.polys@.len() == 0,
{
    law_moving_keeps_the_values(
        target,
        heap.fixed_polys@,
        heap.fixed_polys_mmap,
        pk.fixed_polys@,
        pk.fixed_polys_mmap,
    );
    law_moving_keeps_the_values(
        target,
        heap.fixed_values@,
        heap.fixed_values_mmap,
        pk.fixed_values@,
        pk.fixed_values_mmap,
    );
    law_moving_keeps_the_values(
        target,
        heap.permutation.polys@,
        heap.permutation_polys_mmap,
        pk.permutation.polys@,
        pk.permutation_polys_mmap,
    );
}

/// Moving a batch is idempotent: moving it again succeeds, whatever the device
/// does, and changes nothing.
pub proof fn law_moving_is_idempotent<F, B, D: SpillDevice<F>>(
    target: SpillTarget<'_, D>,
    heap: Seq<Polynomial<F, B>>,
    mapped: Option<Arc<MmappedPolys<F, B, D::Store>>>,
    heap_once: Seq<Polynomial<F, B>>,
    mapped_once: Option<Arc<MmappedPolys<F, B, D::Store>>>,
    again: SpillTarget<'_, D>,
    heap_twice: Seq<Polynomial<F, B>>,
    mapped_twice: Option<Arc<MmappedPolys<F, B, D::Store>>>,
    outcome: Result<(), SpillError>,
)
    requires
        heap.len() <= usize::MAX,
        moves(target, heap, mapped, heap_once, mapped_once, Ok::<(), SpillError>(())),
        moves(again, heap_once, mapped_once, heap_twice, mapped_twice, outcome),
    ensures
        outcome is Ok,
        heap_twice == heap_once,
        mapped_twice == mapped_once,
{
    law_moving_keeps_the_values(target, heap, mapped, heap_once, mapped_once);
}

/// Two keys that are read from the bytes of one key hold what that key holds, and
/// serialise to the same bytes, whatever the policies and the hosts.
pub proof fn law_a_written_key_reads_the_same_under_every_policy<
    F: KeyField,
    C: ProcessedSerdeObject,
    P: ProofSystem<F>,
    Ci: Circuit,
    D: SpillDevice<F>,
>(
    parts: ProvingKeyParts,
    ending: ReadError,
    format: SerdeFormat,
    system: &P,
    circuit: &Ci,
    host: Option<&SpillHost<'_, D>>,
    policy: ProverConfig,
    pk: ProvingKey<F, C, P::Evaluator, D::Store>,
    rest: Seq<u8>,
)
    requires
        parts.vk.k <= F::spec_s(),
        key_fits(parts),
        key_reads_back::<F, C>(parts, format),
        forall|cs: ConstraintSystem| #[trigger]
            call_ensures(Ci::configure, (circuit,), cs) ==> cs.permutation_columns
                == parts.vk.permutation.len(),
        reads_key::<F, C, P, Ci, D>(
            pk_encoded::<F, C>(parts, format),
            ending,
            format,
            system,
            circuit,
            host,
            policy,
            Ok::<_, ReadError>(pk),
            rest,
        ),
    ensures
        pk.parts() == parts,
        pk_encoded::<F, C>(pk.parts(), format) == pk_encoded::<F, C>(parts, format),
{
    let bytes = pk_encoded::<F, C>(parts, format);
    law_proving_keys_read_back::<F, C>(parts, format, F::spec_s(), Seq::<u8>::empty());
    assert(bytes + Seq::<u8>::empty() =~= bytes);
    let cs = choose|cs: ConstraintSystem|
        {
            &&& #[trigger] call_ensures(Ci::configure, (circuit,), cs)
            &&& match pk_parsed::<F, C>(bytes, format, F::spec_s(), cs.permutation_columns) {
                Ok((parts, after)) => pk.parts() == parts,
                Err(e) => false,
            }
        };
    assert(cs.permutation_columns == parts.vk.permutation.len());
}

/// Rows with the same representations are the same.
proof fn lemma_representations_identify<F: KeyField>(one: Seq<Seq<F>>, other: Seq<Seq<F>>)
    requires
        row_reprs(one) == row_reprs(other),
    ensures
        one == other,
{
    assert(one.len() == row_reprs(one).len() && other.len() == row_reprs(other).len());
    assert forall|i: int| 0 <= i < one.len() implies one[i] == other[i] by {
        assert(row_reprs(one)[i] == row_reprs(other)[i]);
        assert(reprs_of(one[i]) == reprs_of(other[i]));
        assert(one[i].len() == reprs_of(one[i]).len());
        assert(other[i].len() == reprs_of(other[i]).len());
        assert forall|j: int| 0 <= j < one[i].len() implies one[i][j] == other[i][j] by {
            assert(reprs_of(one[i])[j] == reprs_of(other[i])[j]);
            one[i][j].representations_identify(other[i][j]);
        }
        assert(one[i] =~= other[i]);
    }
    assert(one =~= other);
}

/// Whether a host maps keys under a policy.
pub open spec fn maps_keys<D>(host: Option<&SpillHost<'_, D>>, policy: ProverConfig) -> bool {
    host is Some && policy.map_prover_key
}

/// A key that was read was loaded first, with or without its cosets, and then
/// moved if it is mapped. Moving it kept its values.
proof fn lemma_read_keys_were_loaded<
    F: KeyField,
    C: ProcessedSerdeObject,
    P: ProofSystem<F>,
    Ci: Circuit,
    D: SpillDevice<F>,
>(
    input: Seq<u8>,
    ending: ReadError,
    format: SerdeFormat,
    system: &P,
    circuit: &Ci,
    host: Option<&SpillHost<'_, D>>,
    policy: ProverConfig,
    pk: ProvingKey<F, C, P::Evaluator, D::Store>,
    rest: Seq<u8>,
) -> (found: (ConstraintSystem, ProvingKey<F, C, P::Evaluator, D::Store>))
    requires
        reads_key::<F, C, P, Ci, D>(
            input,
            ending,
            format,
            system,
            circuit,
            host,
            policy,
            Ok::<_, ReadError>(pk),
            rest,
        ),
    ensures
        call_ensures(Ci::configure, (circuit,), found.0),
        pk_parsed::<F, C>(input, format, F::spec_s(), found.0.permutation_columns) == Ok::<
            _,
            ReadError,
        >((pk.parts(), rest)),
        loaded::<F, C, P, D::Store>(
            found.1,
            system,
            found.0,
            pk.parts(),
            maps_keys(host, policy),
        ),
        pk.fixed_polys_rows() == found.1.fixed_polys_rows(),
        pk.fixed_values_rows() == found.1.fixed_values_rows(),
        pk.permutation_polys_rows() == found.1.permutation_polys_rows(),
        rows_of(pk.permutation.permutations@) == rows_of(found.1.permutation.permutations@),
        same_but_storage(found.1, pk),
        if maps_keys(host, policy) {
            moves_all::<F, C, P::Evaluator, D>(
                target_under(*host->0, policy),
                found.1,
                pk,
                Ok::<(), SpillError>(()),
            )
        } else {
            found.1 == pk
        },
{
    let read = Ok::<ProvingKey<F, C, P::Evaluator, D::Store>, ReadError>(pk);
    let cs = choose|cs: ConstraintSystem|
        {
            &&& #[trigger] call_ensures(Ci::configure, (circuit,), cs)
            &&& match pk_parsed::<F, C>(input, format, F::spec_s(), cs.permutation_columns) {
                Ok((parts, after)) => {
                    &&& read_under::<F, C, P, D>(host, policy, system, cs, parts, read)
                    &&& pk.parts() == parts
                    &&& rest == after
                },
                Err(e) => false,
            }
        };
    let parts = pk.parts();
    if maps_keys(host, policy) {
        let target = target_under(*host->0, policy);
        let (heap, moved, outcome) = choose|
            heap: ProvingKey<F, C, P::Evaluator, D::Store>,
            moved: ProvingKey<F, C, P::Evaluator, D::Store>,
            outcome: Result<(), SpillError>,
        |
            {
                &&& loaded::<F, C, P, D::Store>(heap, system, cs, parts, true)
                &&& #[trigger] moves_all::<F, C, P::Evaluator, D>(target, heap, moved, outcome)
                &&& same_but_storage(heap, moved)
                &&& match outcome {
                    Ok(_) => read == Ok::<_, ReadError>(moved),
                    Err(e) => false,
                }
            };
        assert(heap.fixed_polys.len() <= usize::MAX);
        assert(heap.fixed_values.len() <= usize::MAX);
        assert(heap.permutation.polys.len() <= usize::MAX);
        assert(moves_all::<F, C, P::Evaluator, D>(target, heap, pk, Ok::<(), SpillError>(())));
        law_policy_does_not_change_what_the_key_serialises_to(target, heap, pk, format);
        (cs, heap)
    } else {
        (cs, pk)
    }
}

/// Whether a circuit is configured in one way only.
pub open spec fn configures_alike<Ci: Circuit>(circuit: &Ci) -> bool {
    forall|one: ConstraintSystem, other: ConstraintSystem|
        #[trigger] call_ensures(Ci::configure, (circuit,), one) && #[trigger] call_ensures(
            Ci::configure,
            (circuit,),
            other,
        ) ==> one == other
}

/// Whether a proof system gives one text for one domain, and the same
/// coefficients for the same evaluations over the same domain.
pub open spec fn interpolates_alike<F, P: ProofSystem<F>>(system: &P) -> bool {
    &&& forall|degree: usize, k: u32, one: String, other: String|
        #[trigger] call_ensures(P::pinned_domain, (system, degree, k), one)
            && #[trigger] call_ensures(P::pinned_domain, (system, degree, k), other) ==> one@
            == other@
    &&& forall|
        one_domain: EvaluationDomain,
        other_domain: EvaluationDomain,
        one: Polynomial<F, LagrangeCoeff>,
        other: Polynomial<F, LagrangeCoeff>,
        one_poly: Polynomial<F, Coeff>,
        other_poly: Polynomial<F, Coeff>,
    |
        {
            &&& one_domain.spec_k() == other_domain.spec_k()
            &&& one_domain.spec_pinned() == other_domain.spec_pinned()
            &&& one.coeffs() == other.coeffs()
            &&& #[trigger] call_ensures(
                P::lagrange_to_coeff,
                (system, &one_domain, &one),
                one_poly,
            )
            &&& #[trigger] call_ensures(
                P::lagrange_to_coeff,
                (system, &other_domain, &other),
                other_poly,
            )
        } ==> one_poly.coeffs() == other_poly.coeffs()
}

/// The coefficients of the same evaluations are the same.
proof fn lemma_same_coefficients<F, P: ProofSystem<F>>(
    system: &P,
    one_domain: EvaluationDomain,
    other_domain: EvaluationDomain,
    one: Seq<Polynomial<F, LagrangeCoeff>>,
    other: Seq<Polynomial<F, LagrangeCoeff>>,
    one_polys: Seq<Polynomial<F, Coeff>>,
    other_polys: Seq<Polynomial<F, Coeff>>,
)
    requires
        interpolates_alike::<F, P>(system),
        one_domain.spec_k() == other_domain.spec_k(),
        one_domain.spec_pinned() == other_domain.spec_pinned(),
        rows_of(one) == rows_of(other),
        interpolated::<F, P>(system, one_domain, one, one_polys),
        interpolated::<F, P>(system, other_domain, other, other_polys),
    ensures
        rows_of(one_polys) == rows_of(other_polys),
        one_polys.len() == other_polys.len(),
{
    assert(one.len() == rows_of(one).len() && other.len() == rows_of(other).len());
    assert forall|i: int| 0 <= i < one_polys.len() implies rows_of(one_polys)[i] == rows_of(
        other_polys,
    )[i] by {
        assert(rows_of(one)[i] == rows_of(other)[i]);
        assert(call_ensures(
            P::lagrange_to_coeff,
            (system, &one_domain, &one[i]),
            one_polys[i],
        ));
        assert(call_ensures(
            P::lagrange_to_coeff,
            (system, &other_domain, &other[i]),
            other_polys[i],
        ));
    }
    assert(rows_of(one_polys) =~= rows_of(other_polys));
}

/// Two reads of the same bytes hand out the same values, whatever the policies and
/// the hosts, provided that the circuit is configured in one way and the proof
/// system interpolates in one way.
pub proof fn law_two_reads_hand_out_the_same_values<
    F: KeyField,
    C: ProcessedSerdeObject,
    P: ProofSystem<F>,
    Ci: Circuit,
    D: SpillDevice<F>,
    G: SpillDevice<F>,
>(
    input: Seq<u8>,
    ending: ReadError,
    format: SerdeFormat,
    system: &P,
    circuit: &Ci,
    one_host: Option<&SpillHost<'_, D>>,
    one_policy: ProverConfig,
    one: ProvingKey<F, C, P::Evaluator, D::Store>,
    one_rest: Seq<u8>,
    other_host: Option<&SpillHost<'_, G>>,
    other_policy: ProverConfig,
    other: ProvingKey<F, C, P::Evaluator, G::Store>,
    other_rest: Seq<u8>,
)
    requires
        configures_alike(circuit),
        interpolates_alike::<F, P>(system),
        reads_key::<F, C, P, Ci, D>(
            input,
            ending,
            format,
            system,
            circuit,
            one_host,
            one_policy,
            Ok::<_, ReadError>(one),
            one_rest,
        ),
        reads_key::<F, C, P, Ci, G>(
            input,
            ending,
            format,
            system,
            circuit,
            other_host,
            other_policy,
            Ok::<_, ReadError>(other),
            other_rest,
        ),
    ensures
        one.parts() == other.parts(),
        one_rest == other_rest,
        one.fixed_values_rows() == other.fixed_values_rows(),
        one.fixed_polys_rows() == other.fixed_polys_rows(),
        one.permutation_polys_rows() == other.permutation_polys_rows(),
        rows_of(one.permutation.permutations@) == rows_of(other.permutation.permutations@),
{
    let (one_cs, one_heap) = lemma_read_keys_were_loaded::<F, C, P, Ci, D>(
        input,
        ending,
        format,
        system,
        circuit,
        one_host,
        one_policy,
        one,
        one_rest,
    );
    let (other_cs, other_heap) = lemma_read_keys_were_loaded::<F, C, P, Ci, G>(
        input,
        ending,
        format,
        system,
        circuit,
        other_host,
        other_policy,
        other,
        other_rest,
    );
    assert(one_cs == other_cs);
    lemma_representations_identify(one.fixed_values_rows(), other.fixed_values_rows());
    lemma_representations_identify(
        rows_of(one.permutation.permutations@),
        rows_of(other.permutation.permutations@),
    );
    lemma_same_coefficients::<F, P>(
        system,
        one_heap.vk.spec_domain(),
        other_heap.vk.spec_domain(),
        one_heap.fixed_values@,
        other_heap.fixed_values@,
        one_heap.fixed_polys@,
        other_heap.fixed_polys@,
    );
    lemma_same_coefficients::<F, P>(
        system,
        one_heap.vk.spec_domain(),
        other_heap.vk.spec_domain(),
        one_heap.permutation.permutations@,
        other_heap.permutation.permutations@,
        one_heap.permutation.polys@,
        other_heap.permutation.polys@,
    );
}

/// A key that is read under a policy that maps it, against the same key on the
/// heap: it holds no coset, its batches have left the heap, each is mapped
/// exactly when the heap's holds anything, and the views of the two are equal.
pub proof fn law_a_mapped_read_matches_a_heap_read<
    F: KeyField,
    C: ProcessedSerdeObject,
    P: ProofSystem<F>,
    Ci: Circuit,
    D: SpillDevice<F>,
    G: SpillDevice<F>,
>(
    input: Seq<u8>,
    ending: ReadError,
    format: SerdeFormat,
    system: &P,
    circuit: &Ci,
    host: Option<&SpillHost<'_, D>>,
    policy: ProverConfig,
    mapped: ProvingKey<F, C, P::Evaluator, D::Store>,
    mapped_rest: Seq<u8>,
    heap_host: Option<&SpillHost<'_, G>>,
    heap_policy: ProverConfig,
    heap: ProvingKey<F, C, P::Evaluator, G::Store>,
    heap_rest: Seq<u8>,
)
    requires
        configures_alike(circuit),
        interpolates_alike::<F, P>(system),
        host is Some && policy.map_prover_key,
        heap_host is None || !heap_policy.map_prover_key,
        reads_key::<F, C, P, Ci, D>(
            input,
            ending,
            format,
            system,
            circuit,
            host,
            policy,
            Ok::<_, ReadError>(mapped),
            mapped_rest,
        ),
        reads_key::<F, C, P, Ci, G>(
            input,
            ending,
            format,
            system,
            circuit,
            heap_host,
            heap_policy,
            Ok::<_, ReadError>(heap),
            heap_rest,
        ),
    ensures
        mapped.fixed_cosets@.len() == 0,
        mapped.permutation.cosets@.len() == 0,
        mapped.fixed_polys@.len() == 0,
        mapped.fixed_values@.len() == 0,
        mapped.permutation.polys@.len() == 0,
        mapped.fixed_polys_mmap is Some <==> heap.fixed_polys@.len() > 0,
        mapped.fixed_values_mmap is Some <==> heap.fixed_values@.len() > 0,
        mapped.permutation_polys_mmap is Some <==> heap.permutation.polys@.len() > 0,
        heap.fixed_polys_mmap is None,
        heap.fixed_values_mmap is None,
        heap.permutation_polys_mmap is None,
        heap.fixed_cosets@.len() == heap.fixed_polys@.len(),
        heap.permutation.cosets@.len() == heap.permutation.polys@.len(),
        mapped.fixed_polys_rows() == heap.fixed_polys_rows(),
        mapped.fixed_values_rows() == heap.fixed_values_rows(),
        mapped.permutation_polys_rows() == heap.permutation_polys_rows(),
{
    law_two_reads_hand_out_the_same_values::<F, C, P, Ci, D, G>(
        input,
        ending,
        format,
        system,
        circuit,
        host,
        policy,
        mapped,
        mapped_rest,
        heap_host,
        heap_policy,
        heap,
        heap_rest,
    );
    let (_, before) = lemma_read_keys_were_loaded::<F, C, P, Ci, D>(
        input,
        ending,
        format,
        system,
        circuit,
        host,
        policy,
        mapped,
        mapped_rest,
    );
    let (_, same) = lemma_read_keys_were_loaded::<F, C, P, Ci, G>(
        input,
        ending,
        format,
        system,
        circuit,
        heap_host,
        heap_policy,
        heap,
        heap_rest,
    );
    assert(before.fixed_polys.len() <= usize::MAX);
    assert(before.fixed_values.len() <= usize::MAX);
    assert(before.permutation.polys.len() <= usize::MAX);
    law_a_mapped_key_holds_no_cosets(target_under(*host->0, policy), before, mapped);
    assert(before.fixed_polys_rows().len() == heap.fixed_polys_rows().len());
    assert(before.fixed_values_rows().len() == heap.fixed_values_rows().len());
    assert(before.permutation_polys_rows().len() == heap.permutation_polys_rows().len());
}

/// A key that is read holds, field for field, what the proof system computes for its
/// domain and its constraints, whether it is mapped or not. The circuit's constraints
/// and the Lagrange polynomials that were computed are handed back.
pub proof fn law_a_read_key_holds_what_was_computed_for_it<
    F: KeyField,
    C: ProcessedSerdeObject,
    P: ProofSystem<F>,
    Ci: Circuit,
    D: SpillDevice<F>,
>(
    input: Seq<u8>,
    ending: ReadError,
    format: SerdeFormat,
    system: &P,
    circuit: &Ci,
    host: Option<&SpillHost<'_, D>>,
    policy: ProverConfig,
    pk: ProvingKey<F, C, P::Evaluator, D::Store>,
    rest: Seq<u8>,
) -> (made: (ConstraintSystem, LagrangePolys<F>))
    requires
        reads_key::<F, C, P, Ci, D>(
            input,
            ending,
            format,
            system,
            circuit,
            host,
            policy,
            Ok::<_, ReadError>(pk),
            rest,
        ),
    ensures
        call_ensures(Ci::configure, (circuit,), made.0),
        call_ensures(
            P::compute_lagrange_polys,
            (system, &pk.vk.spec_domain(), &pk.vk.spec_cs()),
            made.1,
        ),
        pk.l0 == made.1.l0,
        pk.l_last == made.1.l_last,
        pk.l_active_row == made.1.l_active_row,
        call_ensures(P::evaluator, (system, &pk.vk.spec_cs()), pk.ev),
        pk_parsed::<F, C>(input, format, F::spec_s(), made.0.permutation_columns) == Ok::<
            _,
            ReadError,
        >((pk.parts(), rest)),
{
    let (cs, _) = lemma_read_keys_were_loaded::<F, C, P, Ci, D>(
        input,
        ending,
        format,
        system,
        circuit,
        host,
        policy,
        pk,
        rest,
    );
    (cs, LagrangePolys { l0: pk.l0, l_last: pk.l_last, l_active_row: pk.l_active_row })
}

/// The verifying key inside a key that is read is the one for the circuit: its domain
/// is named for the circuit's degree and the size in the bytes, and its constraints are
/// the circuit's with every selector turned into a column. What the proof system gave
/// is handed back.
pub proof fn law_a_read_key_is_for_the_circuit<
    F: KeyField,
    C: ProcessedSerdeObject,
    P: ProofSystem<F>,
    Ci: Circuit,
    D: SpillDevice<F>,
>(
    input: Seq<u8>,
    ending: ReadError,
    format: SerdeFormat,
    system: &P,
    circuit: &Ci,
    host: Option<&SpillHost<'_, D>>,
    policy: ProverConfig,
    pk: ProvingKey<F, C, P::Evaluator, D::Store>,
    rest: Seq<u8>,
) -> (made: (ConstraintSystem, String, Vec<Vec<bool>>))
    requires
        reads_key::<F, C, P, Ci, D>(
            input,
            ending,
            format,
            system,
            circuit,
            host,
            policy,
            Ok::<_, ReadError>(pk),
            rest,
        ),
    ensures
        call_ensures(Ci::configure, (circuit,), made.0),
        input[0] == 3,
        pk.vk.spec_domain().spec_k() == input[1],
        call_ensures(P::pinned_domain, (system, made.0.degree, input[1] as u32), made.1),
        pk.vk.spec_domain().spec_pinned() == made.1@,
        made.2@.len() == made.0.num_selectors,
        forall|i: int| 0 <= i < made.2@.len() ==> (#[trigger] made.2@[i])@.len() == 0,
        call_ensures(
            P::directly_convert_selectors_to_fixed,
            (system, made.0, made.2),
            pk.vk.spec_cs(),
        ),
        pk.vk.parts().permutation.len() == made.0.permutation_columns,
{
    let (cs, _) = lemma_read_keys_were_loaded::<F, C, P, Ci, D>(
        input,
        ending,
        format,
        system,
        circuit,
        host,
        policy,
        pk,
        rest,
    );
    let columns = cs.permutation_columns;
    let (parts, after) = vk_parsed::<C>(input, format, F::spec_s(), columns)->Ok_0;
    law_a_verifying_key_is_read_where_it_lies::<C>(
        input,
        format,
        F::spec_s(),
        columns,
        parts,
        after,
    );
    let pinned = choose|pinned: String|
        {
            &&& #[trigger] call_ensures(
                P::pinned_domain,
                (system, cs.degree, parts.k as u32),
                pinned,
            )
            &&& pk.vk.spec_domain().spec_pinned() == pinned@
        };
    let selectors = choose|selectors: Vec<Vec<bool>>|
        {
            &&& no_rows(selectors@, cs.num_selectors)
            &&& #[trigger] call_ensures(
                P::directly_convert_selectors_to_fixed,
                (system, cs, selectors),
                pk.vk.spec_cs(),
            )
        };
    (cs, pinned, selectors)
}

/// The coefficients of fixed column `i` are those that the proof system computes from
/// its evaluations, wherever they live. The two polynomials are handed back.
pub proof fn law_fixed_coefficients_belong_to_their_values<
    F: KeyField,
    C: ProcessedSerdeObject,
    P: ProofSystem<F>,
    Ci: Circuit,
    D: SpillDevice<F>,
>(
    input: Seq<u8>,
    ending: ReadError,
    format: SerdeFormat,
    system: &P,
    circuit: &Ci,
    host: Option<&SpillHost<'_, D>>,
    policy: ProverConfig,
    pk: ProvingKey<F, C, P::Evaluator, D::Store>,
    rest: Seq<u8>,
    i: int,
) -> (made: (Polynomial<F, LagrangeCoeff>, Polynomial<F, Coeff>))
    requires
        reads_key::<F, C, P, Ci, D>(
            input,
            ending,
            format,
            system,
            circuit,
            host,
            policy,
            Ok::<_, ReadError>(pk),
            rest,
        ),
        0 <= i < pk.fixed_values_rows().len(),
    ensures
        pk.fixed_polys_rows().len() == pk.fixed_values_rows().len(),
        call_ensures(
            P::lagrange_to_coeff,
            (system, &pk.vk.spec_domain(), &made.0),
            made.1,
        ),
        pk.fixed_values_rows()[i] == made.0.values@,
        pk.fixed_polys_rows()[i] == made.1.values@,
{
    let (_, heap) = lemma_read_keys_were_loaded::<F, C, P, Ci, D>(
        input,
        ending,
        format,
        system,
        circuit,
        host,
        policy,
        pk,
        rest,
    );
    assert(heap.fixed_values_rows()[i] == heap.fixed_values@[i].values@);
    assert(heap.fixed_polys_rows()[i] == heap.fixed_polys@[i].values@);
    (heap.fixed_values@[i], heap.fixed_polys@[i])
}

/// The coefficients of permutation polynomial `i` are those that the proof system
/// computes from its evaluations, wherever they live. The two polynomials are handed
/// back.
pub proof fn law_permutation_coefficients_belong_to_their_values<
    F: KeyField,
    C: ProcessedSerdeObject,
    P: ProofSystem<F>,
    Ci: Circuit,
    D: SpillDevice<F>,
>(
    input: Seq<u8>,
    ending: ReadError,
    format: SerdeFormat,
    system: &P,
    circuit: &Ci,
    host: Option<&SpillHost<'_, D>>,
    policy: ProverConfig,
    pk: ProvingKey<F, C, P::Evaluator, D::Store>,
    rest: Seq<u8>,
    i: int,
) -> (made: (Polynomial<F, LagrangeCoeff>, Polynomial<F, Coeff>))
    requires
        reads_key::<F, C, P, Ci, D>(
            input,
            ending,
            format,
            system,
            circuit,
            host,
            policy,
            Ok::<_, ReadError>(pk),
            rest,
        ),
        0 <= i < pk.permutation.permutations@.len(),
    ensures
        pk.permutation_polys_rows().len() == pk.permutation.permutations@.len(),
        call_ensures(
            P::lagrange_to_coeff,
            (system, &pk.vk.spec_domain(), &made.0),
            made.1,
        ),
        pk.permutation.permutations@[i] == made.0,
        pk.permutation_polys_rows()[i] == made.1.values@,
{
    let (_, heap) = lemma_read_keys_were_loaded::<F, C, P, Ci, D>(
        input,
        ending,
        format,
        system,
        circuit,
        host,
        policy,
        pk,
        rest,
    );
    assert(heap.permutation_polys_rows()[i] == heap.permutation.polys@[i].values@);
    (heap.permutation.permutations@[i], heap.permutation.polys@[i])
}

/// A key that stays on the heap has all its cosets, and each is what the proof system
/// computes from the coefficients at the same position.
pub proof fn law_heap_cosets_belong_to_their_coefficients<
    F: KeyField,
    C: ProcessedSerdeObject,
    P: ProofSystem<F>,
    Ci: Circuit,
    D: SpillDevice<F>,
>(
    input: Seq<u8>,
    ending: ReadError,
    format: SerdeFormat,
    system: &P,
    circuit: &Ci,
    host: Option<&SpillHost<'_, D>>,
    policy: ProverConfig,
    pk: ProvingKey<F, C, P::Evaluator, D::Store>,
    rest: Seq<u8>,
)
    requires
        reads_key::<F, C, P, Ci, D>(
            input,
            ending,
            format,
            system,
            circuit,
            host,
            policy,
            Ok::<_, ReadError>(pk),
            rest,
        ),
        host is None || !policy.map_prover_key,
    ensures
        pk.fixed_polys_mmap is None && pk.fixed_values_mmap is None
            && pk.permutation_polys_mmap is None,
        pk.fixed_cosets@.len() == pk.fixed_polys@.len() == pk.fixed_values@.len(),
        forall|i: int|
            0 <= i < pk.fixed_cosets@.len() ==> call_ensures(
                P::coeff_to_extended,
                (system, &pk.vk.spec_domain(), &pk.fixed_polys@[i]),
                #[trigger] pk.fixed_cosets@[i],
            ),
        pk.permutation.cosets@.len() == pk.permutation.polys@.len(),
        pk.permutation.polys@.len() == pk.permutation.permutations@.len(),
        forall|i: int|
            0 <= i < pk.permutation.cosets@.len() ==> call_ensures(
                P::coeff_to_extended,
                (system, &pk.vk.spec_domain(), &pk.permutation.polys@[i]),
                #[trigger] pk.permutation.cosets@[i],
            ),
{
    let _ = lemma_read_keys_were_loaded::<F, C, P, Ci, D>(
        input,
        ending,
        format,
        system,
        circuit,
        host,
        policy,
        pk,
        rest,
    );
}

/// A key on the heap is read whenever the bytes hold one. Bytes that hold none are
/// rejected for what is wrong with them, whatever the policy is.
pub proof fn law_only_the_bytes_decide_about_a_heap_read<
    F: KeyField,
    C: ProcessedSerdeObject,
    P: ProofSystem<F>,
    Ci: Circuit,
    D: SpillDevice<F>,
>(
    input: Seq<u8>,
    ending: ReadError,
    format: SerdeFormat,
    system: &P,
    circuit: &Ci,
    host: Option<&SpillHost<'_, D>>,
    policy: ProverConfig,
    read: Result<ProvingKey<F, C, P::Evaluator, D::Store>, ReadError>,
    rest: Seq<u8>,
    error: ReadError,
)
    requires
        reads_key::<F, C, P, Ci, D>(
            input,
            ending,
            format,
            system,
            circuit,
            host,
            policy,
            read,
            rest,
        ),
    ensures
        (host is None || !policy.map_prover_key) && (forall|cs: ConstraintSystem| #[trigger]
            call_ensures(Ci::configure, (circuit,), cs) ==> pk_parsed::<F, C>(
                input,
                format,
                F::spec_s(),
                cs.permutation_columns,
            ) is Ok) ==> read is Ok,
        (forall|cs: ConstraintSystem| #[trigger]
            call_ensures(Ci::configure, (circuit,), cs) ==> pk_parsed::<F, C>(
                input,
                format,
                F::spec_s(),
                cs.permutation_columns,
            ) == Err::<(ProvingKeyParts, Seq<u8>), ReadError>(error)) ==> read is Err && read->Err_0
            == if error is UnexpectedEof {
            ending
        } else {
            error
        },
{
}

/// A proving key is read from the front to the back: the verifying key, then the fixed
/// columns, then the permutation polynomials, each from where the one before it ends.
pub proof fn law_a_proving_key_is_read_front_to_back<
    F: ProcessedSerdeObject,
    C: ProcessedSerdeObject,
>(input: Seq<u8>, format: SerdeFormat, max_k: u32, columns: usize)
    ensures
        match vk_parsed::<C>(input, format, max_k, columns) {
            Err(e) => pk_parsed::<F, C>(input, format, max_k, columns) == Err::<
                (ProvingKeyParts, Seq<u8>),
                ReadError,
            >(e),
            Ok((vk, after_vk)) => match batch_parsed::<F>(after_vk, format) {
                Err(e) => pk_parsed::<F, C>(input, format, max_k, columns) == Err::<
                    (ProvingKeyParts, Seq<u8>),
                    ReadError,
                >(e),
                Ok((fixed, after_fixed)) => match batch_parsed::<F>(after_fixed, format) {
                    Err(e) => pk_parsed::<F, C>(input, format, max_k, columns) == Err::<
                        (ProvingKeyParts, Seq<u8>),
                        ReadError,
                    >(e),
                    Ok((permutation, rest)) => pk_parsed::<F, C>(input, format, max_k, columns)
                        == Ok::<(ProvingKeyParts, Seq<u8>), ReadError>(
                        (ProvingKeyParts { vk, fixed, permutation }, rest),
                    ),
                },
            },
        },
{
}

/// A proving key is written as its verifying key, then its fixed columns, then its
/// permutation polynomials, and has as many bytes as it says it has. Where its batches
/// live makes no difference.
pub proof fn law_a_proving_key_is_written_front_to_back<
    F: KeyField,
    C: ProcessedSerdeObject,
    E,
    M: MappedStore<F>,
>(
    pk: ProvingKey<F, C, E, M>,
    format: SerdeFormat,
    bytes: Vec<u8>,
    vk_bytes: Vec<u8>,
    length: usize,
    fixed_values: Vec<PolynomialView<'_, F, LagrangeCoeff>>,
)
    requires
        call_ensures(ProvingKey::<F, C, E, M>::to_bytes, (&pk, format), bytes),
        call_ensures(VerifyingKey::<F, C>::to_bytes, (&pk.vk, format), vk_bytes),
        call_ensures(ProvingKey::<F, C, E, M>::bytes_length, (&pk, format), length),
        call_ensures(ProvingKey::<F, C, E, M>::fixed_values_views, (&pk,), fixed_values),
    ensures
        bytes@ == vk_bytes@ + batch_encoded::<F>(row_reprs(rows_of(fixed_values@)), format)
            + batch_encoded::<F>(row_reprs(rows_of(pk.permutation.permutations@)), format),
        bytes@.len() == length,
{
}

/// What the accessors hand out is what is stored: the heap's polynomials where a batch
/// is on the heap, and the mapping's where it is mapped.
pub proof fn law_accessors_hand_out_what_is_stored<
    F: KeyField,
    C: ProcessedSerdeObject,
    E,
    M: MappedStore<F>,
>(
    pk: ProvingKey<F, C, E, M>,
    fixed_polys: Vec<PolynomialView<'_, F, Coeff>>,
    fixed_values: Vec<PolynomialView<'_, F, LagrangeCoeff>>,
    permutation_polys: Vec<PolynomialView<'_, F, Coeff>>,
)
    requires
        call_ensures(ProvingKey::<F, C, E, M>::fixed_polys_views, (&pk,), fixed_polys),
        call_ensures(ProvingKey::<F, C, E, M>::fixed_values_views, (&pk,), fixed_values),
        call_ensures(
            ProvingKey::<F, C, E, M>::permutation_polys_views,
            (&pk,),
            permutation_polys,
        ),
    ensures
        pk.fixed_polys_mmap is None ==> rows_of(fixed_polys@) == rows_of(pk.fixed_polys@),
        pk.fixed_polys_mmap matches Some(mapped) ==> rows_of(fixed_polys@) == mapped.rows(),
        pk.fixed_values_mmap is None ==> rows_of(fixed_values@) == rows_of(pk.fixed_values@),
        pk.fixed_values_mmap matches Some(mapped) ==> rows_of(fixed_values@) == mapped.rows(),
        pk.permutation_polys_mmap is None ==> rows_of(permutation_polys@) == rows_of(
            pk.permutation.polys@,
        ),
        pk.permutation_polys_mmap matches Some(mapped) ==> rows_of(permutation_polys@)
            == mapped.rows(),
{
}

/// A batch whose polynomials have one length is moved whenever the device's steps
/// succeed, however large it is. It is then mapped, and off the heap.
pub proof fn law_a_batch_is_moved_when_the_steps_succeed<F, B, D: SpillDevice<F>>(
    target: SpillTarget<'_, D>,
    heap: Seq<Polynomial<F, B>>,
    heap_after: Seq<Polynomial<F, B>>,
    mapped_after: Option<Arc<MmappedPolys<F, B, D::Store>>>,
    width: usize,
    outcome: Result<(), SpillError>,
)
    requires
        moves(target, heap, None, heap_after, mapped_after, outcome),
        0 < heap.len() <= usize::MAX,
        forall|i: int| 0 <= i < heap.len() ==> (#[trigger] heap[i]).values@.len() == width,
        0 < vstd::layout::size_of::<F>(),
        0 < width,
        heap.len() * width * vstd::layout::size_of::<F>() <= usize::MAX,
        target.platform matches Platform::Fallocate { max_offset } ==> heap.len() * width
            * vstd::layout::size_of::<F>() <= max_offset,
        target.platform matches Platform::Preallocate { max_offset } ==> heap.len() * width
            * vstd::layout::size_of::<F>() <= max_offset,
        forall|made: Result<D::File, IoFailure>| #[trigger]
            call_ensures(D::tempfile, (target.device,), made) ==> made is Ok,
        forall|dir: String, made: Result<D::File, IoFailure>| #[trigger]
            call_ensures(D::tempfile_in, (target.device, &dir), made) ==> made is Ok,
        forall|f: D::File, len: i64, outcome: Result<D::File, IoFailure>| #[trigger]
            call_ensures(D::posix_fallocate, (target.device, f, len), outcome) ==> outcome is Ok,
        forall|f: D::File, len: i64, contiguous: bool, outcome: Preallocation<D::File>| #[trigger]
            call_ensures(D::preallocate, (target.device, f, len, contiguous), outcome)
                ==> outcome is Reserved && outcome->Reserved_1 >= len,
        forall|f: D::File, len: u64, outcome: Result<D::File, IoFailure>| #[trigger]
            call_ensures(D::set_len, (target.device, f, len), outcome) ==> outcome is Ok,
        forall|f: D::File, len: usize, outcome: Result<D::File, IoFailure>| #[trigger]
            call_ensures(D::write_zeros, (target.device, f, len), outcome) ==> outcome is Ok,
        forall|f: D::File, outcome: Result<D::File, IoFailure>| #[trigger]
            call_ensures(D::flush, (target.device, f), outcome) ==> outcome is Ok,
        forall|f: D::File, len: usize, mapped: Result<Mapping<D::Store>, IoFailure>| #[trigger]
            call_ensures(D::map, (target.device, f, len), mapped) ==> mapped is Ok
                && mapped->Ok_0.store.slots().len() * vstd::layout::size_of::<F>() == len
                && mapped->Ok_0.base as nat % vstd::layout::align_of::<F>() == 0,
        forall|filled: D::Store, sealed: Result<D::Store, IoFailure>| #[trigger]
            call_ensures(D::Store::seal, (filled,), sealed) ==> sealed is Ok,
    ensures
        outcome is Ok,
        heap_after.len() == 0,
        mapped_after is Some,
        mapped_after->Some_0.rows().len() == heap.len(),
        forall|i: int|
            0 <= i < heap.len() ==> #[trigger] mapped_after->Some_0.rows()[i] == heap[i].values@,
{
    let rows = rows_of(heap);
    let n_polys = heap.len() as usize;
    assert(heap[0].values@.len() == width);
    let spilled = choose|spilled: Result<MmappedPolys<F, B, D::Store>, SpillError>|
        {
            &&& #[trigger] spills(
                target,
                rows,
                n_polys,
                heap[0].coeffs().len() as usize,
                spilled,
            )
            &&& match spilled {
                Ok(polys) => outcome is Ok && mapped_after is Some && *mapped_after->Some_0 == polys,
                Err(e) => outcome == Err::<(), SpillError>(e) && mapped_after is None,
            }
        };
    assert forall|i: int| 0 <= i < rows.len() implies (#[trigger] rows[i]).len() == width by {
        assert(heap[i].values@.len() == width);
    }
    law_the_first_row_out_of_place_decides(rows, heap.len(), n_polys, width);
    lemma_the_rows_decide(target, rows, n_polys, width, spilled);
    law_a_spill_holds_what_was_spilled(target, rows, n_polys, width, spilled->Ok_0);
}

/// A batch that could not be moved is gone from the heap and is not mapped, and the
/// cosets of its key are still there.
pub proof fn law_a_failed_move_keeps_the_cosets<
    F: KeyField,
    C: ProcessedSerdeObject,
    E,
    D: SpillDevice<F>,
>(
    target: SpillTarget<'_, D>,
    before: ProvingKey<F, C, E, D::Store>,
    after: ProvingKey<F, C, E, D::Store>,
    error: SpillError,
)
    requires
        moves_all(target, before, after, Err::<(), SpillError>(error)),
    ensures
        after.fixed_cosets == before.fixed_cosets,
        after.permutation.cosets == before.permutation.cosets,
        after.fixed_polys@.len() == 0 && after.fixed_polys_mmap is None || after.fixed_values@.len()
            == 0 && after.fixed_values_mmap is None || after.permutation.polys@.len() == 0
            && after.permutation_polys_mmap is None,
{
}

/// A batch that is empty or whose polynomials have one length is moved when the
/// device's steps succeed.
proof fn lemma_moving_succeeds<F, B, D: SpillDevice<F>>(
    target: SpillTarget<'_, D>,
    heap: Seq<Polynomial<F, B>>,
    heap_after: Seq<Polynomial<F, B>>,
    mapped_after: Option<Arc<MmappedPolys<F, B, D::Store>>>,
    width: usize,
    outcome: Result<(), SpillError>,
)
    requires
        moves(target, heap, None, heap_after, mapped_after, outcome),
        heap.len() <= usize::MAX,
        forall|i: int| 0 <= i < heap.len() ==> (#[trigger] heap[i]).values@.len() == width,
        0 < vstd::layout::size_of::<F>(),
        0 < width,
        heap.len() * width * vstd::layout::size_of::<F>() <= usize::MAX,
        target.platform matches Platform::Fallocate { max_offset } ==> heap.len() * width
            * vstd::layout::size_of::<F>() <= max_offset,
        target.platform matches Platform::Preallocate { max_offset } ==> heap.len() * width
            * vstd::layout::size_of::<F>() <= max_offset,
        forall|made: Result<D::File, IoFailure>| #[trigger]
            call_ensures(D::tempfile, (target.device,), made) ==> made is Ok,
        forall|dir: String, made: Result<D::File, IoFailure>| #[trigger]
            call_ensures(D::tempfile_in, (target.device, &dir), made) ==> made is Ok,
        forall|f: D::File, len: i64, outcome: Result<D::File, IoFailure>| #[trigger]
            call_ensures(D::posix_fallocate, (target.device, f, len), outcome) ==> outcome is Ok,
        forall|f: D::File, len: i64, contiguous: bool, outcome: Preallocation<D::File>| #[trigger]
            call_ensures(D::preallocate, (target.device, f, len, contiguous), outcome)
                ==> outcome is Reserved && outcome->Reserved_1 >= len,
        forall|f: D::File, len: u64, outcome: Result<D::File, IoFailure>| #[trigger]
            call_ensures(D::set_len, (target.device, f, len), outcome) ==> outcome is Ok,
        forall|f: D::File, len: usize, outcome: Result<D::File, IoFailure>| #[trigger]
            call_ensures(D::write_zeros, (target.device, f, len), outcome) ==> outcome is Ok,
        forall|f: D::File, outcome: Result<D::File, IoFailure>| #[trigger]
            call_ensures(D::flush, (target.device, f), outcome) ==> outcome is Ok,
        forall|f: D::File, len: usize, mapped: Result<Mapping<D::Store>, IoFailure>| #[trigger]
            call_ensures(D::map, (target.device, f, len), mapped) ==> mapped is Ok
                && mapped->Ok_0.store.slots().len() * vstd::layout::size_of::<F>() == len
                && mapped->Ok_0.base as nat % vstd::layout::align_of::<F>() == 0,
        forall|filled: D::Store, sealed: Result<D::Store, IoFailure>| #[trigger]
            call_ensures(D::Store::seal, (filled,), sealed) ==> sealed is Ok,
    ensures
        outcome is Ok,
{
    if heap.len() > 0 {
        law_a_batch_is_moved_when_the_steps_succeed(
            target,
            heap,
            heap_after,
            mapped_after,
            width,
            outcome,
        );
    }
}

/// A key whose columns have one length is read into mapped files whenever the bytes
/// hold it and the device's steps succeed, however large it is.
pub proof fn law_a_mapped_read_succeeds_when_the_steps_do<
    F: KeyField,
    C: ProcessedSerdeObject,
    P: ProofSystem<F>,
    Ci: Circuit,
    D: SpillDevice<F>,
>(
    input: Seq<u8>,
    ending: ReadError,
    format: SerdeFormat,
    system: &P,
    circuit: &Ci,
    host: SpillHost<'_, D>,
    policy: ProverConfig,
    parts: ProvingKeyParts,
    width: usize,
    read: Result<ProvingKey<F, C, P::Evaluator, D::Store>, ReadError>,
    rest: Seq<u8>,
)
    requires
        reads_key::<F, C, P, Ci, D>(
            input,
            ending,
            format,
            system,
            circuit,
            Some(&host),
            policy,
            read,
            rest,
        ),
        policy.map_prover_key,
        forall|cs: ConstraintSystem| #[trigger]
            call_ensures(Ci::configure, (circuit,), cs) ==> pk_parsed::<F, C>(
                input,
                format,
                F::spec_s(),
                cs.permutation_columns,
            ) is Ok && pk_parsed::<F, C>(
                input,
                format,
                F::spec_s(),
                cs.permutation_columns,
            )->Ok_0.0 == parts,
        forall|i: int| 0 <= i < parts.fixed.len() ==> (#[trigger] parts.fixed[i]).len() == width,
        forall|i: int|
            0 <= i < parts.permutation.len() ==> (#[trigger] parts.permutation[i]).len() == width,
        forall|
            domain: EvaluationDomain,
            values: Polynomial<F, LagrangeCoeff>,
            poly: Polynomial<F, Coeff>,
        | #[trigger]
            call_ensures(P::lagrange_to_coeff, (system, &domain, &values), poly)
                ==> poly.values@.len() == values.values@.len(),
        0 < vstd::layout::size_of::<F>(),
        0 < width,
        parts.fixed.len() * width * vstd::layout::size_of::<F>() <= usize::MAX,
        host.platform matches Platform::Fallocate { max_offset } ==> parts.fixed.len() * width
            * vstd::layout::size_of::<F>() <= max_offset,
        host.platform matches Platform::Preallocate { max_offset } ==> parts.fixed.len() * width
            * vstd::layout::size_of::<F>() <= max_offset,
        parts.permutation.len() * width * vstd::layout::size_of::<F>() <= usize::MAX,
        host.platform matches Platform::Fallocate { max_offset } ==> parts.permutation.len() * width
            * vstd::layout::size_of::<F>() <= max_offset,
        host.platform matches Platform::Preallocate { max_offset } ==> parts.permutation.len() * width
            * vstd::layout::size_of::<F>() <= max_offset,
        forall|made: Result<D::File, IoFailure>| #[trigger]
            call_ensures(D::tempfile, (host.device,), made) ==> made is Ok,
        forall|dir: String, made: Result<D::File, IoFailure>| #[trigger]
            call_ensures(D::tempfile_in, (host.device, &dir), made) ==> made is Ok,
        forall|f: D::File, len: i64, outcome: Result<D::File, IoFailure>| #[trigger]
            call_ensures(D::posix_fallocate, (host.device, f, len), outcome) ==> outcome is Ok,
        forall|f: D::File, len: i64, contiguous: bool, outcome: Preallocation<D::File>| #[trigger]
            call_ensures(D::preallocate, (host.device, f, len, contiguous), outcome)
                ==> outcome is Reserved && outcome->Reserved_1 >= len,
        forall|f: D::File, len: u64, outcome: Result<D::File, IoFailure>| #[trigger]
            call_ensures(D::set_len, (host.device, f, len), outcome) ==> outcome is Ok,
        forall|f: D::File, len: usize, outcome: Result<D::File, IoFailure>| #[trigger]
            call_ensures(D::write_zeros, (host.device, f, len), outcome) ==> outcome is Ok,
        forall|f: D::File, outcome: Result<D::File, IoFailure>| #[trigger]
            call_ensures(D::flush, (host.device, f), outcome) ==> outcome is Ok,
        forall|f: D::File, len: usize, mapped: Result<Mapping<D::Store>, IoFailure>| #[trigger]
            call_ensures(D::map, (host.device, f, len), mapped) ==> mapped is Ok
                && mapped->Ok_0.store.slots().len() * vstd::layout::size_of::<F>() == len
                && mapped->Ok_0.base as nat % vstd::layout::align_of::<F>() == 0,
        forall|filled: D::Store, sealed: Result<D::Store, IoFailure>| #[trigger]
            call_ensures(D::Store::seal, (filled,), sealed) ==> sealed is Ok,
    ensures
        read is Ok,
{
    let cs = choose|cs: ConstraintSystem|
        {
            &&& #[trigger] call_ensures(Ci::configure, (circuit,), cs)
            &&& reads_key_for::<F, C, P, D>(
                cs,
                input,
                ending,
                format,
                system,
                Some(&host),
                policy,
                read,
                rest,
            )
        };
    let target = target_under(host, policy);
    let (heap, moved, outcome) = choose|
        heap: ProvingKey<F, C, P::Evaluator, D::Store>,
        moved: ProvingKey<F, C, P::Evaluator, D::Store>,
        outcome: Result<(), SpillError>,
    |
        {
            &&& loaded::<F, C, P, D::Store>(heap, system, cs, parts, true)
            &&& #[trigger] moves_all::<F, C, P::Evaluator, D>(target, heap, moved, outcome)
            &&& match outcome {
                Ok(_) => read == Ok::<_, ReadError>(moved),
                Err(e) => true,
            }
        };
    let domain = heap.vk.spec_domain();
    assert(heap.fixed_polys.len() <= usize::MAX);
    assert(heap.fixed_values.len() <= usize::MAX);
    assert(heap.permutation.polys.len() <= usize::MAX);
    assert(row_reprs(rows_of(heap.fixed_values@)).len() == heap.fixed_values@.len());
    assert(row_reprs(rows_of(heap.permutation.permutations@)).len()
        == heap.permutation.permutations@.len());
    assert forall|i: int| 0 <= i < heap.fixed_values@.len() implies (
    #[trigger] heap.fixed_values@[i]).values@.len() == width by {
        assert(parts.fixed[i] == reprs_of(heap.fixed_values@[i].coeffs()));
    }
    assert forall|i: int| 0 <= i < heap.fixed_polys@.len() implies (
    #[trigger] heap.fixed_polys@[i]).values@.len() == width by {
        assert(heap.fixed_values@[i].values@.len() == width);
        assert(call_ensures(
            P::lagrange_to_coeff,
            (system, &domain, &heap.fixed_values@[i]),
            heap.fixed_polys@[i],
        ));
    }
    assert forall|i: int| 0 <= i < heap.permutation.polys@.len() implies (
    #[trigger] heap.permutation.polys@[i]).values@.len() == width by {
        assert(parts.permutation[i] == reprs_of(heap.permutation.permutations@[i].coeffs()));
        assert(call_ensures(
            P::lagrange_to_coeff,
            (system, &domain, &heap.permutation.permutations@[i]),
            heap.permutation.polys@[i],
        ));
    }
    if outcome is Err {
        if moves_fixed_polys(target, heap, moved, outcome) {
            lemma_moving_succeeds(
                target,
                heap.fixed_polys@,
                moved.fixed_polys@,
                moved.fixed_polys_mmap,
                width,
                outcome,
            );
        } else if moves_fixed_values(target, heap, moved, outcome) {
            lemma_moving_succeeds(
                target,
                heap.fixed_values@,
                moved.fixed_values@,
                moved.fixed_values_mmap,
                width,
                outcome,
            );
        } else {
            lemma_moving_succeeds(
                target,
                heap.permutation.polys@,
                moved.permutation.polys@,
                moved.permutation_polys_mmap,
                width,
                outcome,
            );
        }
    }
}

/// The stages of a load are completed one after the other: all of them if it succeeds,
/// all but the last if only the spill fails, and fewer the earlier the bytes turn out to
/// hold no key.
pub proof fn law_stages_are_completed_in_order<F: ProcessedSerdeObject, C: ProcessedSerdeObject>(
    input: Seq<u8>,
    format: SerdeFormat,
    max_k: u32,
    columns: usize,
)
    ensures
        ({
            let vk = vk_parsed::<C>(input, format, max_k, columns);
            let fixed = batch_parsed::<F>(vk->Ok_0.1, format);
            let key = pk_parsed::<F, C>(input, format, max_k, columns);
            &&& key is Ok ==> stages_completed::<F, C>(input, format, max_k, columns, true)
                == stage_names().len()
            &&& key is Ok ==> stages_completed::<F, C>(input, format, max_k, columns, false)
                == stage_names().len() - 1
            &&& key is Err && vk is Ok && fixed is Ok ==> stage_names()[stages_completed::<F, C>(
                input,
                format,
                max_k,
                columns,
                false,
            ) as int] == "permutation read"@
            &&& vk is Ok && fixed is Err ==> stage_names()[stages_completed::<F, C>(
                input,
                format,
                max_k,
                columns,
                false,
            ) as int] == "fixed_values read"@
            &&& vk is Err ==> stage_names()[stages_completed::<F, C>(
                input,
                format,
                max_k,
                columns,
                false,
            ) as int] == "vk read (incl. domain)"@
        }),
{
}

/// Moving batches changes nothing but where they live and which cosets are there, and
/// no batch is then both mapped and on the heap.
pub proof fn law_moving_changes_nothing_else<
    F: KeyField,
    C: ProcessedSerdeObject,
    E,
    M: MappedStore<F>,
>(before: ProvingKey<F, C, E, M>, after: ProvingKey<F, C, E, M>)
    requires
        same_but_storage(before, after),
        after.stored_once(),
    ensures
        after.vk == before.vk,
        after.l0 == before.l0,
        after.l_last == before.l_last,
        after.l_active_row == before.l_active_row,
        after.permutation.permutations == before.permutation.permutations,
        after.ev == before.ev,
        after.fixed_polys_mmap is Some ==> after.fixed_polys@.len() == 0,
        after.fixed_values_mmap is Some ==> after.fixed_values@.len() == 0,
        after.permutation_polys_mmap is Some ==> after.permutation.polys@.len() == 0,
{
}

/// Batches are moved in order: the coefficients of the fixed columns, their values, the
/// permutation. A batch is only touched when those before it have been moved, so after a
/// failure those after it are as they were.
pub proof fn law_batches_are_moved_in_order<
    F: KeyField,
    C: ProcessedSerdeObject,
    E,
    D: SpillDevice<F>,
>(
    target: SpillTarget<'_, D>,
    before: ProvingKey<F, C, E, D::Store>,
    after: ProvingKey<F, C, E, D::Store>,
    outcome: Result<(), SpillError>,
)
    requires
        before.fixed_polys@.len() <= usize::MAX,
        before.fixed_values@.len() <= usize::MAX,
        before.stored_once(),
        moves_all(target, before, after, outcome),
    ensures
        before.fixed_polys@.len() > 0 && after.fixed_polys_mmap is None ==> outcome is Err
            && after.fixed_values == before.fixed_values && after.fixed_values_mmap
            == before.fixed_values_mmap && after.permutation.polys == before.permutation.polys
            && after.permutation_polys_mmap == before.permutation_polys_mmap,
        before.fixed_values@.len() > 0 && after.fixed_values_mmap is None ==> outcome is Err
            && after.permutation.polys == before.permutation.polys && after.permutation_polys_mmap
            == before.permutation_polys_mmap,
{
    if moves_fixed_polys(target, before, after, Ok::<(), SpillError>(())) {
        law_moving_keeps_the_values(
            target,
            before.fixed_polys@,
            before.fixed_polys_mmap,
            after.fixed_polys@,
            after.fixed_polys_mmap,
        );
    }
    if moves_fixed_values(target, before, after, Ok::<(), SpillError>(())) {
        law_moving_keeps_the_values(
            target,
            before.fixed_values@,
            before.fixed_values_mmap,
            after.fixed_values@,
            after.fixed_values_mmap,
        );
    }
}

/// A clone hands out what the key hands out, and is made of the same.
pub proof fn law_a_clone_is_the_same_key<
    F: KeyField,
    C: ProcessedSerdeObject + Copy,
    E: Clone,
    M: MappedStore<F>,
>(pk: ProvingKey<F, C, E, M>, copy: ProvingKey<F, C, E, M>)
    requires
        call_ensures(ProvingKey::<F, C, E, M>::clone, (&pk,), copy),
    ensures
        copy.vk.parts() == pk.vk.parts(),
        copy.vk.spec_domain() == pk.vk.spec_domain(),
        copy.vk.spec_cs() == pk.vk.spec_cs(),
        copy.vk.spec_transcript_repr() == pk.vk.spec_transcript_repr(),
        copy.l0.values@ == pk.l0.values@,
        copy.l_last.values@ == pk.l_last.values@,
        copy.l_active_row.values@ == pk.l_active_row.values@,
        rows_of(copy.fixed_polys@) == rows_of(pk.fixed_polys@),
        rows_of(copy.fixed_values@) == rows_of(pk.fixed_values@),
        rows_of(copy.fixed_cosets@) == rows_of(pk.fixed_cosets@),
        rows_of(copy.permutation.permutations@) == rows_of(pk.permutation.permutations@),
        rows_of(copy.permutation.polys@) == rows_of(pk.permutation.polys@),
        rows_of(copy.permutation.cosets@) == rows_of(pk.permutation.cosets@),
        cloned(pk.ev, copy.ev),
        copy.fixed_polys_mmap == pk.fixed_polys_mmap,
        copy.fixed_values_mmap == pk.fixed_values_mmap,
        copy.permutation_polys_mmap == pk.permutation_polys_mmap,
{
}

/// A host that can spill maps every key under a policy that asks for it, whatever else
/// the policy says: no coset is built, every batch has left the heap, and each is mapped
/// exactly when there is anything in it.
pub proof fn law_a_policy_that_maps_keys_maps_them<
    F: KeyField,
    C: ProcessedSerdeObject,
    P: ProofSystem<F>,
    Ci: Circuit,
    D: SpillDevice<F>,
>(
    input: Seq<u8>,
    ending: ReadError,
    format: SerdeFormat,
    system: &P,
    circuit: &Ci,
    host: SpillHost<'_, D>,
    policy: ProverConfig,
    pk: ProvingKey<F, C, P::Evaluator, D::Store>,
    rest: Seq<u8>,
)
    requires
        policy.map_prover_key,
        reads_key::<F, C, P, Ci, D>(
            input,
            ending,
            format,
            system,
            circuit,
            Some(&host),
            policy,
            Ok::<_, ReadError>(pk),
            rest,
        ),
    ensures
        pk.fixed_cosets@.len() == 0,
        pk.permutation.cosets@.len() == 0,
        pk.fixed_polys@.len() == 0,
        pk.fixed_values@.len() == 0,
        pk.permutation.polys@.len() == 0,
        pk.fixed_polys_mmap is Some <==> pk.parts().fixed.len() > 0,
        pk.fixed_values_mmap is Some <==> pk.parts().fixed.len() > 0,
        pk.permutation_polys_mmap is Some <==> pk.permutation.permutations@.len() > 0,
{
    let (_, heap) = lemma_read_keys_were_loaded::<F, C, P, Ci, D>(
        input,
        ending,
        format,
        system,
        circuit,
        Some(&host),
        policy,
        pk,
        rest,
    );
    assert(heap.fixed_polys.len() <= usize::MAX);
    assert(heap.fixed_values.len() <= usize::MAX);
    assert(heap.permutation.polys.len() <= usize::MAX);
    law_a_mapped_key_holds_no_cosets(target_under(host, policy), heap, pk);
    assert(row_reprs(heap.fixed_values_rows()).len() == heap.fixed_values@.len());
}

/// A key that is mapped is mapped on the host's device, into the directory of the policy
/// if it names one. The file of the first batch is handed back.
pub proof fn law_a_key_is_mapped_where_the_policy_says<
    F: KeyField,
    C: ProcessedSerdeObject,
    P: ProofSystem<F>,
    Ci: Circuit,
    D: SpillDevice<F>,
>(
    input: Seq<u8>,
    ending: ReadError,
    format: SerdeFormat,
    system: &P,
    circuit: &Ci,
    host: SpillHost<'_, D>,
    policy: ProverConfig,
    pk: ProvingKey<F, C, P::Evaluator, D::Store>,
    rest: Seq<u8>,
    dir: String,
) -> (file: D::File)
    requires
        policy.map_prover_key,
        policy.spill_dir == Some(dir),
        dir@.len() > 0,
        reads_key::<F, C, P, Ci, D>(
            input,
            ending,
            format,
            system,
            circuit,
            Some(&host),
            policy,
            Ok::<_, ReadError>(pk),
            rest,
        ),
        pk.parts().fixed.len() > 0,
    ensures
        call_ensures(D::tempfile_in, (host.device, &dir), Ok::<_, IoFailure>(file)),
{
    let (_, heap) = lemma_read_keys_were_loaded::<F, C, P, Ci, D>(
        input,
        ending,
        format,
        system,
        circuit,
        Some(&host),
        policy,
        pk,
        rest,
    );
    assert(row_reprs(heap.fixed_values_rows()).len() == heap.fixed_values@.len());
    let target = target_under(host, policy);
    let rows = rows_of(heap.fixed_polys@);
    let n_polys = heap.fixed_polys@.len() as usize;
    let width = heap.fixed_polys@[0].coeffs().len() as usize;
    let spilled = choose|spilled: Result<MmappedPolys<F, Coeff, D::Store>, SpillError>|
        {
            &&& #[trigger] spills(target, rows, n_polys, width, spilled)
            &&& spilled is Ok
        };
    lemma_a_spill_is_in_the_requested_directory(
        target,
        rows,
        n_polys,
        width,
        spilled->Ok_0,
        dir,
    )
}

/// A key that is to be mapped into a directory that takes no file is rejected with that,
/// and not kept on the heap instead.
pub proof fn law_a_bad_directory_rejects_the_key<
    F: KeyField,
    C: ProcessedSerdeObject,
    P: ProofSystem<F>,
    Ci: Circuit,
    D: SpillDevice<F>,
>(
    input: Seq<u8>,
    ending: ReadError,
    format: SerdeFormat,
    system: &P,
    circuit: &Ci,
    host: SpillHost<'_, D>,
    policy: ProverConfig,
    parts: ProvingKeyParts,
    width: usize,
    read: Result<ProvingKey<F, C, P::Evaluator, D::Store>, ReadError>,
    rest: Seq<u8>,
    dir: String,
    cause: IoFailure,
)
    requires
        reads_key::<F, C, P, Ci, D>(
            input,
            ending,
            format,
            system,
            circuit,
            Some(&host),
            policy,
            read,
            rest,
        ),
        policy.map_prover_key,
        forall|cs: ConstraintSystem| #[trigger]
            call_ensures(Ci::configure, (circuit,), cs) ==> pk_parsed::<F, C>(
                input,
                format,
                F::spec_s(),
                cs.permutation_columns,
            ) is Ok && pk_parsed::<F, C>(
                input,
                format,
                F::spec_s(),
                cs.permutation_columns,
            )->Ok_0.0 == parts,
        0 < parts.fixed.len(),
        forall|
            domain: EvaluationDomain,
            values: Polynomial<F, LagrangeCoeff>,
            poly: Polynomial<F, Coeff>,
        | #[trigger]
            call_ensures(P::lagrange_to_coeff, (system, &domain, &values), poly)
                ==> poly.values@.len() == width,
        0 < vstd::layout::size_of::<F>(),
        0 < width,
        parts.fixed.len() * width * vstd::layout::size_of::<F>() <= usize::MAX,
        policy.spill_dir == Some(dir),
        dir@.len() > 0,
        forall|made: Result<D::File, IoFailure>| #[trigger]
            call_ensures(D::tempfile_in, (host.device, &dir), made) ==> made is Err && made->Err_0
                == cause,
    ensures
        read == Err::<ProvingKey<F, C, P::Evaluator, D::Store>, ReadError>(
            ReadError::Spill(SpillError::CreateTempFile { dir: Some(dir), cause }),
        ),
{
    let cs = choose|cs: ConstraintSystem|
        {
            &&& #[trigger] call_ensures(Ci::configure, (circuit,), cs)
            &&& reads_key_for::<F, C, P, D>(
                cs,
                input,
                ending,
                format,
                system,
                Some(&host),
                policy,
                read,
                rest,
            )
        };
    let target = target_under(host, policy);
    let (heap, moved, outcome) = choose|
        heap: ProvingKey<F, C, P::Evaluator, D::Store>,
        moved: ProvingKey<F, C, P::Evaluator, D::Store>,
        outcome: Result<(), SpillError>,
    |
        {
            &&& loaded::<F, C, P, D::Store>(heap, system, cs, parts, true)
            &&& #[trigger] moves_all::<F, C, P::Evaluator, D>(target, heap, moved, outcome)
            &&& match outcome {
                Ok(_) => read == Ok::<_, ReadError>(moved),
                Err(e) => read == Err::<ProvingKey<F, C, P::Evaluator, D::Store>, ReadError>(
                    ReadError::Spill(e),
                ),
            }
        };
    let domain = heap.vk.spec_domain();
    assert(heap.fixed_polys.len() <= usize::MAX);
    assert(row_reprs(rows_of(heap.fixed_values@)).len() == heap.fixed_values@.len());
    assert(call_ensures(
        P::lagrange_to_coeff,
        (system, &domain, &heap.fixed_values@[0]),
        heap.fixed_polys@[0],
    ));
    let rows = rows_of(heap.fixed_polys@);
    let n_polys = heap.fixed_polys@.len() as usize;
    assert forall|spilled: Result<MmappedPolys<F, Coeff, D::Store>, SpillError>| #[trigger]
        spills(target, rows, n_polys, width, spilled) implies spilled == Err::<
        MmappedPolys<F, Coeff, D::Store>,
        SpillError,
    >(SpillError::CreateTempFile { dir: Some(dir), cause }) by {
        law_a_bad_directory_fails_the_spill(target, rows, n_polys, width, spilled, dir, cause);
    }
    assert(heap.fixed_polys@[0].coeffs().len() as usize == width);
}

} // verus!
