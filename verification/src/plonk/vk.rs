//! Verifying keys: their parts, their identity in transcripts, and their bytes.
use blake2b_simd::{Params, OUTBYTES};
use vstd::arithmetic::power2::pow2;
use vstd::prelude::*;

use crate::bytes::{
    append_bytes, append_u32, count_parsed, law_a_count_is_four_bytes, le_value, left_of, lemma_left_of_left,
    lemma_split_leaves, read_u32, read_u8, split, surfaced, u32_bytes, ByteReader, ByteSource,
};
use crate::encoding::{
    all_pass, all_read_back, law_items_of_one_length_lie_side_by_side,
    law_objects_are_parsed_where_they_lie, law_objects_read_back, lemma_count_parsed,
    lemma_encoded_length, many_encoded, many_parsed, object_encoder, object_parser, read_objects,
    reprs_of, write_objects, Parsed, ProcessedSerdeObject, SerdeFormat,
};
use crate::error::{IoFailure, ReadError};
use crate::field::KeyField;
use crate::plonk::system::{Circuit, ConstraintSystem, EvaluationDomain, ProofSystem};

verus! {

/// The current version of the encoding.
pub const VERSION: u8 = 0x03;

/// The personalisation of the hash that identifies a key.
pub const KEY_PERSONAL: [u8; 16] = [
    0x48, 0x61, 0x6c, 0x6f, 0x32, 0x2d, 0x56, 0x65,
    0x72, 0x69, 0x66, 0x79, 0x2d, 0x4b, 0x65, 0x79,
];

/// The BLAKE2b hash of `data` under a personalisation, 64 bytes long.
pub uninterp spec fn blake2b_512(personal: Seq<u8>, data: Seq<u8>) -> Seq<u8>;

/// Hashes `data` under a personalisation.
///
/// This is `blake2b_simd`: the parameters of a hash of full length with the given
/// personalisation, one update with the data, and the final hash.
#[verifier::external_body]
fn blake2b(personal: &[u8; 16], data: &[u8]) -> (hash: [u8; 64])
    ensures
        hash@ == blake2b_512(personal@, data@),
{
    let mut hasher = Params::new().hash_length(OUTBYTES).personal(personal).to_state();
    hasher.update(data);
    *hasher.finalize().as_array()
}

/// Commitments to the permutation polynomials of a circuit.
#[derive(Debug)]
pub struct PermutationVerifyingKey<C> {
    /// One commitment per column.
    pub commitments: Vec<C>,
}

impl<C: ProcessedSerdeObject> PermutationVerifyingKey<C> {
    /// The commitments.
    pub fn commitments(&self) -> (commitments: &Vec<C>)
        ensures
            *commitments == self.commitments,
    {
        &self.commitments
    }

    /// The number of bytes of the commitments themselves.
    pub fn bytes_length(&self, format: SerdeFormat) -> (length: usize)
        requires
            self.commitments@.len() * C::spec_byte_length(format) <= usize::MAX,
        ensures
            length == self.commitments@.len() * C::spec_byte_length(format),
    {
        self.commitments.len() * C::byte_length(format)
    }
}

/// What the bytes of a verifying key hold.
#[verifier::ext_equal]
pub struct KeyParts {
    /// The logarithm of the circuit's size.
    pub k: u8,
    /// The commitments to the fixed columns.
    pub fixed: Seq<Seq<u8>>,
    /// The commitments to the permutation polynomials.
    pub permutation: Seq<Seq<u8>>,
}

/// Commitments as bytes: the low 32 bits of their number, and then each.
pub open spec fn commitments_encoded<C: ProcessedSerdeObject>(
    reprs: Seq<Seq<u8>>,
    format: SerdeFormat,
) -> Seq<u8> {
    u32_bytes(reprs.len()) + many_encoded(reprs, object_encoder::<C>(format))
}

/// A verifying key as bytes: version, size, fixed and permutation commitments.
pub open spec fn vk_encoded<C: ProcessedSerdeObject>(parts: KeyParts, format: SerdeFormat) -> Seq<
    u8,
> {
    seq![VERSION, parts.k] + commitments_encoded::<C>(parts.fixed, format) + commitments_encoded::<
        C,
    >(parts.permutation, format)
}

/// The number of bytes of a verifying key.
pub open spec fn vk_length(fixed: nat, permutation: nat, commitment_length: nat) -> nat {
    10 + fixed * commitment_length + permutation * commitment_length
}

/// The version and the size at the front of `input`.
pub open spec fn header_parsed(input: Seq<u8>, max_k: u32) -> Parsed<u8> {
    match split(input, 1) {
        Err(e) => Err(e),
        Ok((version, rest)) => if version[0] != VERSION {
            Err(ReadError::UnexpectedVersion)
        } else {
            match split(rest, 1) {
                Err(e) => Err(e),
                Ok((k, rest)) => if k[0] > max_k {
                    Err(ReadError::CircuitTooLarge { k: k[0], max: max_k })
                } else {
                    Ok((k[0], rest))
                },
            }
        },
    }
}

/// Commitments at the front of `input`, as many as their count says.
pub open spec fn commitments_parsed<C: ProcessedSerdeObject>(
    input: Seq<u8>,
    format: SerdeFormat,
) -> Parsed<Seq<Seq<u8>>> {
    match count_parsed(input) {
        Err(e) => Err(e),
        Ok((count, rest)) => many_parsed(rest, count, object_parser::<C>(format)),
    }
}

/// Commitments at the front of `input`, as many as the circuit has columns.
pub open spec fn permutation_parsed<C: ProcessedSerdeObject>(
    input: Seq<u8>,
    format: SerdeFormat,
    columns: usize,
) -> Parsed<Seq<Seq<u8>>> {
    match count_parsed(input) {
        Err(e) => Err(e),
        Ok((count, rest)) => if count != columns {
            Err(ReadError::PermutationCount { got: count as u32, expected: columns })
        } else {
            many_parsed(rest, count, object_parser::<C>(format))
        },
    }
}

/// A verifying key at the front of `input`, for a circuit with this number of
/// permutation columns.
pub open spec fn vk_parsed<C: ProcessedSerdeObject>(
    input: Seq<u8>,
    format: SerdeFormat,
    max_k: u32,
    columns: usize,
) -> Parsed<KeyParts> {
    match header_parsed(input, max_k) {
        Err(e) => Err(e),
        Ok((k, rest)) => match commitments_parsed::<C>(rest, format) {
            Err(e) => Err(e),
            Ok((fixed, rest)) => match permutation_parsed::<C>(rest, format, columns) {
                Err(e) => Err(e),
                Ok((permutation, rest)) => Ok((KeyParts { k, fixed, permutation }, rest)),
            },
        },
    }
}

/// What is hashed to identify a key: its bytes, unchecked and uncompressed, and
/// the texts that identify its domain and its constraints.
pub open spec fn key_preimage<C: ProcessedSerdeObject>(
    parts: KeyParts,
    domain: Seq<char>,
    cs: Seq<char>,
) -> Seq<u8> {
    vk_encoded::<C>(parts, SerdeFormat::RawBytesUnchecked) + vstd::utf8::encode_utf8(domain)
        + vstd::utf8::encode_utf8(cs)
}

/// A verifying key is read back as it was written, whatever comes after it.
pub proof fn law_verifying_keys_read_back<C: ProcessedSerdeObject>(
    parts: KeyParts,
    format: SerdeFormat,
    max_k: u32,
    rest: Seq<u8>,
)
    requires
        parts.k <= max_k,
        parts.fixed.len() < 0x1_0000_0000,
        parts.permutation.len() < 0x1_0000_0000,
        all_read_back::<C>(parts.fixed, format),
        all_read_back::<C>(parts.permutation, format),
    ensures
        vk_parsed::<C>(
            vk_encoded::<C>(parts, format) + rest,
            format,
            max_k,
            parts.permutation.len() as usize,
        ) == Ok::<_, ReadError>((parts, rest)),
{
    let encode = object_encoder::<C>(format);
    let fixed = many_encoded(parts.fixed, encode);
    let permutation = many_encoded(parts.permutation, encode);
    let input = vk_encoded::<C>(parts, format) + rest;
    let after_permutation_count = permutation + rest;
    let after_fixed = u32_bytes(parts.permutation.len()) + after_permutation_count;
    let after_header = u32_bytes(parts.fixed.len()) + (fixed + after_fixed);
    assert(input =~= seq![VERSION, parts.k] + after_header);
    assert(input.take(1)[0] == VERSION);
    assert(input.skip(1) =~= seq![parts.k] + after_header);
    assert(input.skip(1).take(1)[0] == parts.k);
    assert(input.skip(1).skip(1) =~= after_header);
    lemma_count_parsed(parts.fixed.len(), fixed + after_fixed);
    law_objects_read_back::<C>(parts.fixed, format, after_fixed);
    lemma_count_parsed(parts.permutation.len(), after_permutation_count);
    law_objects_read_back::<C>(parts.permutation, format, rest);
}

/// A verifying key, which allows for the verification of proofs for a particular
/// circuit.
#[derive(Debug)]
pub struct VerifyingKey<F: KeyField, C: ProcessedSerdeObject> {
    domain: EvaluationDomain,
    fixed_commitments: Vec<C>,
    permutation: PermutationVerifyingKey<C>,
    cs: ConstraintSystem,
    cs_degree: usize,
    transcript_repr: F,
}

/// Minimal representation of a verifying key that can be used to identify its
/// active contents.
#[derive(Debug)]
pub struct PinnedVerificationKey<'a, C> {
    /// The text that identifies the domain.
    pub domain: &'a str,
    /// The text that identifies the constraints.
    pub cs: &'a str,
    /// The commitments to the fixed columns.
    pub fixed_commitments: &'a Vec<C>,
    /// The commitments to the permutation polynomials.
    pub permutation: &'a PermutationVerifyingKey<C>,
}

/// A transcript, as far as keys are concerned.
pub trait Transcript<F> {
    /// The elements that were absorbed, in order. What they are of a transcript
    /// outside this crate is left to it.
    closed spec fn absorbed(&self) -> Seq<F> {
        arbitrary()
    }

    /// Whether absorbing `element` can end in `outcome`, with the transcript then
    /// being `after`. When that is so of a transcript outside this crate is left
    /// to it.
    closed spec fn absorbs(
        &self,
        element: F,
        after: &Self,
        outcome: Result<(), IoFailure>,
    ) -> bool {
        arbitrary()
    }

    /// Absorbs an element that both sides know.
    fn common(&mut self, element: &F) -> (outcome: Result<(), IoFailure>)
        ensures
            old(self).absorbs(*element, final(self), outcome),
            outcome is Ok ==> final(self).absorbed() == old(self).absorbed().push(*element),
    ;
}

/// A transcript that records what it absorbs.
impl<F: Copy> Transcript<F> for Vec<F> {
    open spec fn absorbed(&self) -> Seq<F> {
        self@
    }

    /// Recording never fails.
    open spec fn absorbs(
        &self,
        element: F,
        after: &Self,
        outcome: Result<(), IoFailure>,
    ) -> bool {
        outcome is Ok && after@ == self@.push(element)
    }

    fn common(&mut self, element: &F) -> (outcome: Result<(), IoFailure>) {
        self.push(*element);
        Ok(())
    }
}

/// The residue that stands for a key in transcripts.
pub open spec fn key_residue<C: ProcessedSerdeObject>(
    parts: KeyParts,
    domain: Seq<char>,
    cs: Seq<char>,
) -> nat {
    le_value(blake2b_512(KEY_PERSONAL@, key_preimage::<C>(parts, domain, cs)))
}

impl<F: KeyField, C: ProcessedSerdeObject> VerifyingKey<F, C> {
    /// The circuit's size is within the field's limit, the degree is the
    /// circuit's, and the key is represented in transcripts by its own hash.
    #[verifier::type_invariant]
    spec fn identified(self) -> bool {
        &&& self.domain.spec_k() <= F::spec_s()
        &&& F::spec_s() < 64
        &&& self.cs_degree == self.cs.degree
        &&& self.transcript_repr.valid()
        &&& self.transcript_repr.value() == key_residue::<C>(
            self.parts(),
            self.domain.spec_pinned(),
            self.cs.pinned@,
        ) % F::modulus()
    }

    /// What the key's bytes hold.
    pub closed spec fn parts(&self) -> KeyParts {
        KeyParts {
            k: self.domain.spec_k() as u8,
            fixed: reprs_of(self.fixed_commitments@),
            permutation: reprs_of(self.permutation.commitments@),
        }
    }

    /// The evaluation domain.
    pub closed spec fn spec_domain(&self) -> EvaluationDomain {
        self.domain
    }

    /// The circuit's constraints.
    pub closed spec fn spec_cs(&self) -> ConstraintSystem {
        self.cs
    }

    /// The element that stands for the key in transcripts.
    pub closed spec fn spec_transcript_repr(&self) -> F {
        self.transcript_repr
    }

    /// Whether every commitment passes the checks of the format.
    pub open spec fn commitments_pass(&self, format: SerdeFormat) -> bool {
        all_pass::<C>(self.parts().fixed, format) && all_pass::<C>(self.parts().permutation, format)
    }

    /// Whether the numbers of commitments fit in the 32 bits that they are
    /// stored in.
    pub open spec fn counts_fit(&self) -> bool {
        self.parts().fixed.len() < 0x1_0000_0000 && self.parts().permutation.len() < 0x1_0000_0000
    }

    /// The number of bytes of the key.
    pub open spec fn spec_bytes_length(&self, format: SerdeFormat) -> nat {
        vk_length(
            self.parts().fixed.len(),
            self.parts().permutation.len(),
            C::spec_byte_length(format),
        )
    }

    /// The size of the evaluation domain.
    pub fn n(&self) -> (n: u64)
        ensures
            n == pow2(self.spec_domain().spec_k() as nat),
    {
        self.domain.n()
    }

    /// The commitments to the fixed columns.
    pub fn fixed_commitments(&self) -> (commitments: &Vec<C>)
        ensures
            reprs_of(commitments@) == self.parts().fixed,
    {
        &self.fixed_commitments
    }

    /// The commitments to the permutation polynomials.
    pub fn permutation(&self) -> (permutation: &PermutationVerifyingKey<C>)
        ensures
            reprs_of(permutation.commitments@) == self.parts().permutation,
    {
        &self.permutation
    }

    /// The circuit's constraints.
    pub fn cs(&self) -> (cs: &ConstraintSystem)
        ensures
            *cs == self.spec_cs(),
    {
        &self.cs
    }

    /// The maximum degree of the circuit's gates.
    pub fn cs_degree(&self) -> (degree: usize)
        ensures
            degree == self.spec_cs().degree,
    {
        proof {
            use_type_invariant(self);
        }
        self.cs_degree
    }

    /// The evaluation domain.
    pub fn get_domain(&self) -> (domain: &EvaluationDomain)
        ensures
            *domain == self.spec_domain(),
            domain.spec_k() <= F::spec_s(),
            domain.spec_k() == self.parts().k,
    {
        proof {
            use_type_invariant(self);
        }
        &self.domain
    }

    /// The element that stands for the key in transcripts. It is determined by
    /// the key's bytes, its domain and its constraints.
    pub fn transcript_repr(&self) -> (repr: F)
        ensures
            repr == self.spec_transcript_repr(),
            repr.valid(),
            repr.value() == key_residue::<C>(
                self.parts(),
                self.spec_domain().spec_pinned(),
                self.spec_cs().pinned@,
            ) % F::modulus(),
    {
        proof {
            use_type_invariant(self);
        }
        self.transcript_repr
    }

    /// Absorbs the element that stands for the key into a transcript, and nothing
    /// else. Whether that succeeds, and the error if not, is the transcript's own
    /// word on that element.
    pub fn hash_into<T: Transcript<F>>(&self, transcript: &mut T) -> (outcome: Result<
        (),
        IoFailure,
    >)
        ensures
            old(transcript).absorbs(self.spec_transcript_repr(), final(transcript), outcome),
            outcome is Ok ==> final(transcript).absorbed() == old(transcript).absorbed().push(
                self.spec_transcript_repr(),
            ),
            self.spec_transcript_repr().value() == key_residue::<C>(
                self.parts(),
                self.spec_domain().spec_pinned(),
                self.spec_cs().pinned@,
            ) % F::modulus(),
    {
        proof {
            use_type_invariant(self);
        }
        transcript.common(&self.transcript_repr)
    }

    /// A representation of the key that contains the minimal information that is
    /// needed to reconstruct it.
    pub fn pinned(&self) -> (pinned: PinnedVerificationKey<'_, C>)
        ensures
            pinned.domain@ == self.spec_domain().spec_pinned(),
            pinned.cs@ == self.spec_cs().pinned@,
            reprs_of(pinned.fixed_commitments@) == self.parts().fixed,
            reprs_of(pinned.permutation.commitments@) == self.parts().permutation,
    {
        PinnedVerificationKey {
            domain: self.domain.pinned(),
            cs: self.cs.pinned.as_str(),
            fixed_commitments: &self.fixed_commitments,
            permutation: &self.permutation,
        }
    }

    /// The number of bytes of the key.
    pub fn bytes_length(&self, format: SerdeFormat) -> (length: usize)
        requires
            self.spec_bytes_length(format) <= usize::MAX,
        ensures
            length == self.spec_bytes_length(format),
    {
        proof {
            let size = C::spec_byte_length(format);
            assert(0 <= self.parts().fixed.len() * size) by (nonlinear_arith);
            assert(0 <= self.parts().permutation.len() * size) by (nonlinear_arith);
        }
        10 + self.fixed_commitments.len() * C::byte_length(format) + self.permutation.bytes_length(
            format,
        )
    }

    /// Appends the key's bytes.
    pub fn write(&self, out: &mut Vec<u8>, format: SerdeFormat)
        ensures
            final(out)@ == old(out)@ + vk_encoded::<C>(self.parts(), format),
            vk_encoded::<C>(self.parts(), format).len() == self.spec_bytes_length(format),
            self.commitments_pass(format) ==> all_read_back::<C>(self.parts().fixed, format)
                && all_read_back::<C>(self.parts().permutation, format),
            self.parts().k <= F::spec_s(),
    {
        proof {
            use_type_invariant(self);
        }
        write_parts(
            out,
            self.domain.k(),
            self.fixed_commitments.as_slice(),
            self.permutation.commitments.as_slice(),
            format,
        );
    }

    /// The key's bytes. Reading them gives back what the key holds.
    pub fn to_bytes(&self, format: SerdeFormat) -> (bytes: Vec<u8>)
        ensures
            bytes@ == vk_encoded::<C>(self.parts(), format),
            bytes@.len() == self.spec_bytes_length(format),
            self.commitments_pass(format) && self.counts_fit() ==> vk_parsed::<C>(
                bytes@,
                format,
                F::spec_s(),
                self.parts().permutation.len() as usize,
            ) == Ok::<_, ReadError>((self.parts(), Seq::<u8>::empty())),
    {
        let mut bytes: Vec<u8> = Vec::new();
        self.write(&mut bytes, format);
        proof {
            let encoded = vk_encoded::<C>(self.parts(), format);
            assert(bytes@ =~= encoded);
            if self.commitments_pass(format) && self.counts_fit() {
                law_verifying_keys_read_back::<C>(
                    self.parts(),
                    format,
                    F::spec_s(),
                    Seq::<u8>::empty(),
                );
                assert(encoded + Seq::<u8>::empty() =~= encoded);
            }
        }
        bytes
    }

    /// Puts a key together, and computes what stands for it in transcripts.
    pub fn from_parts(
        domain: EvaluationDomain,
        fixed_commitments: Vec<C>,
        permutation: PermutationVerifyingKey<C>,
        cs: ConstraintSystem,
    ) -> (vk: Self)
        requires
            domain.spec_k() <= F::spec_s(),
        ensures
            vk.parts() == (KeyParts {
                k: domain.spec_k() as u8,
                fixed: reprs_of(fixed_commitments@),
                permutation: reprs_of(permutation.commitments@),
            }),
            vk.spec_domain() == domain,
            vk.spec_cs() == cs,
            vk.spec_transcript_repr().valid(),
            vk.spec_transcript_repr().value() == key_residue::<C>(
                vk.parts(),
                vk.spec_domain().spec_pinned(),
                vk.spec_cs().pinned@,
            ) % F::modulus(),
    {
        proof {
            F::domains_are_bounded();
        }
        let cs_degree: usize = cs.degree;
        let mut buffer: Vec<u8> = Vec::new();
        write_parts(
            &mut buffer,
            domain.k(),
            fixed_commitments.as_slice(),
            permutation.commitments.as_slice(),
            SerdeFormat::RawBytesUnchecked,
        );
        append_bytes(&mut buffer, domain.pinned().as_bytes());
        append_bytes(&mut buffer, cs.pinned.as_str().as_bytes());
        proof {
            let parts = KeyParts {
                k: domain.spec_k() as u8,
                fixed: reprs_of(fixed_commitments@),
                permutation: reprs_of(permutation.commitments@),
            };
            assert(buffer@ =~= key_preimage::<C>(parts, domain.spec_pinned(), cs.pinned@));
        }
        let transcript_repr = F::from_uniform_bytes(&blake2b(&KEY_PERSONAL, buffer.as_slice()));
        VerifyingKey { domain, fixed_commitments, permutation, cs, cs_degree, transcript_repr }
    }

    /// Reads a key for a circuit with the given constraints.
    ///
    /// The commitments are read as `format` says.
    pub fn read_from_cs<R: ByteSource, P: ProofSystem<F>>(
        reader: &mut R,
        format: SerdeFormat,
        system: &P,
        cs: ConstraintSystem,
    ) -> (read: Result<Self, ReadError>)
        ensures
            match vk_parsed::<C>(
                old(reader).rest(),
                format,
                F::spec_s(),
                cs.permutation_columns,
            ) {
                Ok((parts, rest)) => {
                    &&& read matches Ok(vk)
                    &&& built_from::<F, C, P>(vk, system, cs, parts)
                    &&& final(reader).rest() == rest
                },
                Err(e) => read matches Err(error) && error == surfaced(e, old(reader).ending()),
            },
            left_of(final(reader).rest(), old(reader).rest()),
            final(reader).ending() == old(reader).ending(),
    {
        let ghost input = reader.rest();
        let header = read_header(reader, F::s());
        let k: u8 = match header {
            Ok(k) => k,
            Err(e) => return Err(e),
        };
        let ghost after_header = reader.rest();
        let pinned = system.pinned_domain(cs.degree, k as u32);
        proof {
            F::domains_are_bounded();
        }
        let ghost pinned_text = pinned;
        let domain = EvaluationDomain::new(k as u32, pinned);
        proof {
            lemma_split_leaves(after_header, 4);
        }
        let num_fixed_columns: u32 = match read_u32(reader) {
            Ok(count) => count,
            Err(e) => {
                proof {
                    lemma_left_of_left(reader.rest(), after_header, input);
                }
                return Err(e);
            },
        };
        let ghost after_count = reader.rest();
        proof {
            lemma_left_of_left(after_count, after_header, input);
        }
        let fixed = read_objects(reader, num_fixed_columns, format);
        let ghost after_fixed = reader.rest();
        proof {
            lemma_left_of_left(after_fixed, after_count, input);
        }
        let fixed_commitments = match fixed {
            Ok(commitments) => commitments,
            Err(e) => return Err(e),
        };
        let read_permutation = read_permutation_key(reader, cs.permutation_columns, format);
        proof {
            lemma_left_of_left(reader.rest(), after_fixed, input);
        }
        let permutation = match read_permutation {
            Ok(permutation) => permutation,
            Err(e) => return Err(e),
        };
        // What is a selector when the circuit is configured is a fixed column in
        // a key.
        let ghost configured = cs;
        let fake_selectors = empty_selectors(cs.num_selectors);
        let ghost selectors = fake_selectors;
        let cs = system.directly_convert_selectors_to_fixed(cs, fake_selectors);
        let vk = Self::from_parts(domain, fixed_commitments, permutation, cs);
        proof {
            assert(no_rows(selectors@, configured.num_selectors));
            assert(call_ensures(
                P::pinned_domain,
                (system, configured.degree, k as u32),
                pinned_text,
            ));
        }
        Ok(vk)
    }

    /// Reads a key for a circuit.
    pub fn read<R: ByteSource, P: ProofSystem<F>, Ci: Circuit>(
        reader: &mut R,
        format: SerdeFormat,
        system: &P,
        circuit: &Ci,
    ) -> (read: Result<Self, ReadError>)
        ensures
            exists|cs: ConstraintSystem|
                {
                    &&& #[trigger] call_ensures(Ci::configure, (circuit,), cs)
                    &&& match vk_parsed::<C>(
                        old(reader).rest(),
                        format,
                        F::spec_s(),
                        cs.permutation_columns,
                    ) {
                        Ok((parts, rest)) => {
                            &&& read matches Ok(vk)
                            &&& built_from::<F, C, P>(vk, system, cs, parts)
                            &&& final(reader).rest() == rest
                        },
                        Err(e) => read matches Err(error) && error == surfaced(e, old(reader).ending()),
                    }
                },
            left_of(final(reader).rest(), old(reader).rest()),
            final(reader).ending() == old(reader).ending(),
    {
        let cs = circuit.configure();
        Self::read_from_cs(reader, format, system, cs)
    }

    /// Reads a key for a circuit from bytes.
    pub fn from_bytes<P: ProofSystem<F>, Ci: Circuit>(
        bytes: &[u8],
        format: SerdeFormat,
        system: &P,
        circuit: &Ci,
    ) -> (read: Result<Self, ReadError>)
        ensures
            exists|cs: ConstraintSystem|
                {
                    &&& #[trigger] call_ensures(Ci::configure, (circuit,), cs)
                    &&& match vk_parsed::<C>(bytes@, format, F::spec_s(), cs.permutation_columns) {
                        Ok((parts, _)) => {
                            &&& read matches Ok(vk)
                            &&& built_from::<F, C, P>(vk, system, cs, parts)
                        },
                        Err(e) => read matches Err(error) && error == e,
                    }
                },
    {
        let mut reader = ByteReader::new(bytes);
        Self::read(&mut reader, format, system, circuit)
    }
}

impl<F: KeyField, C: ProcessedSerdeObject + Copy> Clone for VerifyingKey<F, C> {
    fn clone(&self) -> (copy: Self)
        ensures
            copy.parts() == self.parts(),
            copy.spec_domain() == self.spec_domain(),
            copy.spec_cs() == self.spec_cs(),
            copy.spec_transcript_repr() == self.spec_transcript_repr(),
    {
        proof {
            use_type_invariant(self);
        }
        let fixed_commitments = vstd::slice::slice_to_vec(self.fixed_commitments.as_slice());
        let commitments = vstd::slice::slice_to_vec(self.permutation.commitments.as_slice());
        VerifyingKey {
            domain: self.domain.clone(),
            fixed_commitments,
            permutation: PermutationVerifyingKey { commitments },
            cs: self.cs.clone(),
            cs_degree: self.cs_degree,
            transcript_repr: self.transcript_repr,
        }
    }
}

/// Whether `rows` are `count` empty ones.
pub open spec fn no_rows(rows: Seq<Vec<bool>>, count: usize) -> bool {
    &&& rows.len() == count
    &&& forall|i: int| 0 <= i < rows.len() ==> (#[trigger] rows[i])@.len() == 0
}

/// `count` empty rows.
fn empty_selectors(count: usize) -> (rows: Vec<Vec<bool>>)
    ensures
        no_rows(rows@, count),
{
    let mut rows: Vec<Vec<bool>> = Vec::new();
    for i in 0..count
        invariant
            rows@.len() == i,
            forall|j: int| 0 <= j < rows@.len() ==> (#[trigger] rows@[j])@.len() == 0,
    {
        rows.push(Vec::new());
    }
    rows
}

/// Whether `vk` is the key for `parts`, of a circuit that was configured to `cs`:
/// the proof system named its domain, and turned its selectors into columns.
pub open spec fn built_from<F: KeyField, C: ProcessedSerdeObject, P: ProofSystem<F>>(
    vk: VerifyingKey<F, C>,
    system: &P,
    cs: ConstraintSystem,
    parts: KeyParts,
) -> bool {
    &&& vk.parts() == parts
    &&& vk.spec_domain().spec_k() == parts.k
    &&& vk.spec_transcript_repr().valid()
    &&& vk.spec_transcript_repr().value() == key_residue::<C>(
        parts,
        vk.spec_domain().spec_pinned(),
        vk.spec_cs().pinned@,
    ) % F::modulus()
    &&& exists|pinned: String|
        {
            &&& #[trigger] call_ensures(
                P::pinned_domain,
                (system, cs.degree, parts.k as u32),
                pinned,
            )
            &&& vk.spec_domain().spec_pinned() == pinned@
        }
    &&& exists|selectors: Vec<Vec<bool>>|
        {
            &&& no_rows(selectors@, cs.num_selectors)
            &&& #[trigger] call_ensures(
                P::directly_convert_selectors_to_fixed,
                (system, cs, selectors),
                vk.spec_cs(),
            )
        }
}

/// Appends the parts of a key.
fn write_parts<C: ProcessedSerdeObject>(
    out: &mut Vec<u8>,
    k: u32,
    fixed: &[C],
    permutation: &[C],
    format: SerdeFormat,
)
    requires
        k < 256,
    ensures
        final(out)@ == old(out)@ + vk_encoded::<C>(
            KeyParts { k: k as u8, fixed: reprs_of(fixed@), permutation: reprs_of(permutation@) },
            format,
        ),
        vk_encoded::<C>(
            KeyParts { k: k as u8, fixed: reprs_of(fixed@), permutation: reprs_of(permutation@) },
            format,
        ).len() == vk_length(fixed@.len(), permutation@.len(), C::spec_byte_length(format)),
        all_pass::<C>(reprs_of(fixed@), format) ==> all_read_back::<C>(reprs_of(fixed@), format),
        all_pass::<C>(reprs_of(permutation@), format) ==> all_read_back::<C>(
            reprs_of(permutation@),
            format,
        ),
{
    let ghost start = out@;
    out.push(VERSION);
    out.push(k as u8);
    append_u32(out, fixed.len());
    write_objects(out, fixed, format);
    append_u32(out, permutation.len());
    write_objects(out, permutation, format);
    proof {
        let parts = KeyParts {
            k: k as u8,
            fixed: reprs_of(fixed@),
            permutation: reprs_of(permutation@),
        };
        assert(out@ =~= start + vk_encoded::<C>(parts, format));
    }
}

/// Reads the version and the size.
fn read_header<R: ByteSource>(reader: &mut R, max_k: u32) -> (read: Result<u8, ReadError>)
    ensures
        match header_parsed(old(reader).rest(), max_k) {
            Ok((k, rest)) => read == Ok::<u8, ReadError>(k) && final(reader).rest() == rest && k
                <= max_k,
            Err(e) => read == Err::<u8, ReadError>(surfaced(e, old(reader).ending())),
        },
        left_of(final(reader).rest(), old(reader).rest()),
        final(reader).ending() == old(reader).ending(),
{
    let ghost input = reader.rest();
    proof {
        lemma_split_leaves(input, 1);
    }
    let version: u8 = match read_u8(reader) {
        Ok(version) => version,
        Err(e) => return Err(e),
    };
    if version != VERSION {
        return Err(ReadError::UnexpectedVersion);
    }
    let ghost after_version = reader.rest();
    proof {
        lemma_split_leaves(after_version, 1);
    }
    let read_k = read_u8(reader);
    proof {
        lemma_left_of_left(reader.rest(), after_version, input);
    }
    let k: u8 = match read_k {
        Ok(k) => k,
        Err(e) => return Err(e),
    };
    if k as u32 > max_k {
        return Err(ReadError::CircuitTooLarge { k, max: max_k });
    }
    Ok(k)
}

/// Reads the permutation commitments of a circuit with this number of columns.
fn read_permutation_key<C: ProcessedSerdeObject, R: ByteSource>(
    reader: &mut R,
    columns: usize,
    format: SerdeFormat,
) -> (read: Result<PermutationVerifyingKey<C>, ReadError>)
    ensures
        match permutation_parsed::<C>(old(reader).rest(), format, columns) {
            Ok((reprs, rest)) => {
                &&& read matches Ok(permutation)
                &&& reprs_of(permutation.commitments@) == reprs
                &&& final(reader).rest() == rest
            },
            Err(e) => read matches Err(error) && error == surfaced(e, old(reader).ending()),
        },
        left_of(final(reader).rest(), old(reader).rest()),
        final(reader).ending() == old(reader).ending(),
{
    let ghost input = reader.rest();
    proof {
        lemma_split_leaves(input, 4);
    }
    let count: u32 = match read_u32(reader) {
        Ok(count) => count,
        Err(e) => return Err(e),
    };
    if count as u64 != columns as u64 {
        return Err(ReadError::PermutationCount { got: count, expected: columns });
    }
    let ghost after_count = reader.rest();
    let commitments = read_objects(reader, count, format);
    proof {
        lemma_left_of_left(reader.rest(), after_count, input);
    }
    match commitments {
        Ok(commitments) => Ok(PermutationVerifyingKey { commitments }),
        Err(e) => Err(e),
    }
}

/// What stands for a key in transcripts is the residue of a hash, and what is hashed
/// is all of the key: its raw bytes, then the text of its domain, then the text of its
/// constraints, whatever the size of the circuit is. It is what is absorbed, too.
pub proof fn law_a_key_is_identified_by_its_bytes_and_its_texts<
    F: KeyField,
    C: ProcessedSerdeObject,
>(vk: VerifyingKey<F, C>, bytes: Vec<u8>, repr: F)
    requires
        call_ensures(
            VerifyingKey::<F, C>::to_bytes,
            (&vk, SerdeFormat::RawBytesUnchecked),
            bytes,
        ),
        call_ensures(VerifyingKey::<F, C>::transcript_repr, (&vk,), repr),
    ensures
        repr == vk.spec_transcript_repr(),
        repr.value() == le_value(
            blake2b_512(
                seq![
                    0x48, 0x61, 0x6c, 0x6f, 0x32, 0x2d, 0x56, 0x65,
                    0x72, 0x69, 0x66, 0x79, 0x2d, 0x4b, 0x65, 0x79,
                ],
                bytes@ + vstd::utf8::encode_utf8(vk.spec_domain().spec_pinned())
                    + vstd::utf8::encode_utf8(vk.spec_cs().pinned@),
            ),
        ) % F::modulus(),
{
    assert(KEY_PERSONAL@ =~= seq![
        0x48, 0x61, 0x6c, 0x6f, 0x32, 0x2d, 0x56, 0x65,
        0x72, 0x69, 0x66, 0x79, 0x2d, 0x4b, 0x65, 0x79,
    ]);
}

/// A key that is put together holds what it is put together from, and what stands for
/// it is the hash of exactly that.
pub proof fn law_a_key_holds_what_it_is_put_together_from<F: KeyField, C: ProcessedSerdeObject>(
    domain: EvaluationDomain,
    fixed_commitments: Vec<C>,
    permutation: PermutationVerifyingKey<C>,
    cs: ConstraintSystem,
    vk: VerifyingKey<F, C>,
    bytes: Vec<u8>,
)
    requires
        domain.spec_k() < 256,
        call_ensures(
            VerifyingKey::<F, C>::from_parts,
            (domain, fixed_commitments, permutation, cs),
            vk,
        ),
        call_ensures(
            VerifyingKey::<F, C>::to_bytes,
            (&vk, SerdeFormat::RawBytesUnchecked),
            bytes,
        ),
    ensures
        vk.spec_domain() == domain,
        vk.spec_cs() == cs,
        vk.parts().k == domain.spec_k(),
        vk.parts().fixed.len() == fixed_commitments@.len(),
        forall|i: int|
            0 <= i < fixed_commitments@.len() ==> #[trigger] vk.parts().fixed[i]
                == fixed_commitments@[i].repr(),
        vk.parts().permutation.len() == permutation.commitments@.len(),
        forall|i: int|
            0 <= i < permutation.commitments@.len() ==> #[trigger] vk.parts().permutation[i]
                == permutation.commitments@[i].repr(),
        vk.spec_transcript_repr().value() == le_value(
            blake2b_512(
                seq![
                    0x48, 0x61, 0x6c, 0x6f, 0x32, 0x2d, 0x56, 0x65,
                    0x72, 0x69, 0x66, 0x79, 0x2d, 0x4b, 0x65, 0x79,
                ],
                bytes@ + vstd::utf8::encode_utf8(domain.spec_pinned()) + vstd::utf8::encode_utf8(
                    cs.pinned@,
                ),
            ),
        ) % F::modulus(),
{
    assert(KEY_PERSONAL@ =~= seq![
        0x48, 0x61, 0x6c, 0x6f, 0x32, 0x2d, 0x56, 0x65,
        0x72, 0x69, 0x66, 0x79, 0x2d, 0x4b, 0x65, 0x79,
    ]);
}

/// Each of the texts counts for every key: with the other one and the parts fixed,
/// different texts are hashed from different bytes. So are different sizes.
pub proof fn law_each_text_tells_keys_apart<C: ProcessedSerdeObject>(
    parts: KeyParts,
    other_k: u8,
    domain: Seq<char>,
    other_domain: Seq<char>,
    cs: Seq<char>,
    other_cs: Seq<char>,
)
    ensures
        cs != other_cs ==> key_preimage::<C>(parts, domain, cs) != key_preimage::<C>(
            parts,
            domain,
            other_cs,
        ),
        domain != other_domain ==> key_preimage::<C>(parts, domain, cs) != key_preimage::<C>(
            parts,
            other_domain,
            cs,
        ),
        parts.k != other_k ==> key_preimage::<C>(parts, domain, cs) != key_preimage::<C>(
            KeyParts { k: other_k, ..parts },
            other_domain,
            other_cs,
        ),
{
    let head = vk_encoded::<C>(parts, SerdeFormat::RawBytesUnchecked);
    let d = vstd::utf8::encode_utf8(domain);
    let other_d = vstd::utf8::encode_utf8(other_domain);
    let c = vstd::utf8::encode_utf8(cs);
    let other_c = vstd::utf8::encode_utf8(other_cs);
    vstd::utf8::encode_utf8_decode_utf8(domain);
    vstd::utf8::encode_utf8_decode_utf8(other_domain);
    vstd::utf8::encode_utf8_decode_utf8(cs);
    vstd::utf8::encode_utf8_decode_utf8(other_cs);
    let one = key_preimage::<C>(parts, domain, cs);
    if one == key_preimage::<C>(parts, domain, other_cs) {
        let at = (head + d).len() as int;
        assert((head + d + c).skip(at) =~= c);
        assert((head + d + other_c).skip(at) =~= other_c);
    }
    if one == key_preimage::<C>(parts, other_domain, cs) {
        let start = head.len() as int;
        assert((head + d + c).len() == (head + other_d + c).len());
        assert(d.len() == other_d.len());
        assert((head + d + c).subrange(start, start + d.len()) =~= d);
        assert((head + other_d + c).subrange(start, start + other_d.len()) =~= other_d);
    }
    assert(one[1] == parts.k);
    assert(key_preimage::<C>(KeyParts { k: other_k, ..parts }, other_domain, other_cs)[1]
        == other_k);
}

/// A verifying key lies in its bytes like this: the version, the size, the number of
/// fixed columns and their commitments, the number of permutation columns and theirs.
pub proof fn law_a_verifying_key_has_this_layout<C: ProcessedSerdeObject>(
    parts: KeyParts,
    format: SerdeFormat,
    length: nat,
)
    requires
        forall|i: int|
            0 <= i < parts.fixed.len() ==> C::encoded(#[trigger] parts.fixed[i], format).len()
                == length,
        forall|i: int|
            0 <= i < parts.permutation.len() ==> C::encoded(
                #[trigger] parts.permutation[i],
                format,
            ).len() == length,
    ensures
        ({
            let bytes = vk_encoded::<C>(parts, format);
            let middle = (6 + parts.fixed.len() * length) as int;
            &&& bytes.len() == 10 + parts.fixed.len() * length + parts.permutation.len() * length
            &&& bytes[0] == 3
            &&& bytes[1] == parts.k
            &&& bytes.subrange(2, 6) == u32_bytes(parts.fixed.len())
            &&& bytes.subrange(middle, middle + 4) == u32_bytes(parts.permutation.len())
            &&& forall|i: int|
                0 <= i < parts.fixed.len() ==> bytes.subrange(
                    6 + i * length,
                    6 + i * length + length,
                ) == C::encoded(#[trigger] parts.fixed[i], format)
            &&& forall|i: int|
                0 <= i < parts.permutation.len() ==> bytes.subrange(
                    middle + 4 + i * length,
                    middle + 4 + i * length + length,
                ) == C::encoded(#[trigger] parts.permutation[i], format)
        }),
{
    let bytes = vk_encoded::<C>(parts, format);
    let encode = object_encoder::<C>(format);
    let fixed = many_encoded(parts.fixed, encode);
    let permutation = many_encoded(parts.permutation, encode);
    assert forall|i: int| 0 <= i < parts.fixed.len() implies encode(#[trigger] parts.fixed[i]).len()
        == length by {}
    assert forall|i: int| 0 <= i < parts.permutation.len() implies encode(
        #[trigger] parts.permutation[i],
    ).len() == length by {}
    lemma_encoded_length(parts.fixed, encode, length);
    lemma_encoded_length(parts.permutation, encode, length);
    let middle = (6 + parts.fixed.len() * length) as int;
    assert(bytes.subrange(2, 6) =~= u32_bytes(parts.fixed.len()));
    assert(bytes.subrange(middle, middle + 4) =~= u32_bytes(parts.permutation.len()));
    assert forall|i: int| 0 <= i < parts.fixed.len() implies bytes.subrange(
        6 + i * length,
        6 + i * length + length,
    ) == C::encoded(#[trigger] parts.fixed[i], format) by {
        law_items_of_one_length_lie_side_by_side(parts.fixed, encode, length, i);
        assert(bytes.subrange(6 + i * length, 6 + i * length + length) =~= fixed.subrange(
            i * length,
            i * length + length,
        ));
    }
    assert forall|i: int| 0 <= i < parts.permutation.len() implies bytes.subrange(
        middle + 4 + i * length,
        middle + 4 + i * length + length,
    ) == C::encoded(#[trigger] parts.permutation[i], format) by {
        law_items_of_one_length_lie_side_by_side(parts.permutation, encode, length, i);
        assert(bytes.subrange(middle + 4 + i * length, middle + 4 + i * length + length)
            =~= permutation.subrange(i * length, i * length + length));
    }
}

/// A verifying key is read from the front to the back. A wrong version, a size beyond
/// the limit and another number of permutation columns are each told apart, and so is
/// everything that is cut off.
pub proof fn law_a_verifying_key_is_read_front_to_back<C: ProcessedSerdeObject>(
    input: Seq<u8>,
    format: SerdeFormat,
    max_k: u32,
    columns: usize,
)
    ensures
        ({
            let parsed = vk_parsed::<C>(input, format, max_k, columns);
            let count = (input[2] + 256 * input[3] + 65536 * input[4] + 16777216
                * input[5]) as nat;
            let fixed = many_parsed(input.skip(6), count, object_parser::<C>(format));
            &&& input.len() == 0 ==> parsed == Err::<(KeyParts, Seq<u8>), ReadError>(
                ReadError::UnexpectedEof,
            )
            &&& input.len() > 0 && input[0] != 3 ==> parsed == Err::<
                (KeyParts, Seq<u8>),
                ReadError,
            >(ReadError::UnexpectedVersion)
            &&& input.len() == 1 && input[0] == 3 ==> parsed == Err::<
                (KeyParts, Seq<u8>),
                ReadError,
            >(ReadError::UnexpectedEof)
            &&& input.len() > 1 && input[0] == 3 && input[1] > max_k ==> parsed == Err::<
                (KeyParts, Seq<u8>),
                ReadError,
            >(ReadError::CircuitTooLarge { k: input[1], max: max_k })
            &&& 1 < input.len() < 6 && input[0] == 3 && input[1] <= max_k ==> parsed == Err::<
                (KeyParts, Seq<u8>),
                ReadError,
            >(ReadError::UnexpectedEof)
            &&& input.len() >= 6 && input[0] == 3 && input[1] <= max_k ==> match fixed {
                Err(e) => parsed == Err::<(KeyParts, Seq<u8>), ReadError>(e),
                Ok((fixed, rest)) => {
                    let count = (rest[0] + 256 * rest[1] + 65536 * rest[2] + 16777216
                        * rest[3]) as nat;
                    let permutation = many_parsed(rest.skip(4), count, object_parser::<C>(format));
                    if rest.len() < 4 {
                        parsed == Err::<(KeyParts, Seq<u8>), ReadError>(ReadError::UnexpectedEof)
                    } else if count != columns {
                        parsed == Err::<(KeyParts, Seq<u8>), ReadError>(
                            ReadError::PermutationCount { got: count as u32, expected: columns },
                        )
                    } else {
                        match permutation {
                            Err(e) => parsed == Err::<(KeyParts, Seq<u8>), ReadError>(e),
                            Ok((permutation, rest)) => parsed == Ok::<
                                (KeyParts, Seq<u8>),
                                ReadError,
                            >((KeyParts { k: input[1], fixed, permutation }, rest)),
                        }
                    }
                },
            }
        }),
{
    if input.len() > 1 {
        let after_header = input.skip(1).skip(1);
        assert(after_header =~= input.skip(2));
        law_a_count_is_four_bytes(after_header);
    }
    if input.len() >= 6 {
        assert(input.skip(1).skip(1).skip(4) =~= input.skip(6));
        let count = (input[2] + 256 * input[3] + 65536 * input[4] + 16777216 * input[5]) as nat;
        match many_parsed(input.skip(6), count, object_parser::<C>(format)) {
            Ok((_, rest)) => {
                law_a_count_is_four_bytes(rest);
            },
            Err(_) => {},
        }
    }
}

/// A key that is read holds what its bytes say where they say it: its size is the
/// second byte, its commitments are as many as the counts say and what their own bytes
/// encode, and the permutation has as many columns as the circuit.
pub proof fn law_a_verifying_key_is_read_where_it_lies<C: ProcessedSerdeObject>(
    input: Seq<u8>,
    format: SerdeFormat,
    max_k: u32,
    columns: usize,
    parts: KeyParts,
    rest: Seq<u8>,
)
    requires
        vk_parsed::<C>(input, format, max_k, columns) == Ok::<_, ReadError>((parts, rest)),
    ensures
        ({
            let length = C::spec_byte_length(format);
            let middle = input.skip(6).skip((parts.fixed.len() * length) as int);
            &&& input.len() >= 6
            &&& input[0] == 3
            &&& parts.k == input[1] <= max_k
            &&& parts.fixed.len() == input[2] + 256 * input[3] + 65536 * input[4] + 16777216
                * input[5]
            &&& forall|i: int|
                0 <= i < parts.fixed.len() ==> C::decoded(
                    input.skip(6).subrange(i * length, i * length + length),
                    format,
                ) == Some(#[trigger] parts.fixed[i])
            &&& middle.len() >= 4
            &&& parts.permutation.len() == columns
            &&& parts.permutation.len() == middle[0] + 256 * middle[1] + 65536 * middle[2]
                + 16777216 * middle[3]
            &&& forall|i: int|
                0 <= i < parts.permutation.len() ==> C::decoded(
                    middle.skip(4).subrange(i * length, i * length + length),
                    format,
                ) == Some(#[trigger] parts.permutation[i])
            &&& rest == middle.skip(4).skip((parts.permutation.len() * length) as int)
        }),
{
    law_a_verifying_key_is_read_front_to_back::<C>(input, format, max_k, columns);
    let count = (input[2] + 256 * input[3] + 65536 * input[4] + 16777216 * input[5]) as nat;
    let (fixed, after) = many_parsed(input.skip(6), count, object_parser::<C>(format))->Ok_0;
    law_objects_are_parsed_where_they_lie::<C>(input.skip(6), count, format, fixed, after);
    let columns_read = (after[0] + 256 * after[1] + 65536 * after[2] + 16777216 * after[3]) as nat;
    law_objects_are_parsed_where_they_lie::<C>(
        after.skip(4),
        columns_read,
        format,
        parts.permutation,
        rest,
    );
}

/// A key has as many bytes as it says it has.
pub proof fn law_a_verifying_key_is_as_long_as_it_says<F: KeyField, C: ProcessedSerdeObject>(
    vk: VerifyingKey<F, C>,
    format: SerdeFormat,
    length: usize,
    bytes: Vec<u8>,
)
    requires
        call_ensures(VerifyingKey::<F, C>::bytes_length, (&vk, format), length),
        call_ensures(VerifyingKey::<F, C>::to_bytes, (&vk, format), bytes),
    ensures
        bytes@.len() == length,
        length == 10 + (vk.parts().fixed.len() + vk.parts().permutation.len())
            * C::spec_byte_length(format),
{
    let size = C::spec_byte_length(format);
    let fixed = vk.parts().fixed.len();
    let permutation = vk.parts().permutation.len();
    assert((fixed + permutation) * size == fixed * size + permutation * size) by (nonlinear_arith);
}

/// A key that is read from bytes is made of what the proof system says for it: its
/// domain is named for the circuit's degree and the size in the bytes, its constraints
/// are the circuit's with every selector turned into a column, and its commitments are
/// those of the bytes.
pub proof fn law_a_verifying_key_is_made_by_the_proof_system<
    F: KeyField,
    C: ProcessedSerdeObject,
    P: ProofSystem<F>,
    Ci: Circuit,
>(
    bytes: &[u8],
    format: SerdeFormat,
    system: &P,
    circuit: &Ci,
    vk: VerifyingKey<F, C>,
) -> (made: (ConstraintSystem, String, Vec<Vec<bool>>))
    requires
        call_ensures(
            VerifyingKey::<F, C>::from_bytes::<P, Ci>,
            (bytes, format, system, circuit),
            Ok::<_, ReadError>(vk),
        ),
    ensures
        call_ensures(Ci::configure, (circuit,), made.0),
        call_ensures(P::pinned_domain, (system, made.0.degree, bytes@[1] as u32), made.1),
        vk.spec_domain().spec_k() == bytes@[1],
        vk.spec_domain().spec_pinned() == made.1@,
        made.2@.len() == made.0.num_selectors,
        forall|i: int| 0 <= i < made.2@.len() ==> (#[trigger] made.2@[i])@.len() == 0,
        call_ensures(
            P::directly_convert_selectors_to_fixed,
            (system, made.0, made.2),
            vk.spec_cs(),
        ),
        vk_parsed::<C>(bytes@, format, F::spec_s(), made.0.permutation_columns) matches Ok((parts, _))
            && parts == vk.parts(),
{
    let cs = choose|cs: ConstraintSystem|
        {
            &&& #[trigger] call_ensures(Ci::configure, (circuit,), cs)
            &&& match vk_parsed::<C>(bytes@, format, F::spec_s(), cs.permutation_columns) {
                Ok((parts, _)) => built_from::<F, C, P>(vk, system, cs, parts),
                Err(_) => false,
            }
        };
    let (parts, rest) = vk_parsed::<C>(
        bytes@,
        format,
        F::spec_s(),
        cs.permutation_columns,
    )->Ok_0;
    law_a_verifying_key_is_read_where_it_lies::<C>(
        bytes@,
        format,
        F::spec_s(),
        cs.permutation_columns,
        parts,
        rest,
    );
    let pinned = choose|pinned: String|
        {
            &&& #[trigger] call_ensures(
                P::pinned_domain,
                (system, cs.degree, parts.k as u32),
                pinned,
            )
            &&& vk.spec_domain().spec_pinned() == pinned@
        };
    let selectors = choose|selectors: Vec<Vec<bool>>|
        {
            &&& no_rows(selectors@, cs.num_selectors)
            &&& #[trigger] call_ensures(
                P::directly_convert_selectors_to_fixed,
                (system, cs, selectors),
                vk.spec_cs(),
            )
        };
    (cs, pinned, selectors)
}

/// A key hands out what it was put together from.
pub proof fn law_a_key_hands_out_what_it_holds<F: KeyField, C: ProcessedSerdeObject>(
    domain: EvaluationDomain,
    fixed_commitments: Vec<C>,
    permutation: PermutationVerifyingKey<C>,
    cs: ConstraintSystem,
    vk: VerifyingKey<F, C>,
    n: u64,
    degree: usize,
    fixed: &Vec<C>,
    columns: &PermutationVerifyingKey<C>,
    constraints: &ConstraintSystem,
    own_domain: &EvaluationDomain,
    i: int,
)
    requires
        domain.spec_k() < 256,
        call_ensures(
            VerifyingKey::<F, C>::from_parts,
            (domain, fixed_commitments, permutation, cs),
            vk,
        ),
        call_ensures(VerifyingKey::<F, C>::n, (&vk,), n),
        call_ensures(VerifyingKey::<F, C>::cs_degree, (&vk,), degree),
        call_ensures(VerifyingKey::<F, C>::fixed_commitments, (&vk,), fixed),
        call_ensures(VerifyingKey::<F, C>::permutation, (&vk,), columns),
        call_ensures(VerifyingKey::<F, C>::cs, (&vk,), constraints),
        call_ensures(VerifyingKey::<F, C>::get_domain, (&vk,), own_domain),
    ensures
        n == pow2(domain.spec_k() as nat),
        degree == cs.degree,
        *constraints == cs,
        *own_domain == domain,
        fixed@.len() == fixed_commitments@.len(),
        0 <= i < fixed@.len() ==> fixed@[i].repr() == fixed_commitments@[i].repr(),
        columns.commitments@.len() == permutation.commitments@.len(),
        0 <= i < columns.commitments@.len() ==> columns.commitments@[i].repr()
            == permutation.commitments@[i].repr(),
{
    assert(reprs_of(fixed@).len() == fixed@.len());
    assert(reprs_of(columns.commitments@).len() == columns.commitments@.len());
    if 0 <= i < fixed@.len() {
        assert(reprs_of(fixed@)[i] == reprs_of(fixed_commitments@)[i]);
    }
    if 0 <= i < columns.commitments@.len() {
        assert(reprs_of(columns.commitments@)[i] == reprs_of(permutation.commitments@)[i]);
    }
}

/// A transcript that records takes every element, once, at its end.
pub proof fn law_a_record_takes_every_element<F: Copy>(
    record: Vec<F>,
    element: F,
    after: Vec<F>,
    outcome: Result<(), IoFailure>,
)
    requires
        record.absorbs(element, &after, outcome),
    ensures
        outcome is Ok,
        after@ == record@.push(element),
        record.absorbed() == record@,
{
}

} // verus!
