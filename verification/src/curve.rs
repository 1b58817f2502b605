//! The scalar field and the commitment group of BLS12-381, as keys hold them.
use ff::{FromUniformBytes, PrimeField};
use group::{GroupEncoding, UncompressedEncoding};
use midnight_curves::serde::SerdeObject;
use midnight_curves::{Fq, G1Affine};
use vstd::arithmetic::div_mod::{lemma_mul_mod_noop, lemma_mul_mod_noop_left, lemma_small_mod};
use vstd::arithmetic::power::{lemma_pow0, lemma_pow1, lemma_pow_adds, pow};
use vstd::prelude::*;

use crate::bytes::{append_bytes, le_value};
use crate::encoding::{reads_back, ProcessedSerdeObject, SerdeFormat};
use crate::error::ReadError;
use crate::field::{Field, KeyField};

verus! {

/// The characteristic of the scalar field.
pub open spec fn scalar_modulus() -> nat {
    0x73eda753299d7d483339d80809a1d80553bda402fffe5bfeffffffff00000001nat
}

/// The factor by which an element's representation exceeds its residue.
pub open spec fn montgomery_radix() -> nat {
    0x1_0000000000000000_0000000000000000_0000000000000000_0000000000000000nat
}

/// The inverse of [`montgomery_radix`] in the scalar field.
pub open spec fn montgomery_inverse() -> nat {
    0x1bbe869330009d577204078a4f77266aab6fca8f09dc705f13f75b69fe75c040nat
}

/// The residue of the element that is represented by `raw`.
#[verifier::opaque]
pub open spec fn scalar_value(raw: Seq<u8>) -> nat {
    (le_value(raw) * montgomery_inverse()) % scalar_modulus()
}

/// The `len` lowest bytes of `n`, little-endian.
pub open spec fn le_bytes(n: nat, len: nat) -> Seq<u8>
    decreases len,
{
    if len == 0 {
        Seq::empty()
    } else {
        seq![(n % 256) as u8] + le_bytes(n / 256, (len - 1) as nat)
    }
}

/// The representation of the element with residue `value`.
pub open spec fn scalar_raw(value: nat) -> Seq<u8> {
    le_bytes((value * montgomery_radix()) % scalar_modulus(), 32)
}

/// The modulus, little-endian.
pub const MODULUS_BYTES: [u8; 32] = [
    0x01, 0x00, 0x00, 0x00, 0xff, 0xff, 0xff, 0xff,
    0xfe, 0x5b, 0xfe, 0xff, 0x02, 0xa4, 0xbd, 0x53,
    0x05, 0xd8, 0xa1, 0x09, 0x08, 0xd8, 0x39, 0x33,
    0x48, 0x7d, 0x9d, 0x29, 0x53, 0xa7, 0xed, 0x73,
];

/// `len` bytes stand for a number below `256^len`.
proof fn lemma_le_value_bounded(bytes: Seq<u8>)
    ensures
        le_value(bytes) < pow(256, bytes.len()),
    decreases bytes.len(),
{
    if bytes.len() == 0 {
        lemma_pow0(256);
    } else {
        lemma_le_value_bounded(bytes.drop_first());
        lemma_pow1(256);
        lemma_pow_adds(256, 1, (bytes.len() - 1) as nat);
    }
}

/// A byte string is the bytes of the number that it stands for.
proof fn lemma_le_bytes_of_value(bytes: Seq<u8>)
    ensures
        le_bytes(le_value(bytes), bytes.len()) == bytes,
    decreases bytes.len(),
{
    if bytes.len() > 0 {
        let others = bytes.drop_first();
        lemma_le_bytes_of_value(others);
        let n = le_value(bytes);
        assert(n % 256 == bytes[0] && n / 256 == le_value(others));
        assert(le_bytes(n, bytes.len()) =~= bytes);
    } else {
        assert(le_bytes(le_value(bytes), 0) =~= bytes);
    }
}

/// The bytes of a number that fits stand for it.
proof fn lemma_value_of_le_bytes(n: nat, len: nat)
    requires
        n < pow(256, len),
    ensures
        le_bytes(n, len).len() == len,
        le_value(le_bytes(n, len)) == n,
    decreases len,
{
    if len == 0 {
        lemma_pow0(256);
    } else {
        lemma_pow1(256);
        lemma_pow_adds(256, 1, (len - 1) as nat);
        assert(n / 256 < pow(256, (len - 1) as nat));
        lemma_value_of_le_bytes(n / 256, (len - 1) as nat);
        let bytes = le_bytes(n, len);
        assert(bytes.drop_first() =~= le_bytes(n / 256, (len - 1) as nat));
    }
}

/// 32 bytes hold every number below the radix, and so every reduced one.
proof fn lemma_radix()
    ensures
        pow(256, 32) == montgomery_radix(),
        scalar_modulus() < montgomery_radix(),
        (montgomery_radix() * montgomery_inverse()) % scalar_modulus() == 1,
{
    lemma_pow1(256);
    lemma_pow_adds(256, 1, 1);
    assert(pow(256, 2) == 0x10000);
    lemma_pow_adds(256, 2, 2);
    assert(pow(256, 4) == 0x1_0000_0000);
    lemma_pow_adds(256, 4, 4);
    assert(pow(256, 8) == 0x1_0000000000000000int);
    lemma_pow_adds(256, 8, 8);
    assert(pow(256, 16) == 0x1_0000000000000000_0000000000000000int);
    lemma_pow_adds(256, 16, 16);
}

/// A residue is the residue of its representation.
proof fn lemma_value_of_raw(value: nat)
    requires
        value < scalar_modulus(),
    ensures
        scalar_raw(value).len() == 32,
        le_value(scalar_raw(value)) < scalar_modulus(),
        scalar_value(scalar_raw(value)) == value,
{
    reveal(scalar_value);
    let q = scalar_modulus() as int;
    let r = montgomery_radix() as int;
    let i = montgomery_inverse() as int;
    lemma_radix();
    let n = (value * montgomery_radix()) % scalar_modulus();
    lemma_value_of_le_bytes(n, 32);
    lemma_mul_mod_noop_left(value * r, i, q);
    assert((value * r) * i == value * (r * i)) by (nonlinear_arith);
    lemma_mul_mod_noop(value as int, r * i, q);
    lemma_small_mod(value, scalar_modulus());
}

/// A reduced representation is the representation of its residue.
proof fn lemma_raw_of_value(raw: Seq<u8>)
    requires
        raw.len() == 32,
        le_value(raw) < scalar_modulus(),
    ensures
        scalar_raw(scalar_value(raw)) == raw,
{
    reveal(scalar_value);
    let q = scalar_modulus() as int;
    let r = montgomery_radix() as int;
    let i = montgomery_inverse() as int;
    let n = le_value(raw) as int;
    lemma_radix();
    lemma_mul_mod_noop_left(n * i, r, q);
    assert((n * i) * r == n * (r * i)) by (nonlinear_arith);
    lemma_mul_mod_noop(n, r * i, q);
    lemma_small_mod(n as nat, scalar_modulus());
    lemma_le_bytes_of_value(raw);
}

/// The highest byte in which two byte strings differ decides which one stands for
/// the smaller number.
proof fn lemma_highest_difference(a: Seq<u8>, b: Seq<u8>, at: int)
    requires
        a.len() == b.len(),
        0 <= at < a.len(),
        a[at] < b[at],
        forall|i: int| at < i < a.len() ==> a[i] == b[i],
    ensures
        le_value(a) < le_value(b),
    decreases at,
{
    let rest_a = a.drop_first();
    let rest_b = b.drop_first();
    if at == 0 {
        assert(rest_a =~= rest_b);
    } else {
        lemma_highest_difference(rest_a, rest_b, at - 1);
    }
}

/// The constant holds the modulus.
proof fn lemma_modulus_bytes()
    ensures
        le_value(MODULUS_BYTES@) == scalar_modulus(),
{
    reveal_with_fuel(le_value, 33);
}

/// Whether a representation is reduced.
fn below_modulus(raw: &[u8; 32]) -> (below: bool)
    ensures
        below == (le_value(raw@) < scalar_modulus()),
{
    let modulus = MODULUS_BYTES;
    proof {
        lemma_modulus_bytes();
    }
    let mut i: usize = 32;
    while i > 0
        invariant
            i <= 32,
            modulus == MODULUS_BYTES,
            le_value(modulus@) == scalar_modulus(),
            forall|k: int| i <= k < 32 ==> raw@[k] == modulus@[k],
        decreases i,
    {
        i = i - 1;
        if raw[i] < modulus[i] {
            proof {
                lemma_highest_difference(raw@, modulus@, i as int);
            }
            return true;
        }
        if raw[i] > modulus[i] {
            proof {
                lemma_highest_difference(modulus@, raw@, i as int);
            }
            return false;
        }
    }
    assert(raw@ =~= modulus@);
    false
}

/// The product of two elements.
///
/// This is `*` of `midnight_curves::Fq`: Montgomery multiplication, which takes
/// reduced representations to the reduced representation of the product.
#[verifier::external_body]
fn fq_product(a: &[u8; 32], b: &[u8; 32]) -> (product: [u8; 32])
    requires
        le_value(a@) < scalar_modulus(),
        le_value(b@) < scalar_modulus(),
    ensures
        le_value(product@) < scalar_modulus(),
        scalar_value(product@) == (scalar_value(a@) * scalar_value(b@)) % scalar_modulus(),
{
    let product = Fq::from_raw_bytes_unchecked(a) * Fq::from_raw_bytes_unchecked(b);
    product.to_raw_bytes().try_into().unwrap()
}

/// The sum of two elements.
///
/// This is `+` of `midnight_curves::Fq`: modular addition, which takes reduced
/// representations to the reduced representation of the sum.
#[verifier::external_body]
fn fq_sum(a: &[u8; 32], b: &[u8; 32]) -> (sum: [u8; 32])
    requires
        le_value(a@) < scalar_modulus(),
        le_value(b@) < scalar_modulus(),
    ensures
        le_value(sum@) < scalar_modulus(),
        scalar_value(sum@) == (scalar_value(a@) + scalar_value(b@)) % scalar_modulus(),
{
    let sum = Fq::from_raw_bytes_unchecked(a) + Fq::from_raw_bytes_unchecked(b);
    sum.to_raw_bytes().try_into().unwrap()
}

/// The standard form of an element.
///
/// This is `to_repr` of `midnight_curves::Fq`: the residue, little-endian. It
/// divides by the radix and then reduces, so the representation need not be
/// reduced.
#[verifier::external_body]
fn fq_to_repr(raw: &[u8; 32]) -> (repr: [u8; 32])
    ensures
        le_value(repr@) == scalar_value(raw@),
{
    Fq::from_raw_bytes_unchecked(raw).to_repr()
}

/// The element with the given standard form.
///
/// This is `from_repr` of `midnight_curves::Fq`: a little-endian number below the
/// modulus is taken to the reduced representation of that residue, and any other
/// number is turned down.
#[verifier::external_body]
fn fq_from_repr(repr: &[u8; 32]) -> (raw: Option<[u8; 32]>)
    ensures
        match raw {
            Some(raw) => {
                &&& le_value(repr@) < scalar_modulus()
                &&& le_value(raw@) < scalar_modulus()
                &&& scalar_value(raw@) == le_value(repr@)
            },
            None => le_value(repr@) >= scalar_modulus(),
        },
{
    let element: Option<Fq> = Fq::from_repr(*repr).into();
    element.map(|e| e.to_raw_bytes().try_into().unwrap())
}

/// The element that is congruent to a number of 64 bytes.
///
/// This is `from_uniform_bytes` of `midnight_curves::Fq`, which reduces a
/// little-endian number.
#[verifier::external_body]
fn fq_from_uniform_bytes(bytes: &[u8; 64]) -> (raw: [u8; 32])
    ensures
        le_value(raw@) < scalar_modulus(),
        scalar_value(raw@) == le_value(bytes@) % scalar_modulus(),
{
    Fq::from_uniform_bytes(bytes).to_raw_bytes().try_into().unwrap()
}

/// The largest `s` for which the scalar field has a root of unity of order `2^s`.
///
/// This is the constant `S` of `midnight_curves::Fq`.
#[verifier::external_body]
fn fq_s() -> (s: u32)
    ensures
        s == 32,
{
    <Fq as PrimeField>::S
}

/// An element of the scalar field, in the representation that the field's own
/// arithmetic uses.
#[derive(Clone, Copy, Debug, PartialEq, Eq)]
pub struct Scalar {
    raw: [u8; 32],
}

impl Scalar {
    /// The element's representation.
    pub closed spec fn spec_raw(self) -> Seq<u8> {
        self.raw@
    }

    /// The element with the given representation, reduced or not.
    pub fn new(raw: [u8; 32]) -> (element: Self)
        ensures
            element.spec_raw() == raw@,
    {
        Scalar { raw }
    }

    /// The element's representation.
    pub fn raw(&self) -> (raw: [u8; 32])
        ensures
            raw@ == self.spec_raw(),
    {
        self.raw
    }
}

impl Field for Scalar {
    open spec fn modulus() -> nat {
        scalar_modulus()
    }

    open spec fn value(self) -> nat {
        scalar_value(self.spec_raw())
    }

    open spec fn valid(self) -> bool {
        le_value(self.spec_raw()) < scalar_modulus()
    }

    proof fn residues_are_reduced(self) {
        reveal(scalar_value);
    }

    fn times(self, rhs: Self) -> (product: Self) {
        Scalar { raw: fq_product(&self.raw, &rhs.raw) }
    }

    fn plus(self, rhs: Self) -> (sum: Self) {
        Scalar { raw: fq_sum(&self.raw, &rhs.raw) }
    }
}

/// Copies `N` bytes into an array.
fn to_array<const N: usize>(bytes: &[u8]) -> (array: [u8; N])
    requires
        bytes@.len() == N,
    ensures
        array@ == bytes@,
{
    let mut array: [u8; N] = [0; N];
    for i in 0..N
        invariant
            bytes@.len() == N,
            forall|j: int| 0 <= j < i ==> array@[j] == bytes@[j],
    {
        array[i] = bytes[i];
    }
    assert(array@ =~= bytes@);
    array
}

impl ProcessedSerdeObject for Scalar {
    open spec fn repr(&self) -> Seq<u8> {
        self.spec_raw()
    }

    open spec fn accepted(repr: Seq<u8>) -> bool {
        le_value(repr) < scalar_modulus()
    }

    open spec fn spec_byte_length(format: SerdeFormat) -> nat {
        32
    }

    /// The standard form in a processed key, and the representation in others.
    open spec fn encoded(repr: Seq<u8>, format: SerdeFormat) -> Seq<u8> {
        match format {
            SerdeFormat::Processed => le_bytes(scalar_value(repr), 32),
            _ => repr,
        }
    }

    open spec fn decoded(bytes: Seq<u8>, format: SerdeFormat) -> Option<Seq<u8>> {
        match format {
            SerdeFormat::Processed => if le_value(bytes) < scalar_modulus() {
                Some(scalar_raw(le_value(bytes)))
            } else {
                None
            },
            SerdeFormat::RawBytes => if le_value(bytes) < scalar_modulus() {
                Some(bytes)
            } else {
                None
            },
            SerdeFormat::RawBytesUnchecked => Some(bytes),
        }
    }

    open spec fn spec_rejection() -> ReadError {
        ReadError::InvalidElement
    }

    fn rejection() -> (error: ReadError) {
        ReadError::InvalidElement
    }

    fn byte_length(format: SerdeFormat) -> (length: usize) {
        32
    }

    fn write(&self, out: &mut Vec<u8>, format: SerdeFormat) {
        proof {
            lemma_radix();
            self.residues_are_reduced();
            lemma_value_of_le_bytes(scalar_value(self.raw@), 32);
            if le_value(self.raw@) < scalar_modulus() {
                lemma_raw_of_value(self.raw@);
            }
        }
        match format {
            SerdeFormat::Processed => {
                let repr = fq_to_repr(&self.raw);
                proof {
                    lemma_le_bytes_of_value(repr@);
                }
                append_bytes(out, repr.as_slice());
            },
            _ => {
                append_bytes(out, self.raw.as_slice());
            },
        }
    }

    fn read(bytes: &[u8], format: SerdeFormat) -> (object: Option<Self>) {
        let array: [u8; 32] = to_array(bytes);
        match format {
            SerdeFormat::Processed => match fq_from_repr(&array) {
                Some(raw) => {
                    proof {
                        lemma_raw_of_value(raw@);
                    }
                    Some(Scalar { raw })
                },
                None => None,
            },
            SerdeFormat::RawBytes => if below_modulus(&array) {
                Some(Scalar { raw: array })
            } else {
                None
            },
            SerdeFormat::RawBytesUnchecked => Some(Scalar { raw: array }),
        }
    }
}

/// A reduced element is read back in every format.
pub proof fn law_scalars_read_back(raw: Seq<u8>, format: SerdeFormat)
    requires
        raw.len() == 32,
        le_value(raw) < scalar_modulus(),
    ensures
        reads_back::<Scalar>(raw, format),
{
    lemma_radix();
    lemma_raw_of_value(raw);
    let value = scalar_value(raw);
    assert(value < scalar_modulus()) by {
        reveal(scalar_value);
    }
    lemma_value_of_le_bytes(value, 32);
}

/// An element has one reduced representation, and every residue has one.
pub proof fn law_a_residue_has_one_reduced_representation(value: nat, raw: Seq<u8>)
    requires
        value < scalar_modulus(),
        raw.len() == 32,
    ensures
        le_value(raw) < scalar_modulus() && scalar_value(raw) == value <==> raw == scalar_raw(
            value,
        ),
{
    lemma_value_of_raw(value);
    if le_value(raw) < scalar_modulus() {
        lemma_raw_of_value(raw);
    }
}

impl KeyField for Scalar {
    open spec fn spec_s() -> u32 {
        32
    }

    proof fn representations_identify(self, other: Self) {
        assert(self.raw =~= other.raw);
    }

    proof fn domains_are_bounded() {
    }

    fn s() -> (s: u32) {
        fq_s()
    }

    fn from_uniform_bytes(bytes: &[u8; 64]) -> (element: Self) {
        Scalar { raw: fq_from_uniform_bytes(bytes) }
    }
}

/// The point of the curve that 96 bytes stand for, as its canonical 96 bytes.
pub uninterp spec fn g1_on_curve(bytes: Seq<u8>) -> Option<Seq<u8>>;

/// The point of the subgroup that 96 bytes stand for, as its canonical 96 bytes.
pub uninterp spec fn g1_in_subgroup(bytes: Seq<u8>) -> Option<Seq<u8>>;

/// The point of the subgroup that 48 bytes stand for, as its canonical 96 bytes.
pub uninterp spec fn g1_decompressed(bytes: Seq<u8>) -> Option<Seq<u8>>;

/// The 48 bytes that stand for the point with these 96 bytes.
pub uninterp spec fn g1_compressed(point: Seq<u8>) -> Seq<u8>;

/// Decodes an uncompressed point without checking that it lies in the subgroup.
///
/// This is `from_uncompressed_unchecked` of `midnight_curves::G1Affine`, with the
/// point handed back as `to_uncompressed` writes it. What is written stands for
/// the same point.
#[verifier::external_body]
fn g1_from_uncompressed_unchecked(bytes: &[u8; 96]) -> (point: Option<[u8; 96]>)
    ensures
        match point {
            Some(point) => g1_on_curve(bytes@) == Some(point@) && g1_on_curve(point@) == Some(
                point@,
            ),
            None => g1_on_curve(bytes@) is None,
        },
{
    let mut encoding = <G1Affine as UncompressedEncoding>::Uncompressed::default();
    encoding.as_mut().copy_from_slice(bytes);
    let point: Option<G1Affine> = G1Affine::from_uncompressed_unchecked(&encoding).into();
    point.map(|p| p.to_raw_bytes().try_into().unwrap())
}

/// Decodes an uncompressed point and checks that it lies in the subgroup.
///
/// This is `from_raw_bytes` of `midnight_curves::G1Affine`, with the point handed
/// back as `to_raw_bytes` writes it. What is written stands for the same point,
/// checked or not.
#[verifier::external_body]
fn g1_from_uncompressed(bytes: &[u8; 96]) -> (point: Option<[u8; 96]>)
    ensures
        match point {
            Some(point) => {
                &&& g1_in_subgroup(bytes@) == Some(point@)
                &&& g1_in_subgroup(point@) == Some(point@)
                &&& g1_on_curve(point@) == Some(point@)
            },
            None => g1_in_subgroup(bytes@) is None,
        },
{
    G1Affine::from_raw_bytes(bytes).map(|p| p.to_raw_bytes().try_into().unwrap())
}

/// Decodes a compressed point and checks that it lies in the subgroup.
///
/// This is `from_bytes` of `midnight_curves::G1Affine`, with the point handed back
/// as `to_raw_bytes` writes it. What is written stands for the same point,
/// checked or not.
#[verifier::external_body]
fn g1_from_compressed(bytes: &[u8; 48]) -> (point: Option<[u8; 96]>)
    ensures
        match point {
            Some(point) => {
                &&& g1_decompressed(bytes@) == Some(point@)
                &&& g1_in_subgroup(point@) == Some(point@)
                &&& g1_on_curve(point@) == Some(point@)
            },
            None => g1_decompressed(bytes@) is None,
        },
{
    let mut encoding = <G1Affine as GroupEncoding>::Repr::default();
    encoding.as_mut().copy_from_slice(bytes);
    let point: Option<G1Affine> = G1Affine::from_bytes(&encoding).into();
    point.map(|p| p.to_raw_bytes().try_into().unwrap())
}

/// Encodes a point in compressed form.
///
/// This is `to_bytes` of `midnight_curves::G1Affine`. What it writes for a point
/// of the subgroup is decoded to the same point.
#[verifier::external_body]
fn g1_to_compressed(point: &[u8; 96]) -> (bytes: [u8; 48])
    requires
        g1_on_curve(point@) == Some(point@),
    ensures
        bytes@ == g1_compressed(point@),
        g1_in_subgroup(point@) == Some(point@) ==> g1_decompressed(bytes@) == Some(point@),
{
    let point = G1Affine::from_raw_bytes_unchecked(point);
    point.to_bytes().as_ref().try_into().unwrap()
}

/// A commitment: a point of the curve, as its canonical uncompressed bytes.
#[derive(Clone, Copy, Debug, PartialEq, Eq)]
pub struct G1Point {
    raw: [u8; 96],
}

impl G1Point {
    /// The bytes stand for a point, and are the canonical ones.
    #[verifier::type_invariant]
    spec fn canonical(self) -> bool {
        g1_on_curve(self.raw@) == Some(self.raw@)
    }

    /// The point's canonical uncompressed bytes.
    pub closed spec fn spec_raw(self) -> Seq<u8> {
        self.raw@
    }

    /// The point's canonical uncompressed bytes.
    pub fn raw(&self) -> (raw: [u8; 96])
        ensures
            raw@ == self.spec_raw(),
    {
        self.raw
    }
}

impl ProcessedSerdeObject for G1Point {
    open spec fn repr(&self) -> Seq<u8> {
        self.spec_raw()
    }

    open spec fn accepted(repr: Seq<u8>) -> bool {
        g1_in_subgroup(repr) == Some(repr)
    }

    open spec fn spec_byte_length(format: SerdeFormat) -> nat {
        match format {
            SerdeFormat::Processed => 48,
            _ => 96,
        }
    }

    open spec fn encoded(repr: Seq<u8>, format: SerdeFormat) -> Seq<u8> {
        match format {
            SerdeFormat::Processed => g1_compressed(repr),
            _ => repr,
        }
    }

    open spec fn decoded(bytes: Seq<u8>, format: SerdeFormat) -> Option<Seq<u8>> {
        match format {
            SerdeFormat::Processed => g1_decompressed(bytes),
            SerdeFormat::RawBytes => g1_in_subgroup(bytes),
            SerdeFormat::RawBytesUnchecked => g1_on_curve(bytes),
        }
    }

    open spec fn spec_rejection() -> ReadError {
        ReadError::InvalidPoint
    }

    fn rejection() -> (error: ReadError) {
        ReadError::InvalidPoint
    }

    fn byte_length(format: SerdeFormat) -> (length: usize) {
        match format {
            SerdeFormat::Processed => 48,
            _ => 96,
        }
    }

    fn write(&self, out: &mut Vec<u8>, format: SerdeFormat) {
        proof {
            use_type_invariant(self);
        }
        match format {
            SerdeFormat::Processed => {
                let bytes = g1_to_compressed(&self.raw);
                append_bytes(out, bytes.as_slice());
            },
            _ => {
                append_bytes(out, self.raw.as_slice());
            },
        }
    }

    fn read(bytes: &[u8], format: SerdeFormat) -> (object: Option<Self>) {
        let point = match format {
            SerdeFormat::Processed => g1_from_compressed(&to_array(bytes)),
            SerdeFormat::RawBytes => g1_from_uncompressed(&to_array(bytes)),
            SerdeFormat::RawBytesUnchecked => g1_from_uncompressed_unchecked(&to_array(bytes)),
        };
        match point {
            Some(raw) => Some(G1Point { raw }),
            None => None,
        }
    }
}

/// The residue of an element, times the radix, is congruent to the number that its
/// representation stands for.
pub proof fn law_representations_are_multiples_of_the_radix(raw: Seq<u8>)
    ensures
        Scalar::modulus()
            == 0x73eda753299d7d483339d80809a1d80553bda402fffe5bfeffffffff00000001nat,
        scalar_value(raw)
            < 0x73eda753299d7d483339d80809a1d80553bda402fffe5bfeffffffff00000001nat,
        (scalar_value(raw)
            * 0x1_0000000000000000_0000000000000000_0000000000000000_0000000000000000nat)
            % 0x73eda753299d7d483339d80809a1d80553bda402fffe5bfeffffffff00000001nat == le_value(raw)
            % 0x73eda753299d7d483339d80809a1d80553bda402fffe5bfeffffffff00000001nat,
{
    reveal(scalar_value);
    let q = scalar_modulus() as int;
    let r = montgomery_radix() as int;
    let i = montgomery_inverse() as int;
    let n = le_value(raw) as int;
    lemma_radix();
    lemma_mul_mod_noop_left(n * i, r, q);
    assert((n * i) * r == n * (r * i)) by (nonlinear_arith);
    lemma_mul_mod_noop(n, r * i, q);
    vstd::arithmetic::div_mod::lemma_mod_twice(n, q);
}

/// A hash becomes the element that is congruent to it, and the field has roots of
/// unity up to the order `2^32`.
pub proof fn law_hashes_become_their_residue(bytes: [u8; 64], element: Scalar, s: u32)
    requires
        call_ensures(Scalar::from_uniform_bytes, (&bytes,), element),
        call_ensures(Scalar::s, (), s),
    ensures
        element.value() == le_value(bytes@)
            % 0x73eda753299d7d483339d80809a1d80553bda402fffe5bfeffffffff00000001nat,
        le_value(element.spec_raw())
            < 0x73eda753299d7d483339d80809a1d80553bda402fffe5bfeffffffff00000001nat,
        s == 32,
{
}

/// Every format reads an element for what its bytes stand for: the unchecked one takes
/// every representation, the raw one takes the reduced ones, and the processed one
/// takes a residue in standard form.
pub proof fn law_scalars_are_read_for_what_they_are(
    bytes: &[u8],
    format: SerdeFormat,
    object: Option<Scalar>,
)
    requires
        bytes@.len() == 32,
        call_ensures(Scalar::read, (bytes, format), object),
    ensures
        object is Some <==> format == SerdeFormat::RawBytesUnchecked || le_value(bytes@)
            < 0x73eda753299d7d483339d80809a1d80553bda402fffe5bfeffffffff00000001nat,
        object matches Some(element) ==> format != SerdeFormat::Processed ==> element.spec_raw()
            == bytes@,
        object matches Some(element) ==> format == SerdeFormat::Processed ==> scalar_value(
            element.spec_raw(),
        ) == le_value(bytes@) && le_value(element.spec_raw())
            < 0x73eda753299d7d483339d80809a1d80553bda402fffe5bfeffffffff00000001nat,
{
    if format == SerdeFormat::Processed && le_value(bytes@) < scalar_modulus() {
        lemma_value_of_raw(le_value(bytes@));
    }
}

/// Every format writes an element as 32 bytes: the processed one its residue in
/// standard form, and the others its representation.
pub proof fn law_scalars_are_written_for_what_they_are(raw: Seq<u8>, format: SerdeFormat)
    requires
        raw.len() == 32,
    ensures
        Scalar::spec_byte_length(format) == 32,
        Scalar::encoded(raw, format).len() == 32,
        format != SerdeFormat::Processed ==> Scalar::encoded(raw, format) == raw,
        format == SerdeFormat::Processed ==> le_value(Scalar::encoded(raw, format))
            == scalar_value(raw),
{
    lemma_radix();
    assert(scalar_value(raw) < scalar_modulus()) by {
        reveal(scalar_value);
    }
    lemma_value_of_le_bytes(scalar_value(raw), 32);
}

/// Every representation is read back by the unchecked format.
pub proof fn law_every_representation_is_read_back_unchecked(raw: Seq<u8>)
    requires
        raw.len() == 32,
    ensures
        reads_back::<Scalar>(raw, SerdeFormat::RawBytesUnchecked),
{
}

/// Every format reads a point for what its bytes stand for, with the checks that it
/// promises: the unchecked one asks for a point of the curve, the raw one for a point
/// of the subgroup, and the processed one for a compressed one.
pub proof fn law_points_are_read_for_what_they_are(
    bytes: &[u8],
    format: SerdeFormat,
    object: Option<G1Point>,
    length: usize,
)
    requires
        call_ensures(G1Point::read, (bytes, format), object),
        call_ensures(G1Point::byte_length, (format,), length),
    ensures
        length == if format == SerdeFormat::Processed {
            48int
        } else {
            96
        },
        ({
            let point = if format == SerdeFormat::Processed {
                g1_decompressed(bytes@)
            } else if format == SerdeFormat::RawBytes {
                g1_in_subgroup(bytes@)
            } else {
                g1_on_curve(bytes@)
            };
            &&& object is Some <==> point is Some
            &&& object matches Some(read) ==> point == Some(read.spec_raw())
        }),
{
}

/// A point is written as its own bytes, or as its compressed ones in a processed key.
pub proof fn law_points_are_written_for_what_they_are(point: Seq<u8>, format: SerdeFormat)
    ensures
        format != SerdeFormat::Processed ==> G1Point::encoded(point, format) == point,
        format == SerdeFormat::Processed ==> G1Point::encoded(point, format) == g1_compressed(
            point,
        ),
{
}

/// A point of the curve is read back unchecked, and one of the subgroup raw.
pub proof fn law_points_read_back(point: Seq<u8>)
    requires
        point.len() == 96,
    ensures
        g1_on_curve(point) == Some(point) ==> reads_back::<G1Point>(
            point,
            SerdeFormat::RawBytesUnchecked,
        ),
        g1_in_subgroup(point) == Some(point) ==> reads_back::<G1Point>(
            point,
            SerdeFormat::RawBytes,
        ),
{
}

/// The sum and the product of reduced elements are the reduced elements with the sum and
/// the product of their residues. An element is reduced when its representation is below
/// the modulus.
pub proof fn law_arithmetic_is_that_of_the_residues(
    a: Scalar,
    b: Scalar,
    sum: Scalar,
    product: Scalar,
)
    requires
        le_value(a.spec_raw())
            < 0x73eda753299d7d483339d80809a1d80553bda402fffe5bfeffffffff00000001nat,
        le_value(b.spec_raw())
            < 0x73eda753299d7d483339d80809a1d80553bda402fffe5bfeffffffff00000001nat,
        call_ensures(Scalar::plus, (a, b), sum),
        call_ensures(Scalar::times, (a, b), product),
    ensures
        call_requires(Scalar::plus, (a, b)),
        call_requires(Scalar::times, (a, b)),
        le_value(sum.spec_raw())
            < 0x73eda753299d7d483339d80809a1d80553bda402fffe5bfeffffffff00000001nat,
        le_value(product.spec_raw())
            < 0x73eda753299d7d483339d80809a1d80553bda402fffe5bfeffffffff00000001nat,
        scalar_value(sum.spec_raw()) == (scalar_value(a.spec_raw()) + scalar_value(b.spec_raw()))
            % 0x73eda753299d7d483339d80809a1d80553bda402fffe5bfeffffffff00000001nat,
        scalar_value(product.spec_raw()) == (scalar_value(a.spec_raw())
            * scalar_value(b.spec_raw()))
            % 0x73eda753299d7d483339d80809a1d80553bda402fffe5bfeffffffff00000001nat,
{
}

/// An element is represented in keys by all its bytes, and so is a point.
pub proof fn law_objects_are_represented_by_all_their_bytes(
    raw: [u8; 32],
    element: Scalar,
    bytes: [u8; 32],
    point: G1Point,
    point_bytes: [u8; 96],
)
    requires
        call_ensures(Scalar::new, (raw,), element),
        call_ensures(Scalar::raw, (&element,), bytes),
        call_ensures(G1Point::raw, (&point,), point_bytes),
    ensures
        element.repr() == raw@,
        bytes@ == raw@,
        element.value() == scalar_value(raw@),
        element.valid() == (le_value(raw@)
            < 0x73eda753299d7d483339d80809a1d80553bda402fffe5bfeffffffff00000001nat),
        point.repr() == point_bytes@,
{
}

} // verus!
