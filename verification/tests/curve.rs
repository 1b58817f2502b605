//! Scalars and commitments, against the curve library that computes on them.
use ff::{Field as _, FromUniformBytes, PrimeField};
use group::prime::PrimeCurveAffine;
use group::{Curve, Group, GroupEncoding};
use midnight_curves::serde::SerdeObject;
use midnight_curves::{Fq, G1Affine, G1Projective};
use midnight_proofs::curve::{G1Point, Scalar, MODULUS_BYTES};
use midnight_proofs::encoding::{ProcessedSerdeObject, SerdeFormat};
use midnight_proofs::error::{ErrorKind, ReadError};
use midnight_proofs::field::{Field, KeyField};

const FORMATS: [SerdeFormat; 3] =
    [SerdeFormat::Processed, SerdeFormat::RawBytes, SerdeFormat::RawBytesUnchecked];

fn scalar(v: Fq) -> Scalar {
    Scalar::new(v.to_raw_bytes().try_into().unwrap())
}

fn samples() -> Vec<Fq> {
    vec![Fq::ZERO, Fq::ONE, -Fq::ONE, Fq::from(7), Fq::from(u64::MAX), Fq::ROOT_OF_UNITY]
}

fn written<C: ProcessedSerdeObject>(object: &C, format: SerdeFormat) -> Vec<u8> {
    let mut out = vec![0xaa];
    object.write(&mut out, format);
    assert_eq!(out[0], 0xaa, "writing appends");
    assert_eq!(out.len() - 1, C::byte_length(format));
    out.split_off(1)
}

#[test]
fn scalars_compute_as_the_field_does() {
    for a in samples() {
        for b in samples() {
            assert_eq!(scalar(a).times(scalar(b)), scalar(a * b));
            assert_eq!(scalar(a).plus(scalar(b)), scalar(a + b));
        }
    }
    assert_eq!(scalar(Fq::from(6)).times(scalar(Fq::from(7))), scalar(Fq::from(42)));
    assert_eq!(scalar(-Fq::ONE).plus(scalar(Fq::ONE)), scalar(Fq::ZERO));
}

#[test]
fn the_modulus_is_the_fields() {
    // One less than the modulus is the standard form of minus one.
    let mut minus_one = MODULUS_BYTES;
    minus_one[0] -= 1;
    assert_eq!((-Fq::ONE).to_repr(), minus_one);
    assert_eq!(Scalar::s(), Fq::S);
    assert_eq!(Scalar::s(), 32);
}

#[test]
fn uniform_bytes_are_reduced() {
    let mut bytes = [0u8; 64];
    assert_eq!(Scalar::from_uniform_bytes(&bytes), scalar(Fq::ZERO));
    bytes[0] = 5;
    assert_eq!(Scalar::from_uniform_bytes(&bytes), scalar(Fq::from(5)));
    for (i, b) in bytes.iter_mut().enumerate() {
        *b = 255 - i as u8;
    }
    assert_eq!(Scalar::from_uniform_bytes(&bytes), scalar(Fq::from_uniform_bytes(&bytes)));
    assert_eq!(Scalar::from_uniform_bytes(&[0xff; 64]), scalar(Fq::from_uniform_bytes(&[0xff; 64])));
}

#[test]
fn scalars_are_read_back_in_every_format() {
    for v in samples() {
        let s = scalar(v);
        for format in FORMATS {
            let bytes = written(&s, format);
            assert_eq!(Scalar::read(&bytes, format), Some(s));
        }
        assert_eq!(written(&s, SerdeFormat::Processed), v.to_repr().to_vec());
        assert_eq!(written(&s, SerdeFormat::RawBytes), v.to_raw_bytes());
        assert_eq!(written(&s, SerdeFormat::RawBytesUnchecked), v.to_raw_bytes());
    }
}

#[test]
fn only_reduced_scalars_pass_the_checks() {
    let mut above = MODULUS_BYTES;
    above[0] += 1;
    let mut high = [0u8; 32];
    high[31] = 0x74;
    for bytes in [MODULUS_BYTES, above, high, [0xff; 32]] {
        assert_eq!(Scalar::read(&bytes, SerdeFormat::Processed), None);
        assert_eq!(Scalar::read(&bytes, SerdeFormat::RawBytes), None);
        assert_eq!(Scalar::read(&bytes, SerdeFormat::RawBytesUnchecked), Some(Scalar::new(bytes)));
    }
    let mut below = MODULUS_BYTES;
    below[0] -= 1;
    let mut low = [0xffu8; 32];
    low[31] = 0x72;
    for bytes in [below, low, [0; 32]] {
        assert_eq!(Scalar::read(&bytes, SerdeFormat::RawBytes), Some(Scalar::new(bytes)));
        assert!(Scalar::read(&bytes, SerdeFormat::Processed).is_some());
    }
    assert_eq!(Scalar::rejection(), ReadError::InvalidElement);
    assert_eq!(Scalar::rejection().message(), "field element is not less than the modulus");
}

#[test]
fn the_standard_form_of_an_unreduced_scalar_is_its_residue() {
    // The modulus plus the representation of one stands for one.
    let one = Fq::ONE.to_raw_bytes();
    let mut raw = [0u8; 32];
    let mut carry = 0u16;
    for i in 0..32 {
        let sum = MODULUS_BYTES[i] as u16 + one[i] as u16 + carry;
        raw[i] = sum as u8;
        carry = sum >> 8;
    }
    assert_eq!(carry, 0);
    assert_eq!(written(&Scalar::new(raw), SerdeFormat::Processed), Fq::ONE.to_repr().to_vec());
}

fn points() -> Vec<G1Affine> {
    let g = G1Projective::generator();
    vec![
        G1Affine::identity(),
        G1Affine::generator(),
        -G1Affine::generator(),
        (g * Fq::from(12345)).to_affine(),
    ]
}

#[test]
fn points_are_read_back_in_every_format() {
    for p in points() {
        let raw = p.to_raw_bytes();
        let point = G1Point::read(&raw, SerdeFormat::RawBytes).unwrap();
        assert_eq!(point.raw().to_vec(), raw);
        for format in FORMATS {
            let bytes = written(&point, format);
            assert_eq!(G1Point::read(&bytes, format), Some(point));
        }
        assert_eq!(written(&point, SerdeFormat::Processed), p.to_bytes().as_ref());
        assert_eq!(written(&point, SerdeFormat::RawBytes), raw);
        assert_eq!(written(&point, SerdeFormat::RawBytesUnchecked), raw);
    }
}

#[test]
fn what_is_no_point_is_rejected() {
    for format in FORMATS {
        let bytes = vec![0x01; G1Point::byte_length(format)];
        assert_eq!(G1Point::read(&bytes, format), None, "{format:?}");
    }
    assert_eq!(G1Point::rejection(), ReadError::InvalidPoint);
    assert_eq!(G1Point::rejection().kind(), ErrorKind::InvalidData);
    assert_eq!(G1Point::rejection().message(), "invalid point encoding");
}

#[test]
fn only_the_unchecked_format_takes_points_outside_the_subgroup() {
    // The first x for which there is a point; almost none lies in the subgroup.
    let mut found = 0;
    for x in 1..=40u8 {
        let mut bytes = [0u8; 96];
        bytes[0] = 0x80;
        bytes[47] = x;
        if let Some(point) = G1Point::read(&bytes, SerdeFormat::RawBytesUnchecked) {
            found += 1;
            assert_eq!(point.raw()[47], x, "the canonical form is uncompressed");
            assert_eq!(point.raw()[0], 0);
            assert_eq!(G1Point::read(&point.raw(), SerdeFormat::RawBytesUnchecked), Some(point));
            assert_eq!(G1Point::read(&point.raw(), SerdeFormat::RawBytes), None);
            let compressed = written(&point, SerdeFormat::Processed);
            assert_eq!(G1Point::read(&compressed, SerdeFormat::Processed), None);
        }
    }
    assert!(found > 0);
}
