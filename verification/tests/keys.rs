//! Keys: their bytes, their identity, and where their polynomials live.
use blake2b_simd::Params;
use ff::FromUniformBytes;
use group::{Curve, Group};
use midnight_curves::serde::SerdeObject;
use midnight_curves::{Fq, G1Projective};
use midnight_proofs::bytes::{ByteReader, ByteSource};
use midnight_proofs::config::{PolicyVars, ProverConfig};
use midnight_proofs::curve::{G1Point, Scalar, MODULUS_BYTES};
use midnight_proofs::encoding::{ProcessedSerdeObject, SerdeFormat};
use midnight_proofs::error::{ErrorKind, IoFailure, ReadError, SpillError};
use midnight_proofs::plonk::device::{
    Mapping, Platform, Preallocation, SpillDevice, SpillHost, SpillTarget,
};
use midnight_proofs::plonk::pk::{PermutationProvingKey, ProvingKey};
use midnight_proofs::plonk::stage::{read_stage, MemorySample, StageMonitor};
use midnight_proofs::plonk::system::{
    Circuit, ConstraintSystem, EvaluationDomain, LagrangePolys, ProofSystem,
};
use midnight_proofs::plonk::vk::{PermutationVerifyingKey, Transcript, VerifyingKey};
use midnight_proofs::poly::view::PolynomialView;
use midnight_proofs::poly::{Coeff, ExtendedLagrangeCoeff, LagrangeCoeff, Polynomial};

const K: u32 = 4;
const RAW: SerdeFormat = SerdeFormat::RawBytesUnchecked;
const FORMATS: [SerdeFormat; 3] =
    [SerdeFormat::Processed, SerdeFormat::RawBytes, SerdeFormat::RawBytesUnchecked];

const FALLOCATE: Platform = Platform::Fallocate { max_offset: i64::MAX };

type Key = ProvingKey<Scalar, G1Point, String, Vec<Scalar>>;

fn scalar(n: u64) -> Scalar {
    Scalar::new(Fq::from(n).to_raw_bytes().try_into().unwrap())
}

fn point(n: u64) -> G1Point {
    let p = (G1Projective::generator() * Fq::from(n)).to_affine();
    G1Point::read(&p.to_raw_bytes(), SerdeFormat::RawBytes).unwrap()
}

fn row<B>(from: u64) -> Polynomial<Scalar, B> {
    Polynomial::new((from..from + 16).map(scalar).collect())
}

/// A toy proof system: coefficients are the reversed evaluations, and a coset
/// repeats the coefficients four times.
struct Toy;

impl ProofSystem<Scalar> for Toy {
    type Evaluator = String;

    fn pinned_domain(&self, degree: usize, k: u32) -> String {
        format!("Domain {{ degree: {degree}, k: {k} }}")
    }

    fn directly_convert_selectors_to_fixed(
        &self,
        cs: ConstraintSystem,
        selectors: Vec<Vec<bool>>,
    ) -> ConstraintSystem {
        assert!(selectors.iter().all(|s| s.is_empty()));
        ConstraintSystem {
            num_selectors: 0,
            pinned: format!("{} without {} selectors", cs.pinned, selectors.len()),
            ..cs
        }
    }

    fn compute_lagrange_polys(
        &self,
        domain: &EvaluationDomain,
        _cs: &ConstraintSystem,
    ) -> LagrangePolys<Scalar> {
        LagrangePolys {
            l0: Polynomial::new(vec![scalar(domain.n())]),
            l_last: Polynomial::new(vec![scalar(2)]),
            l_active_row: Polynomial::new(vec![scalar(3)]),
        }
    }

    fn lagrange_to_coeff(
        &self,
        _domain: &EvaluationDomain,
        values: &Polynomial<Scalar, LagrangeCoeff>,
    ) -> Polynomial<Scalar, Coeff> {
        Polynomial::new(values.values.iter().rev().copied().collect())
    }

    fn coeff_to_extended(
        &self,
        _domain: &EvaluationDomain,
        coeffs: &Polynomial<Scalar, Coeff>,
    ) -> Polynomial<Scalar, ExtendedLagrangeCoeff> {
        Polynomial::new(coeffs.values.repeat(4))
    }

    fn evaluator(&self, cs: &ConstraintSystem) -> String {
        format!("gates of {}", cs.pinned)
    }
}

struct MyCircuit {
    columns: usize,
}

impl Circuit for MyCircuit {
    fn configure(&self) -> ConstraintSystem {
        ConstraintSystem {
            degree: 5,
            num_selectors: 2,
            permutation_columns: self.columns,
            pinned: "MyCircuit".to_string(),
        }
    }
}

/// Heap memory behind the interface of a device.
#[derive(Default)]
struct HeapDevice {
    fail_after_maps: Option<usize>,
    maps: std::cell::Cell<usize>,
}

impl SpillDevice<Scalar> for HeapDevice {
    type File = ();
    type Store = Vec<Scalar>;

    fn tempfile(&self) -> Result<(), IoFailure> {
        Ok(())
    }

    fn tempfile_in(&self, dir: &String) -> Result<(), IoFailure> {
        Err(IoFailure { kind: ErrorKind::Other, os_code: None, text: format!("no {dir} here") })
    }

    fn posix_fallocate(&self, _file: (), _len: i64) -> Result<(), IoFailure> {
        Ok(())
    }

    fn preallocate(&self, file: (), len: i64, _contiguous: bool) -> Preallocation<()> {
        Preallocation::Reserved(file, len)
    }

    fn set_len(&self, _file: (), _len: u64) -> Result<(), IoFailure> {
        Ok(())
    }

    fn write_zeros(&self, _file: (), _len: usize) -> Result<(), IoFailure> {
        Ok(())
    }

    fn flush(&self, _file: ()) -> Result<(), IoFailure> {
        Ok(())
    }

    fn map(&self, _file: (), len: usize) -> Result<Mapping<Vec<Scalar>>, IoFailure> {
        let maps = self.maps.get();
        self.maps.set(maps + 1);
        if Some(maps) == self.fail_after_maps {
            return Err(IoFailure { kind: ErrorKind::Other, os_code: None, text: "cannot map".to_string() });
        }
        Ok(Mapping { store: vec![scalar(0); len / 32], base: 0 })
    }
}

fn verifying_key(fixed: u64, permutation: u64) -> VerifyingKey<Scalar, G1Point> {
    VerifyingKey::from_parts(
        EvaluationDomain::new(K, "Domain { degree: 5, k: 4 }".to_string()),
        (0..fixed).map(|i| point(i + 1)).collect(),
        PermutationVerifyingKey { commitments: (0..permutation).map(|i| point(i + 100)).collect() },
        ConstraintSystem {
            degree: 5,
            num_selectors: 0,
            permutation_columns: permutation as usize,
            pinned: "MyCircuit without 2 selectors".to_string(),
        },
    )
}

fn proving_key(fixed: u64, permutation: u64) -> Key {
    ProvingKey {
        vk: verifying_key(fixed, permutation),
        l0: Polynomial::new(vec![]),
        l_last: Polynomial::new(vec![]),
        l_active_row: Polynomial::new(vec![]),
        fixed_values: (0..fixed).map(|i| row(1000 * (i + 1))).collect(),
        fixed_polys: vec![],
        fixed_cosets: vec![],
        permutation: PermutationProvingKey {
            permutations: (0..permutation).map(|i| row(7000 * (i + 1))).collect(),
            polys: vec![],
            cosets: vec![],
        },
        ev: String::new(),
        fixed_polys_mmap: None,
        fixed_values_mmap: None,
        permutation_polys_mmap: None,
    }
}

fn serialised_key() -> Vec<u8> {
    proving_key(3, 2).to_bytes(RAW)
}

fn try_read(bytes: &[u8], policy: &ProverConfig, device: &HeapDevice) -> Result<Key, ReadError> {
    let host = SpillHost { device, platform: FALLOCATE };
    ProvingKey::read_with_policy(
        &mut ByteReader::new(bytes),
        RAW,
        &Toy,
        &MyCircuit { columns: 2 },
        Some(&host),
        policy,
    )
}

fn read(bytes: &[u8], policy: &ProverConfig) -> Key {
    match try_read(bytes, policy, &HeapDevice::default()) {
        Ok(pk) => pk,
        Err(e) => panic!("read_with_policy: {}", e.message()),
    }
}

fn values<B>(views: &[PolynomialView<'_, Scalar, B>]) -> Vec<Vec<Scalar>> {
    views.iter().map(|v| v.to_vec()).collect()
}

fn error_of<T>(outcome: Result<T, ReadError>) -> ReadError {
    match outcome {
        Ok(_) => panic!("the key was read"),
        Err(error) => error,
    }
}

#[test]
fn heap_policy_builds_cosets_eagerly_as_upstream_does() {
    let bytes = serialised_key();
    let pk = read(&bytes, &ProverConfig::heap());
    assert!(!pk.fixed_cosets.is_empty() || pk.fixed_polys.is_empty());
    assert!(pk.fixed_polys_mmap.is_none());
    assert!(pk.permutation_polys_mmap.is_none());
}

#[test]
fn mapped_key_policy_never_builds_the_cosets_it_would_have_to_drop() {
    let bytes = serialised_key();
    let pk = read(&bytes, &ProverConfig::mapped_key());
    assert!(pk.fixed_cosets.is_empty(), "fixed cosets must be deferred, not built then dropped");
    assert!(pk.permutation.cosets.is_empty(), "permutation cosets must be deferred too");

    let heap = read(&bytes, &ProverConfig::heap());
    assert_eq!(
        pk.fixed_polys_mmap.is_some(),
        !heap.fixed_polys.is_empty(),
        "fixed polys must be mapped exactly when there were any"
    );
    assert_eq!(
        pk.permutation_polys_mmap.is_some(),
        !heap.permutation.polys.is_empty(),
        "permutation polys must be mapped exactly when there were any"
    );
    assert!(
        pk.fixed_polys.is_empty() && pk.permutation.polys.is_empty(),
        "whatever was mapped must have left the heap vectors"
    );
}

#[test]
fn policy_does_not_change_what_the_key_serialises_to() {
    let bytes = serialised_key();
    let heap = read(&bytes, &ProverConfig::heap());
    let mapped = read(&bytes, &ProverConfig::mapped_key());
    assert_eq!(heap.to_bytes(RAW), mapped.to_bytes(RAW));
    assert_eq!(heap.to_bytes(RAW), bytes);
}

#[test]
fn a_key_without_columns_has_nothing_to_map() {
    let bytes = proving_key(0, 0).to_bytes(RAW);
    let device = HeapDevice::default();
    let host = SpillHost { device: &device, platform: FALLOCATE };
    let pk: Key = ProvingKey::read_with_policy(
        &mut ByteReader::new(&bytes),
        RAW,
        &Toy,
        &MyCircuit { columns: 0 },
        Some(&host),
        &ProverConfig::mapped_key(),
    )
    .unwrap_or_else(|e| panic!("{}", e.message()));
    assert!(pk.fixed_polys_mmap.is_none() && pk.fixed_values_mmap.is_none());
    assert!(pk.permutation_polys_mmap.is_none());
    assert_eq!(device.maps.get(), 0);
    assert_eq!(pk.to_bytes(RAW), bytes);
}

#[test]
fn views_do_not_depend_on_where_the_key_lives() {
    let bytes = serialised_key();
    let heap = read(&bytes, &ProverConfig::heap());
    let mapped = read(&bytes, &ProverConfig::mapped_key_and_cosets());
    let shared = mapped.clone();
    for pk in [&mapped, &shared] {
        assert!(pk.fixed_values_mmap.is_some());
        assert_eq!(values(&pk.fixed_polys_views()), values(&heap.fixed_polys_views()));
        assert_eq!(values(&pk.fixed_values_views()), values(&heap.fixed_values_views()));
        assert_eq!(values(&pk.permutation_polys_views()), values(&heap.permutation_polys_views()));
        assert_eq!(pk.to_bytes(RAW), bytes);
    }
    let first: Vec<Scalar> = (1000..1016).rev().map(scalar).collect();
    assert_eq!(values(&mapped.fixed_polys_views())[0], first);
    assert_eq!(heap.fixed_cosets[0].values, first.repeat(4));
    assert_eq!(heap.permutation.cosets.len(), 2);
    assert_eq!(heap.l0.values, [scalar(16)]);
    assert_eq!(heap.ev, "gates of MyCircuit without 2 selectors");
    assert_eq!(heap.get_vk().n(), 16);
    assert_eq!(heap.clone().fixed_cosets[0].values, heap.fixed_cosets[0].values);
}

#[test]
fn without_a_host_a_key_stays_on_the_heap() {
    let bytes = serialised_key();
    let host: Option<&SpillHost<'_, HeapDevice>> = None;
    let pk: Key = ProvingKey::read_with_policy(
        &mut ByteReader::new(&bytes),
        RAW,
        &Toy,
        &MyCircuit { columns: 2 },
        host,
        &ProverConfig::mapped_key(),
    )
    .unwrap_or_else(|e| panic!("{}", e.message()));
    assert!(pk.fixed_polys_mmap.is_none());
    assert_eq!(pk.fixed_cosets.len(), 3);
}

#[test]
fn spilling_twice_changes_nothing() {
    let device = HeapDevice::default();
    let target = SpillTarget { device: &device, platform: FALLOCATE, dir: None };
    let mut pk = read(&serialised_key(), &ProverConfig::heap());
    assert_eq!(pk.spill_all_to_mmap(&target), Ok(()));
    assert_eq!(device.maps.get(), 3);
    assert!(pk.fixed_cosets.is_empty() && pk.permutation.cosets.is_empty());
    assert_eq!(pk.spill_all_to_mmap(&target), Ok(()));
    assert_eq!(pk.spill_fixed_polys_to_mmap(&target), Ok(()));
    assert_eq!(pk.spill_fixed_values_to_mmap(&target), Ok(()));
    assert_eq!(pk.spill_permutation_polys_to_mmap(&target), Ok(()));
    assert_eq!(device.maps.get(), 3, "what is mapped is not moved again");
    assert_eq!(pk.to_bytes(RAW), serialised_key());
}

#[test]
fn a_batch_is_mapped_or_on_the_heap_and_never_both() {
    let once = |pk: &Key| {
        (pk.fixed_polys_mmap.is_none() || pk.fixed_polys.is_empty())
            && (pk.fixed_values_mmap.is_none() || pk.fixed_values.is_empty())
            && (pk.permutation_polys_mmap.is_none() || pk.permutation.polys.is_empty())
    };
    let device = HeapDevice::default();
    let target = SpillTarget { device: &device, platform: FALLOCATE, dir: None };
    let mut pk = read(&serialised_key(), &ProverConfig::heap());
    assert!(once(&pk) && pk.fixed_polys.len() == 3);
    assert_eq!(pk.spill_fixed_values_to_mmap(&target), Ok(()));
    assert!(once(&pk) && once(&pk.clone()) && pk.fixed_values.is_empty());
    assert_eq!(pk.clone().fixed_polys.len(), 3);
    assert_eq!(pk.spill_all_to_mmap(&target), Ok(()));
    assert!(once(&pk) && once(&pk.clone()));
    assert!(pk.fixed_polys.is_empty() && pk.permutation.polys.is_empty());
    let policy = ProverConfig { map_prover_key: true, ..ProverConfig::heap() };
    assert!(once(&read(&serialised_key(), &policy)));
}

#[test]
fn a_failed_spill_keeps_the_earlier_batches_and_the_cosets() {
    let device = HeapDevice { fail_after_maps: Some(1), ..HeapDevice::default() };
    let target = SpillTarget { device: &device, platform: FALLOCATE, dir: None };
    let mut pk = read(&serialised_key(), &ProverConfig::heap());
    let error = pk.spill_all_to_mmap(&target).unwrap_err();
    assert_eq!(error.message(), "cannot map");
    assert!(pk.fixed_polys_mmap.is_some() && pk.fixed_polys.is_empty());
    assert!(pk.fixed_values_mmap.is_none() && pk.fixed_values.is_empty());
    assert_eq!(pk.permutation.polys.len(), 2);
    assert_eq!(pk.fixed_cosets.len(), 3);
}

#[test]
fn a_failed_spill_rejects_the_load() {
    let device = HeapDevice { fail_after_maps: Some(2), ..HeapDevice::default() };
    let error = error_of(try_read(&serialised_key(), &ProverConfig::mapped_key(), &device));
    assert_eq!(error.message(), "cannot map");
    assert_eq!(error.kind(), ErrorKind::Other);

    let policy = ProverConfig { spill_dir: Some("/spill".to_string()), ..ProverConfig::mapped_key() };
    let error = error_of(try_read(&serialised_key(), &policy, &HeapDevice::default()));
    assert_eq!(error.message(), "create spill temp file in /spill: no /spill here");
    assert!(matches!(error, ReadError::Spill(SpillError::CreateTempFile { .. })));
}

#[test]
fn keys_are_read_back_in_every_format() {
    let pk = proving_key(3, 2);
    for format in FORMATS {
        let mut bytes = pk.to_bytes(format);
        assert_eq!(bytes.len(), pk.bytes_length(format));
        bytes.extend_from_slice(&[1, 2, 3]);
        let mut reader = ByteReader::new(&bytes);
        let host: Option<&SpillHost<'_, HeapDevice>> = None;
        let again: Key = ProvingKey::read_with_policy(
            &mut reader,
            format,
            &Toy,
            &MyCircuit { columns: 2 },
            host,
            &ProverConfig::heap(),
        )
        .unwrap_or_else(|e| panic!("{}", e.message()));
        assert_eq!(reader.remaining(), &[1, 2, 3]);
        assert_eq!(again.to_bytes(RAW), pk.to_bytes(RAW));
        assert_eq!(values(&again.fixed_values_views()), values(&pk.fixed_values_views()));
    }
    // 1 + 1 + 4 + 3 * 96 + 4 + 2 * 96 bytes of commitments, then two batches.
    assert_eq!(pk.bytes_length(RAW), 490 + (4 + 3 * (4 + 16 * 32)) + (4 + 2 * (4 + 16 * 32)));
    assert_eq!(pk.bytes_length(SerdeFormat::Processed), pk.bytes_length(RAW) - 5 * 48);
    assert_eq!(pk.vk.bytes_length(RAW), 490);
}

#[test]
fn the_process_policy_decides_how_a_key_is_read() {
    let bytes = serialised_key();
    let device = HeapDevice::default();
    let host = SpillHost { device: &device, platform: FALLOCATE };
    let mut cell = None;
    let vars = PolicyVars {
        spill_pk: Some("1".to_string()),
        spill_cosets: None,
        spill_floor_k: None,
        spill_dir: None,
        msm_chunk_log2: None,
    };
    let circuit = MyCircuit { columns: 2 };
    let pk: Key = ProvingKey::from_bytes(&bytes, RAW, &Toy, &circuit, Some(&host), &mut cell, &vars)
        .unwrap_or_else(|e| panic!("{}", e.message()));
    assert!(pk.fixed_polys_mmap.is_some());
    let unset = PolicyVars { spill_pk: None, ..vars };
    let mut reader = ByteReader::new(&bytes);
    let pk: Key = ProvingKey::read(&mut reader, RAW, &Toy, &circuit, Some(&host), &mut cell, &unset)
        .unwrap_or_else(|e| panic!("{}", e.message()));
    assert!(pk.fixed_polys_mmap.is_some(), "the first policy stays");
}

fn read_vk(bytes: &[u8], format: SerdeFormat) -> Result<VerifyingKey<Scalar, G1Point>, ReadError> {
    VerifyingKey::from_bytes(bytes, format, &Toy, &MyCircuit { columns: 2 })
}

#[test]
fn a_verifying_key_has_the_stated_layout() {
    let vk = verifying_key(1, 2);
    let bytes = vk.to_bytes(RAW);
    let mut expected = vec![3, 4, 1, 0, 0, 0];
    expected.extend_from_slice(&point(1).raw());
    expected.extend_from_slice(&[2, 0, 0, 0]);
    expected.extend_from_slice(&point(100).raw());
    expected.extend_from_slice(&point(101).raw());
    assert_eq!(bytes, expected);
    assert_eq!(bytes.len(), vk.bytes_length(RAW));
    for format in FORMATS {
        let again = read_vk(&vk.to_bytes(format), format).unwrap_or_else(|e| panic!("{}", e.message()));
        assert_eq!(again.fixed_commitments(), vk.fixed_commitments());
        assert_eq!(again.permutation().commitments(), vk.permutation().commitments());
        assert_eq!(again.transcript_repr(), vk.transcript_repr());
        assert_eq!(again.cs().num_selectors, 0);
        assert_eq!(again.cs_degree(), 5);
        assert_eq!(again.get_domain().k(), 4);
    }
}

#[test]
fn the_transcript_represents_the_hash_of_the_key() {
    let vk = verifying_key(3, 2);
    let mut preimage = vk.to_bytes(RAW);
    preimage.extend_from_slice(b"Domain { degree: 5, k: 4 }");
    preimage.extend_from_slice(b"MyCircuit without 2 selectors");
    let mut hasher = Params::new().hash_length(64).personal(b"Halo2-Verify-Key").to_state();
    hasher.update(&preimage);
    let expected = Fq::from_uniform_bytes(hasher.finalize().as_array());
    assert_eq!(vk.transcript_repr().raw().to_vec(), expected.to_raw_bytes());
    assert_ne!(vk.transcript_repr(), verifying_key(3, 1).transcript_repr());

    let mut transcript = vec![scalar(1)];
    assert!(vk.hash_into(&mut transcript).is_ok());
    assert_eq!(transcript, [scalar(1), vk.transcript_repr()]);
    assert_eq!(vk.clone().transcript_repr(), vk.transcript_repr());
}

/// A transcript that absorbs nothing.
struct Closed;

impl Transcript<Scalar> for Closed {
    fn common(&mut self, element: &Scalar) -> Result<(), IoFailure> {
        let text = format!("closed to {:?}", element.raw());
        Err(IoFailure { kind: ErrorKind::InvalidInput, os_code: None, text })
    }
}

#[test]
fn the_transcripts_own_error_comes_back() {
    let vk = verifying_key(3, 2);
    let error = vk.hash_into(&mut Closed).unwrap_err();
    assert_eq!(error.kind, ErrorKind::InvalidInput);
    assert_eq!(error.text, format!("closed to {:?}", vk.transcript_repr().raw()));
}

#[test]
fn a_pinned_key_identifies_its_parts() {
    let vk = verifying_key(3, 2);
    let pinned = vk.pinned();
    assert_eq!(pinned.domain, "Domain { degree: 5, k: 4 }");
    assert_eq!(pinned.cs, "MyCircuit without 2 selectors");
    assert_eq!(pinned.fixed_commitments.len(), 3);
    assert_eq!(pinned.permutation.commitments.len(), 2);
}

#[test]
fn damaged_keys_are_rejected() {
    let good = verifying_key(1, 2).to_bytes(RAW);
    for n in 0..good.len() {
        let error = error_of(read_vk(&good[..n], RAW));
        assert_eq!(error, ReadError::UnexpectedEof, "after {n} bytes");
        assert_eq!(error.kind(), ErrorKind::UnexpectedEof);
    }
    assert_eq!(ReadError::UnexpectedEof.message(), "failed to fill whole buffer");

    let mut bytes = good.clone();
    bytes[0] = 2;
    let error = error_of(read_vk(&bytes, RAW));
    assert_eq!(error, ReadError::UnexpectedVersion);
    assert_eq!(error.message(), "unexpected version byte");
    assert_eq!(error.kind(), ErrorKind::InvalidData);

    let mut bytes = good.clone();
    bytes[1] = 33;
    let error = error_of(read_vk(&bytes, RAW));
    assert_eq!(error, ReadError::CircuitTooLarge { k: 33, max: 32 });
    assert_eq!(error.message(), "circuit size value (k): 33 exceeds maxium: 32");
    let mut bytes = good.clone();
    bytes[1] = 32;
    assert!(read_vk(&bytes, RAW).is_ok());

    let mut bytes = good.clone();
    bytes[40] ^= 1;
    assert_eq!(error_of(read_vk(&bytes, RAW)), ReadError::InvalidPoint);

    let other = verifying_key(1, 3).to_bytes(RAW);
    let error = error_of(read_vk(&other, RAW));
    assert_eq!(error, ReadError::PermutationCount { got: 3, expected: 2 });
    assert_eq!(
        error.message(),
        "permutation column count: 3 differs from the circuit's: 2"
    );
}

#[test]
fn the_checked_formats_reject_unreduced_values() {
    let mut pk = proving_key(1, 2);
    pk.fixed_values[0].values[3] = Scalar::new(MODULUS_BYTES);
    let host: Option<&SpillHost<'_, HeapDevice>> = None;
    let read_as = |format| -> Result<Key, ReadError> {
        let bytes = pk.to_bytes(format);
        ProvingKey::read_with_policy(
            &mut ByteReader::new(&bytes),
            format,
            &Toy,
            &MyCircuit { columns: 2 },
            host,
            &ProverConfig::heap(),
        )
    };
    assert_eq!(error_of(read_as(SerdeFormat::RawBytes)), ReadError::InvalidElement);
    assert!(read_as(SerdeFormat::RawBytesUnchecked).is_ok());
}

#[test]
fn stages_are_reported_against_the_sample_before() {
    let mut hwm = 0;
    let sample = |rss_kb, hwm_kb| Some(MemorySample { rss_kb, hwm_kb });
    assert_eq!(
        read_stage("start", sample(10240, 20480), &mut hwm).unwrap(),
        format!("read-stage {:<28} rss={:>6} MiB  hwm={:>6} MiB  hwm_delta=+{:>5} MiB", "start", 10, 20, 20)
    );
    assert_eq!(hwm, 20480);
    assert_eq!(
        read_stage("spill (or none)", sample(9999999999, 30719), &mut hwm).unwrap(),
        format!(
            "read-stage {:<28} rss={:>6} MiB  hwm={:>6} MiB  hwm_delta=+{:>5} MiB",
            "spill (or none)", 9765624, 29, 9
        )
    );
    assert_eq!(read_stage("evaluator", None, &mut hwm), None);
    assert_eq!(hwm, 30719);
    let name = "a name that is longer than its column";
    assert_eq!(
        read_stage(name, sample(0, 1024), &mut hwm).unwrap(),
        format!("read-stage {:<28} rss={:>6} MiB  hwm={:>6} MiB  hwm_delta=+{:>5} MiB", name, 0, 1, 0)
    );
}

/// Hands out a prefix of some bytes, then fails.
struct Broken<'a> {
    reader: ByteReader<'a>,
    handed_out: usize,
    longest_read: usize,
}

impl ByteSource for Broken<'_> {
    fn read_exact(&mut self, n: usize) -> Result<Vec<u8>, ReadError> {
        self.longest_read = self.longest_read.max(n);
        match self.reader.read_exact(n) {
            Ok(bytes) => {
                self.handed_out += n;
                Ok(bytes)
            }
            Err(_) => Err(unplugged()),
        }
    }
}

fn unplugged() -> ReadError {
    ReadError::Io(IoFailure { kind: ErrorKind::Other, os_code: None, text: "unplugged".to_string() })
}

fn read_from<R: ByteSource>(source: &mut R) -> Result<Key, ReadError> {
    let host: Option<&SpillHost<'_, HeapDevice>> = None;
    let circuit = MyCircuit { columns: 2 };
    ProvingKey::read_with_policy(source, RAW, &Toy, &circuit, host, &ProverConfig::heap())
}

#[test]
fn a_source_that_fails_says_why() {
    let bytes = serialised_key();
    let key_length = bytes.len();
    let follow_up = [bytes.as_slice(), bytes.as_slice()].concat();
    let mut source =
        Broken { reader: ByteReader::new(&follow_up), handed_out: 0, longest_read: 0 };
    assert!(read_from(&mut source).is_ok());
    assert_eq!(source.handed_out, key_length, "what follows a key is not taken");
    assert_eq!(source.longest_read, 96, "no more than one commitment is taken at a time");
    assert!(read_from(&mut source).is_ok());
    assert_eq!(error_of(read_from(&mut source)), unplugged());
    for cut in [0, 1, 5, 489, 490, key_length - 1] {
        let mut source =
            Broken { reader: ByteReader::new(&bytes[..cut]), handed_out: 0, longest_read: 0 };
        let error = error_of(read_from(&mut source));
        assert_eq!(error, unplugged());
        assert_eq!(error.kind(), ErrorKind::Other);
        assert_eq!(error.message(), "unplugged");
        let error = error_of(read_from(&mut ByteReader::new(&bytes[..cut])));
        assert_eq!(error, ReadError::UnexpectedEof);
    }
    // A fault that the bytes show is reported as it is, whatever comes after them.
    let mut bytes = bytes;
    bytes[0] = 9;
    let mut source =
        Broken { reader: ByteReader::new(&bytes[..1]), handed_out: 0, longest_read: 0 };
    assert_eq!(error_of(read_from(&mut source)), error_of(read_from(&mut ByteReader::new(&bytes))));
}

/// Samples a process that grows by a MiB between two samples. Every fourth sample
/// fails.
#[derive(Default)]
struct Growing {
    samples: u64,
    lines: Vec<String>,
}

impl StageMonitor for Growing {
    fn sample(&mut self) -> Option<MemorySample> {
        self.samples += 1;
        if self.samples % 4 == 0 {
            None
        } else {
            let kb = self.samples * 1024;
            Some(MemorySample { rss_kb: kb, hwm_kb: kb })
        }
    }

    fn report(&mut self, line: String) {
        self.lines.push(line);
    }
}

fn stages_of(bytes: &[u8], device: &HeapDevice) -> (bool, Growing) {
    let host = SpillHost { device, platform: FALLOCATE };
    let policy = ProverConfig { map_prover_key: true, ..ProverConfig::heap() };
    let mut monitor = Growing::default();
    let read: Result<Key, ReadError> = ProvingKey::read_in_stages(
        &mut ByteReader::new(bytes),
        RAW,
        &Toy,
        &MyCircuit { columns: 2 },
        Some(&host),
        &policy,
        &mut monitor,
    );
    (read.is_ok(), monitor)
}

#[test]
fn a_load_reports_the_stages_that_it_completes() {
    let line = |name: &str, mib: u64, rise: u64| {
        format!("read-stage {name:<28} rss={mib:>6} MiB  hwm={mib:>6} MiB  hwm_delta=+{rise:>5} MiB")
    };
    let all = vec![
        line("start", 1, 1),
        line("vk read (incl. domain)", 2, 1),
        line("lagrange polys", 3, 1),
        line("fixed_polys (ifft)", 5, 2),
        line("fixed_cosets (or deferred)", 6, 1),
        line("permutation read", 7, 1),
        line("spill (or none)", 9, 2),
    ];
    let bytes = serialised_key();
    let (loaded, monitor) = stages_of(&bytes, &HeapDevice::default());
    assert!(loaded);
    assert_eq!((monitor.samples, monitor.lines), (9, all.clone()));

    let failing = HeapDevice { fail_after_maps: Some(1), ..HeapDevice::default() };
    let (loaded, monitor) = stages_of(&bytes, &failing);
    assert!(!loaded);
    assert_eq!((monitor.samples, monitor.lines), (8, all[..6].to_vec()));

    let (_, monitor) = stages_of(&bytes[..bytes.len() - 1], &HeapDevice::default());
    assert_eq!((monitor.samples, monitor.lines), (6, all[..5].to_vec()));

    let (_, monitor) = stages_of(&bytes[..491], &HeapDevice::default());
    assert_eq!((monitor.samples, monitor.lines), (3, all[..3].to_vec()));

    let (_, monitor) = stages_of(&bytes[..489], &HeapDevice::default());
    assert_eq!((monitor.samples, monitor.lines), (1, all[..1].to_vec()));
}
