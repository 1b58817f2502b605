//! Spilling polynomials to files, and building cosets in memory and in files.
use std::cell::RefCell;
use std::io::{Read, Seek, Write};

use ff::Field as _;
use midnight_curves::serde::SerdeObject;
use midnight_curves::Fq;
use midnight_proofs::config::ProverConfig;
use midnight_proofs::curve::Scalar;
use midnight_proofs::error::{ErrorKind, IoFailure, SpillError};
use midnight_proofs::plonk::cosets::{build_cosets, should_spill_cosets, will_spill, Cosets};
use midnight_proofs::plonk::device::{
    make_tempfile, reserve_spill_file, Mapping, Platform, Preallocation, SpillDevice, SpillHost,
    SpillTarget, ZERO_BLOCK,
};
use midnight_proofs::plonk::mmap_pk::{
    spill_bytes, spill_iter_to_disk, spill_vec_to_disk, spill_with_transform, MmappedPolys,
};
use midnight_proofs::poly::view::{polynomial_views, PolynomialView};
use midnight_proofs::poly::{Coeff, ExtendedLagrangeCoeff, LagrangeCoeff, Polynomial};
use midnight_proofs::store::{MappedStore, SpillStore};

const FALLOCATE: Platform = Platform::Fallocate { max_offset: i64::MAX };
const PREALLOCATE: Platform = Platform::Preallocate { max_offset: i64::MAX };

type Spilled<B> = MmappedPolys<Scalar, B, FileStore>;

fn scalar(n: u64) -> Scalar {
    Scalar::new(Fq::from(n).to_raw_bytes().try_into().unwrap())
}

fn io_failure(error: std::io::Error) -> IoFailure {
    let kind = match error.kind() {
        std::io::ErrorKind::NotFound => ErrorKind::NotFound,
        std::io::ErrorKind::PermissionDenied => ErrorKind::PermissionDenied,
        std::io::ErrorKind::InvalidInput => ErrorKind::InvalidInput,
        std::io::ErrorKind::StorageFull => ErrorKind::StorageFull,
        std::io::ErrorKind::Other => ErrorKind::Other,
        _ => ErrorKind::Uncategorized,
    };
    IoFailure { kind, os_code: error.raw_os_error(), text: error.to_string() }
}

fn os_failure(code: i32) -> IoFailure {
    io_failure(std::io::Error::from_raw_os_error(code))
}

fn failure(text: &str) -> IoFailure {
    IoFailure { kind: ErrorKind::Other, os_code: None, text: text.to_string() }
}

/// A store that goes through a file when it is sealed: what is read afterwards
/// is what the file holds.
struct FileStore {
    file: tempfile::NamedTempFile,
    elems: Vec<Scalar>,
    fail_seal: bool,
}

impl MappedStore<Scalar> for FileStore {
    fn elems(&self) -> &[Scalar] {
        &self.elems
    }
}

impl SpillStore<Scalar> for FileStore {
    fn slot_count(&self) -> usize {
        self.elems.len()
    }

    fn put(&mut self, index: usize, value: Scalar) {
        self.elems[index] = value;
    }

    fn seal(mut self) -> Result<Self, IoFailure> {
        if self.fail_seal {
            return Err(failure("cannot seal"));
        }
        let file = self.file.as_file_mut();
        file.rewind().map_err(io_failure)?;
        for elem in &self.elems {
            file.write_all(&elem.raw()).map_err(io_failure)?;
        }
        file.rewind().map_err(io_failure)?;
        for elem in self.elems.iter_mut() {
            let mut raw = [0u8; 32];
            file.read_exact(&mut raw).map_err(io_failure)?;
            *elem = Scalar::new(raw);
        }
        Ok(self)
    }
}

/// A device over real temporary files that records its steps and fails on
/// request.
#[derive(Default)]
struct TestDevice {
    steps: RefCell<Vec<String>>,
    fallocate_status: i32,
    refuse_contiguous: bool,
    refuse_all: bool,
    reserve_less: bool,
    fail_write_after: Option<usize>,
    fail_map: bool,
    fail_seal: bool,
    base: usize,
    extra_slots: usize,
}

impl TestDevice {
    fn step(&self, text: String) {
        self.steps.borrow_mut().push(text);
    }
}

impl SpillDevice<Scalar> for TestDevice {
    type File = tempfile::NamedTempFile;
    type Store = FileStore;

    fn tempfile(&self) -> Result<Self::File, IoFailure> {
        self.step("tempfile".to_string());
        tempfile::NamedTempFile::new().map_err(io_failure)
    }

    fn tempfile_in(&self, dir: &String) -> Result<Self::File, IoFailure> {
        self.step(format!("tempfile_in {dir}"));
        tempfile::NamedTempFile::new_in(dir).map_err(io_failure)
    }

    fn posix_fallocate(&self, file: Self::File, len: i64) -> Result<Self::File, IoFailure> {
        self.step(format!("posix_fallocate {len}"));
        if self.fallocate_status == 0 {
            Ok(file)
        } else {
            Err(os_failure(self.fallocate_status))
        }
    }

    fn preallocate(&self, file: Self::File, len: i64, contiguous: bool) -> Preallocation<Self::File> {
        self.step(format!("preallocate {len} {contiguous}"));
        if self.refuse_all || (contiguous && self.refuse_contiguous) {
            let text = format!("refused contiguous={contiguous}");
            Preallocation::Refused(file, failure(&text))
        } else if self.reserve_less {
            Preallocation::Reserved(file, len - 1)
        } else {
            Preallocation::Reserved(file, len)
        }
    }

    fn set_len(&self, file: Self::File, len: u64) -> Result<Self::File, IoFailure> {
        self.step(format!("set_len {len}"));
        file.as_file().set_len(len).map_err(io_failure)?;
        Ok(file)
    }

    fn write_zeros(&self, file: Self::File, len: usize) -> Result<Self::File, IoFailure> {
        self.step(format!("write_zeros {len}"));
        let written = self.steps.borrow().iter().filter(|s| s.starts_with("write_zeros")).count();
        match self.fail_write_after {
            Some(n) if written > n => {
                Err(failure("disk full"))
            }
            _ => Ok(file),
        }
    }

    fn flush(&self, file: Self::File) -> Result<Self::File, IoFailure> {
        self.step("flush".to_string());
        Ok(file)
    }

    fn map(&self, file: Self::File, len: usize) -> Result<Mapping<Self::Store>, IoFailure> {
        self.step(format!("map {len}"));
        if self.fail_map {
            return Err(failure("cannot map"));
        }
        let elems = vec![scalar(0); len / std::mem::size_of::<Scalar>() + self.extra_slots];
        let store = FileStore { file, elems, fail_seal: self.fail_seal };
        Ok(Mapping { store, base: self.base })
    }
}

fn target(device: &TestDevice) -> SpillTarget<'_, TestDevice> {
    SpillTarget { device, platform: FALLOCATE, dir: None }
}

fn poly(vals: &[u64]) -> Polynomial<Scalar, LagrangeCoeff> {
    Polynomial::new(vals.iter().map(|v| scalar(*v)).collect())
}

fn error_of<T>(outcome: Result<T, SpillError>) -> SpillError {
    match outcome {
        Ok(_) => panic!("the spill succeeded"),
        Err(error) => error,
    }
}

#[test]
fn spill_round_trips_values() {
    let device = TestDevice::default();
    let src = vec![poly(&[1, 2, 3, 4]), poly(&[5, 6, 7, 8])];
    let expected: Vec<Vec<Scalar>> = src.iter().map(|p| p.values.clone()).collect();

    let spilled = spill_iter_to_disk(&target(&device), src.into_iter(), 2, 4).unwrap_or_else(|e| panic!("{e:?}"));
    let got = spilled.views();

    assert_eq!(got.len(), 2);
    for (i, p) in got.iter().enumerate() {
        assert_eq!(p.len(), 4, "poly {i} length");
        assert_eq!(&p[..], &expected[i], "poly {i} values survived the round trip");
    }
    assert_eq!(spilled.len(), 2);
    assert!(!spilled.is_empty());
    assert_eq!(spilled.mmap_bytes(), 256);
    assert_eq!(spilled.summary(), "MmappedPolys { n_polys: 2, mmap_bytes: 256 }");
    assert_eq!(
        *device.steps.borrow(),
        ["tempfile", "posix_fallocate 256", "set_len 256", "map 256"]
    );
}

#[test]
fn spill_handles_the_empty_batch() {
    let device = TestDevice::default();
    let none: Vec<Polynomial<Scalar, LagrangeCoeff>> = Vec::new();
    let spilled: Spilled<LagrangeCoeff> =
        spill_iter_to_disk(&target(&device), none.into_iter(), 0, 4).unwrap_or_else(|e| panic!("{e:?}"));
    assert!(spilled.views().is_empty());
    assert!(spilled.is_empty());
    assert_eq!(*device.steps.borrow(), ["tempfile"], "a file, but nothing reserved or mapped");
    // Dropping an empty mapping must not fault either.
    drop(spilled);
}

#[test]
fn dropping_does_not_free_mmap_pages() {
    let device = TestDevice::default();
    for _ in 0..8 {
        let spilled = spill_iter_to_disk(&target(&device), vec![poly(&[9, 9, 9, 9])].into_iter(), 1, 4)
            .unwrap_or_else(|e| panic!("{e:?}"));
        assert_eq!(spilled.views()[0][0], scalar(9));
        drop(spilled);
    }
}

#[test]
fn values_stay_readable_after_the_source_is_gone() {
    let device = TestDevice::default();
    let spilled = {
        let src = vec![poly(&[11, 22, 33, 44])];
        spill_iter_to_disk(&target(&device), src.into_iter(), 1, 4).unwrap_or_else(|e| panic!("{e:?}"))
    };
    assert_eq!(
        &spilled.views()[0][..],
        vec![scalar(11), scalar(22), scalar(33), scalar(44)]
    );
}

#[test]
fn rejects_a_mismatched_polynomial_length() {
    let device = TestDevice::default();
    let error = error_of(spill_iter_to_disk(&target(&device), vec![poly(&[1, 2, 3])].into_iter(), 1, 4));
    assert_eq!(error.kind(), ErrorKind::InvalidInput);
    assert_eq!(error, SpillError::SizeMismatch { got: 3, expected: 4 });
    assert_eq!(
        error.message(),
        "spill_iter_to_disk: polynomial size mismatch (got 3, expected 4)"
    );
}

#[test]
fn rejects_a_wrong_declared_count_before_exposing_uninitialised_memory() {
    let device = TestDevice::default();
    let too_many = vec![poly(&[1]), poly(&[2])];
    let error = error_of(spill_iter_to_disk(&target(&device), too_many.into_iter(), 1, 1));
    assert_eq!(error.kind(), ErrorKind::InvalidInput);
    assert_eq!(error, SpillError::TooManyPolynomials);
    assert_eq!(error.message(), "spill iterator yielded more polynomials than promised");

    let too_few = vec![poly(&[1])];
    let error = error_of(spill_iter_to_disk(&target(&device), too_few.into_iter(), 2, 1));
    assert_eq!(error.kind(), ErrorKind::InvalidInput);
    assert_eq!(error, SpillError::TooFewPolynomials);
    assert_eq!(error.message(), "spill iterator yielded fewer polynomials than promised");
}

#[test]
fn a_surplus_over_a_promised_count_of_none_is_rejected() {
    let device = TestDevice::default();
    let error = error_of(spill_iter_to_disk(&target(&device), vec![poly(&[1])].into_iter(), 0, 1));
    assert_eq!(error.kind(), ErrorKind::InvalidInput);
    assert_eq!(error, SpillError::TooManyPolynomials);
    assert_eq!(*device.steps.borrow(), ["tempfile"]);
}

#[test]
fn bad_sizes_are_rejected_before_the_device_is_used() {
    let device = TestDevice::default();
    let error = error_of(spill_iter_to_disk(&target(&device), vec![poly(&[])].into_iter(), 1, 0));
    assert_eq!(error, SpillError::EmptyRows);
    assert_eq!(error.message(), "spill requires non-empty rows of non-zero-sized elements");

    let error = error_of(spill_iter_to_disk(&target(&device), vec![poly(&[1])].into_iter(), usize::MAX, 2));
    assert_eq!(error, SpillError::ElementCountOverflow);
    assert_eq!(error.message(), "spill element count overflows");

    let error = error_of(spill_iter_to_disk(&target(&device), vec![poly(&[1])].into_iter(), usize::MAX / 2, 1));
    assert_eq!(error, SpillError::ByteCountOverflow);
    assert_eq!(error.message(), "spill byte count overflows");
    assert!(device.steps.borrow().is_empty());
    assert_eq!(spill_bytes(0, 1, 1), Err(SpillError::EmptyRows));
    assert_eq!(spill_bytes(32, 3, 5), Ok(480));
}

#[test]
fn a_mapping_must_fit_and_be_aligned() {
    let device = TestDevice { extra_slots: 1, ..TestDevice::default() };
    let error = error_of(spill_vec_to_disk(&target(&device), vec![poly(&[1])], 1));
    assert_eq!(error, SpillError::MappingSize);
    assert_eq!(error.kind(), ErrorKind::InvalidData);
    assert_eq!(error.message(), "spill mapping has another size than the spill");

    struct Words;
    struct Word {
        elems: Vec<u64>,
    }
    impl MappedStore<u64> for Word {
        fn elems(&self) -> &[u64] {
            &self.elems
        }
    }
    impl SpillStore<u64> for Word {
        fn slot_count(&self) -> usize {
            self.elems.len()
        }
        fn put(&mut self, index: usize, value: u64) {
            self.elems[index] = value;
        }
        fn seal(self) -> Result<Self, IoFailure> {
            Ok(self)
        }
    }
    impl SpillDevice<u64> for Words {
        type File = ();
        type Store = Word;
        fn tempfile(&self) -> Result<(), IoFailure> {
            Ok(())
        }
        fn tempfile_in(&self, _dir: &String) -> Result<(), IoFailure> {
            Ok(())
        }
        fn posix_fallocate(&self, _file: (), _len: i64) -> Result<(), IoFailure> {
            Ok(())
        }
        fn preallocate(&self, file: (), len: i64, _contiguous: bool) -> Preallocation<()> {
            Preallocation::Reserved(file, len)
        }
        fn set_len(&self, _file: (), _len: u64) -> Result<(), IoFailure> {
            Ok(())
        }
        fn write_zeros(&self, _file: (), _len: usize) -> Result<(), IoFailure> {
            Ok(())
        }
        fn flush(&self, _file: ()) -> Result<(), IoFailure> {
            Ok(())
        }
        fn map(&self, _file: (), len: usize) -> Result<Mapping<Word>, IoFailure> {
            Ok(Mapping { store: Word { elems: vec![0; len / 8] }, base: 4100 })
        }
    }
    let polys: Vec<Polynomial<u64, Coeff>> = vec![Polynomial::new(vec![7])];
    let target = SpillTarget { device: &Words, platform: FALLOCATE, dir: None };
    let error = error_of(spill_vec_to_disk(&target, polys, 1));
    assert_eq!(error, SpillError::Misaligned);
    assert_eq!(error.kind(), ErrorKind::InvalidData);
    assert_eq!(error.message(), "spill mapping is misaligned for polynomial elements");
}

#[test]
fn failures_of_the_operating_system_are_reported() {
    let device = TestDevice { fail_map: true, ..TestDevice::default() };
    let error = error_of(spill_vec_to_disk(&target(&device), vec![poly(&[1])], 1));
    assert_eq!(error.message(), "cannot map");
    assert_eq!(error.kind(), ErrorKind::Other);

    let device = TestDevice { fail_seal: true, ..TestDevice::default() };
    let error = error_of(spill_vec_to_disk(&target(&device), vec![poly(&[1])], 1));
    assert_eq!(error.message(), "cannot seal");

    for (code, kind) in [
        (28, ErrorKind::StorageFull),
        (13, ErrorKind::PermissionDenied),
        (22, ErrorKind::InvalidInput),
        (5, ErrorKind::Uncategorized),
    ] {
        let device = TestDevice { fallocate_status: code, ..TestDevice::default() };
        let error = error_of(spill_vec_to_disk(&target(&device), vec![poly(&[1])], 1));
        let system = std::io::Error::from_raw_os_error(code);
        assert_eq!(error, SpillError::Io(os_failure(code)));
        assert_eq!(error.message(), system.to_string());
        assert_eq!(error.kind(), kind);
        assert_eq!(*device.steps.borrow(), ["tempfile", "posix_fallocate 32"]);
    }
}

#[test]
fn a_bad_spill_directory_is_named() {
    let device = TestDevice::default();
    let dir = "/no/such/directory".to_string();
    let target = SpillTarget { device: &device, platform: FALLOCATE, dir: Some(dir.clone()) };
    let error = error_of(spill_vec_to_disk(&target, vec![poly(&[1])], 1));
    let text = error.message();
    assert!(text.starts_with("create spill temp file in /no/such/directory: "), "{text}");
    assert!(text.contains("No such file"), "{text}");
    assert_eq!(error.kind(), ErrorKind::NotFound);
    assert_eq!(*device.steps.borrow(), ["tempfile_in /no/such/directory"]);
    let unnamed = SpillError::CreateTempFile {
        dir: None,
        cause: failure("no space"),
    };
    assert_eq!(unnamed.message(), "create spill temp file: no space");
}

#[test]
fn an_empty_spill_directory_is_none() {
    let device = TestDevice::default();
    let target =
        SpillTarget { device: &device, platform: FALLOCATE, dir: Some(String::new()) };
    assert!(make_tempfile(&target).is_ok());
    assert_eq!(*device.steps.borrow(), ["tempfile"]);
}

#[test]
fn a_contiguous_reservation_is_preferred_but_not_required() {
    let on = |device: &TestDevice, total: usize| {
        let target = SpillTarget { device, platform: PREALLOCATE, dir: None };
        let file = make_tempfile(&target).unwrap_or_else(|e| panic!("{e:?}"));
        reserve_spill_file(&target, file, total).map(|_| ())
    };
    let device = TestDevice::default();
    assert_eq!(on(&device, 100), Ok(()));
    assert_eq!(*device.steps.borrow(), ["tempfile", "preallocate 100 true", "set_len 100"]);

    let device = TestDevice { refuse_contiguous: true, ..TestDevice::default() };
    assert_eq!(on(&device, 100), Ok(()));
    assert_eq!(
        *device.steps.borrow(),
        ["tempfile", "preallocate 100 true", "preallocate 100 false", "set_len 100"]
    );

    let device = TestDevice { refuse_all: true, ..TestDevice::default() };
    let error = error_of(on(&device, 100));
    assert_eq!(error.message(), "refused contiguous=false", "the second attempt is the one reported");

    let device = TestDevice { reserve_less: true, ..TestDevice::default() };
    let error = error_of(on(&device, 100));
    assert_eq!(error, SpillError::PartialReservation);
    assert_eq!(error.message(), "filesystem did not reserve the complete spill");
    assert_eq!(error.kind(), ErrorKind::Other);
}

#[test]
fn zeros_cover_the_file_block_by_block() {
    let on = |device: &TestDevice, total: usize| {
        let target = SpillTarget { device, platform: Platform::ZeroFill, dir: None };
        let file = make_tempfile(&target).unwrap_or_else(|e| panic!("{e:?}"));
        reserve_spill_file(&target, file, total).map(|_| ())
    };
    let device = TestDevice::default();
    assert_eq!(on(&device, 2 * ZERO_BLOCK + 5), Ok(()));
    assert_eq!(
        *device.steps.borrow(),
        ["tempfile", "set_len 0", "write_zeros 1048576", "write_zeros 1048576", "write_zeros 5", "flush"]
    );
    let device = TestDevice { fail_write_after: Some(1), ..TestDevice::default() };
    assert_eq!(error_of(on(&device, 3 * ZERO_BLOCK)).message(), "disk full");
    assert_eq!(
        *device.steps.borrow(),
        ["tempfile", "set_len 0", "write_zeros 1048576", "write_zeros 1048576"]
    );
}

#[test]
fn a_reservation_must_fit_in_a_file_offset() {
    let device = TestDevice::default();
    for platform in [FALLOCATE, PREALLOCATE] {
        let target = SpillTarget { device: &device, platform, dir: None };
        let file = make_tempfile(&target).unwrap_or_else(|e| panic!("{e:?}"));
        let error = error_of(reserve_spill_file(&target, file, usize::MAX));
        assert_eq!(error, SpillError::TooLargeForOffset);
        assert_eq!(error.message(), "spill is too large for off_t");
        assert_eq!(error.kind(), ErrorKind::InvalidInput);
    }
    assert_eq!(*device.steps.borrow(), ["tempfile", "tempfile"]);
}

#[test]
fn a_host_with_small_offsets_takes_no_larger_spill() {
    let device = TestDevice::default();
    for platform in [
        Platform::Fallocate { max_offset: 96 },
        Platform::Preallocate { max_offset: 96 },
    ] {
        let target = SpillTarget { device: &device, platform, dir: None };
        let error = error_of(spill_vec_to_disk(&target, vec![poly(&[1, 2]), poly(&[3, 4])], 2));
        assert_eq!(error, SpillError::TooLargeForOffset);
        assert!(spill_vec_to_disk(&target, vec![poly(&[1, 2, 3])], 3).is_ok());
    }
    let zeros = SpillTarget { device: &device, platform: Platform::ZeroFill, dir: None };
    assert!(spill_vec_to_disk(&zeros, vec![poly(&[1, 2, 3, 4])], 4).is_ok());
}

fn coeff_polys() -> Vec<Polynomial<Scalar, Coeff>> {
    (0..3u64)
        .map(|i| Polynomial::new((0..8u64).map(|j| scalar(i * 8 + j)).collect()))
        .collect()
}

fn widen(p: PolynomialView<'_, Scalar, Coeff>) -> Polynomial<Scalar, ExtendedLagrangeCoeff> {
    Polynomial::new(p.to_vec())
}

#[test]
fn spilled_and_heap_cosets_agree() {
    let device = TestDevice::default();
    let polys = coeff_polys();

    let heap: Cosets<Scalar, FileStore> =
        Cosets::Heap(polynomial_views(&polys).into_iter().map(widen).collect());
    let spilled = Cosets::Spilled(
        spill_with_transform(&target(&device), &polys, &widen).unwrap_or_else(|e| panic!("{e:?}")),
    );

    let heap = heap.views();
    let spilled = spilled.views();
    assert_eq!(heap.len(), spilled.len());
    for (h, sp) in heap.iter().zip(&spilled) {
        assert_eq!(&h[..], &sp[..], "spilled cosets must equal heap cosets");
    }
}

#[test]
fn an_empty_transforming_spill_has_no_width() {
    let device = TestDevice::default();
    let none: Vec<Polynomial<Scalar, Coeff>> = Vec::new();
    let error = error_of(spill_with_transform(&target(&device), &none, &widen));
    assert_eq!(error, SpillError::EmptyBatch);
    assert_eq!(error.message(), "cannot infer the size of an empty spill");
    assert_eq!(error.kind(), ErrorKind::InvalidInput);
}

#[test]
fn every_output_of_a_transforming_spill_has_the_first_ones_width() {
    let device = TestDevice::default();
    let polys: Vec<Polynomial<Scalar, Coeff>> =
        vec![Polynomial::new(vec![scalar(1), scalar(2)]), Polynomial::new(vec![scalar(3)])];
    let error = error_of(spill_with_transform(&target(&device), &polys, &widen));
    assert_eq!(error, SpillError::SizeMismatch { got: 1, expected: 2 });
}

/// Doubles every value, so that an untransformed coset is noticed.
fn double(p: PolynomialView<'_, Scalar, Coeff>) -> Polynomial<Scalar, ExtendedLagrangeCoeff> {
    Polynomial::new(
        p.iter()
            .map(|v| {
                let v = Fq::from_raw_bytes_unchecked(&v.raw());
                Scalar::new(v.double().to_raw_bytes().try_into().unwrap())
            })
            .collect(),
    )
}

fn doubled() -> Vec<Vec<Scalar>> {
    (0..3u64).map(|i| (0..8u64).map(|j| scalar(2 * (i * 8 + j))).collect()).collect()
}

#[test]
fn build_cosets_follows_the_policy_and_the_host() {
    let device = TestDevice::default();
    let host = SpillHost { device: &device, platform: FALLOCATE };
    let polys = coeff_polys();
    let spilling = ProverConfig::mapped_key_and_cosets();
    for (host, policy, k, spilled) in [
        (Some(&host), &spilling, 18, true),
        (Some(&host), &spilling, 17, false),
        (Some(&host), &ProverConfig::heap(), 30, false),
        (None, &spilling, 30, false),
    ] {
        let built = build_cosets(host, policy, &polys, k, &double);
        assert!(built.spill_error.is_none());
        assert_eq!(matches!(built.cosets, Cosets::Spilled(_)), spilled);
        let views = built.cosets.views();
        assert_eq!(views.iter().map(|v| v.to_vec()).collect::<Vec<_>>(), doubled());
        if spilled {
            assert_eq!(
                built.cosets.summary(),
                "Cosets::Spilled { inner: MmappedPolys { n_polys: 3, mmap_bytes: 768 } }"
            );
        } else {
            assert_eq!(built.cosets.summary(), "Cosets::Heap { n_polys: 3 }");
        }
    }
    let none: Vec<Polynomial<Scalar, Coeff>> = Vec::new();
    let built = build_cosets(Some(&host), &spilling, &none, 20, &double);
    assert!(matches!(built.cosets, Cosets::Heap(_)) && built.spill_error.is_none());
}

#[test]
fn a_failed_coset_spill_falls_back_to_the_heap_and_says_so() {
    let device = TestDevice { fallocate_status: 28, ..TestDevice::default() };
    let host = SpillHost { device: &device, platform: FALLOCATE };
    let polys = coeff_polys();
    let built = build_cosets(Some(&host), &ProverConfig::mapped_key_and_cosets(), &polys, 20, &double);
    assert_eq!(built.spill_error, Some(SpillError::Io(os_failure(28))));
    assert!(matches!(built.cosets, Cosets::Heap(_)));
    let views = built.cosets.views();
    assert_eq!(views.iter().map(|v| v.to_vec()).collect::<Vec<_>>(), doubled());
}

#[test]
fn cosets_spill_into_the_directory_of_the_policy() {
    let device = TestDevice::default();
    let host = SpillHost { device: &device, platform: FALLOCATE };
    let policy = ProverConfig {
        spill_dir: Some("/no/such/directory".to_string()),
        ..ProverConfig::mapped_key_and_cosets()
    };
    let built = build_cosets(Some(&host), &policy, &coeff_polys(), 20, &double);
    assert!(built.spill_error.is_some());
    assert_eq!(*device.steps.borrow(), ["tempfile_in /no/such/directory"]);
}

#[test]
fn asking_for_a_spill_is_not_being_able_to() {
    let policy = ProverConfig::mapped_key_and_cosets();
    assert!(should_spill_cosets(&policy, 18) && !should_spill_cosets(&policy, 17));
    assert!(will_spill(&policy, 18, true));
    assert!(!will_spill(&policy, 18, false));
    assert!(!will_spill(&policy, 17, true));
}

#[test]
fn heap_memory_is_a_store_too() {
    let mut store = vec![scalar(0); 2];
    store.put(1, scalar(5));
    assert_eq!(store.slot_count(), 2);
    let sealed = store.seal().unwrap_or_else(|e| panic!("{e:?}"));
    assert_eq!(sealed.elems(), &[scalar(0), scalar(5)]);
}
