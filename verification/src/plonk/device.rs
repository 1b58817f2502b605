//! Temporary files for spills: where they are made and how their space is reserved.
use vstd::prelude::*;

use crate::config::ProverConfig;
use crate::error::{IoFailure, SpillError};
use crate::store::SpillStore;

verus! {

/// How a platform turns a file length into space that is really there.
#[derive(Clone, Copy, Debug, PartialEq, Eq, Structural)]
pub enum Platform {
    /// One call reserves the whole file (`posix_fallocate`).
    Fallocate {
        /// The largest file offset that the call can take.
        max_offset: i64,
    },
    /// A contiguous reservation is tried first, then any complete one
    /// (`F_PREALLOCATE`).
    Preallocate {
        /// The largest file offset that the call can take.
        max_offset: i64,
    },
    /// Writing every block is the only way to reserve it.
    ZeroFill,
}

/// What came of one attempt to reserve space on a [`Platform::Preallocate`] host.
pub enum Preallocation<T> {
    /// The attempt was turned down. The file can be tried again.
    Refused(T, IoFailure),
    /// This many bytes of the file were reserved.
    Reserved(T, i64),
}

/// A mapped file: its elements and the address they start at.
pub struct Mapping<M> {
    /// The elements.
    pub store: M,
    /// The address of the first element.
    pub base: usize,
}

/// The steps of a spill that the operating system performs.
///
/// A step takes the file and hands it back, so the steps on one file come one
/// after the other, and nothing comes between the last one and the mapping.
/// Nothing is promised of what a step returns: the code that calls them is right
/// for every outcome.
pub trait SpillDevice<F> {
    /// An open temporary file.
    type File;

    /// A mapping of such a file.
    type Store: SpillStore<F>;

    /// Makes an unnamed temporary file in the host's default directory.
    fn tempfile(&self) -> Result<Self::File, IoFailure>;

    /// Makes an unnamed temporary file in the given directory.
    fn tempfile_in(&self, dir: &String) -> Result<Self::File, IoFailure>;

    /// Reserves `len` bytes.
    fn posix_fallocate(&self, file: Self::File, len: i64) -> Result<Self::File, IoFailure>;

    /// Reserves `len` bytes, all or nothing, contiguously if asked to.
    fn preallocate(&self, file: Self::File, len: i64, contiguous: bool) -> Preallocation<
        Self::File,
    >;

    /// Sets the file's length.
    fn set_len(&self, file: Self::File, len: u64) -> Result<Self::File, IoFailure>;

    /// Appends `len` zero bytes.
    fn write_zeros(&self, file: Self::File, len: usize) -> Result<Self::File, IoFailure>;

    /// Writes out what is still buffered.
    fn flush(&self, file: Self::File) -> Result<Self::File, IoFailure>;

    /// Maps the first `len` bytes of the file, for writing.
    fn map(&self, file: Self::File, len: usize) -> Result<Mapping<Self::Store>, IoFailure>;
}

/// A host that can spill: the device, and the platform's way of reserving space.
pub struct SpillHost<'a, D> {
    /// The device that performs the steps.
    pub device: &'a D,
    /// How space is reserved.
    pub platform: Platform,
}

/// Where spills go: the device, the platform's way of reserving space, and the
/// directory that was asked for.
pub struct SpillTarget<'a, D> {
    /// The device that performs the steps.
    pub device: &'a D,
    /// How space is reserved.
    pub platform: Platform,
    /// The directory for temporary files, if one was asked for.
    pub dir: Option<String>,
}

/// Where spills go on `host` under `policy`: into the policy's directory.
pub open spec fn target_under<'a, D>(host: SpillHost<'a, D>, policy: ProverConfig) -> SpillTarget<
    'a,
    D,
> {
    SpillTarget { device: host.device, platform: host.platform, dir: policy.spill_dir }
}

impl<'a, D> SpillTarget<'a, D> {
    /// Where spills go on `host` under `policy`: into the policy's directory.
    pub fn under(host: &SpillHost<'a, D>, policy: &ProverConfig) -> (target: Self)
        ensures
            target == target_under(*host, *policy),
    {
        SpillTarget {
            device: host.device,
            platform: host.platform,
            dir: match &policy.spill_dir {
                Some(dir) => Some(dir.clone()),
                None => None,
            },
        }
    }
}

/// The size of the blocks that a [`Platform::ZeroFill`] reservation writes.
pub const ZERO_BLOCK: usize = 1048576;

/// The directory that a request names: an empty name is no request.
pub open spec fn requested_dir(dir: Option<String>) -> Option<String> {
    match dir {
        Some(name) => if name@.len() == 0 {
            None
        } else {
            Some(name)
        },
        None => None,
    }
}

/// An outcome of the operating system as an outcome of the spill.
pub open spec fn io_outcome<T>(outcome: Result<T, IoFailure>) -> Result<T, SpillError> {
    match outcome {
        Ok(value) => Ok(value),
        Err(cause) => Err(SpillError::Io(cause)),
    }
}

/// An attempt to make a temporary file as an outcome of the spill: a failure
/// names the directory.
pub open spec fn create_outcome<T>(
    dir: Option<String>,
    outcome: Result<T, IoFailure>,
) -> Result<T, SpillError> {
    match outcome {
        Ok(file) => Ok(file),
        Err(cause) => Err(SpillError::CreateTempFile { dir, cause }),
    }
}

/// Whether making the temporary file can end in `made`.
pub open spec fn makes_tempfile<F, D: SpillDevice<F>>(
    target: SpillTarget<'_, D>,
    made: Result<D::File, SpillError>,
) -> bool {
    match requested_dir(target.dir) {
        Some(dir) => exists|outcome: Result<D::File, IoFailure>|
            {
                &&& #[trigger] call_ensures(D::tempfile_in, (target.device, &dir), outcome)
                &&& made == create_outcome(Some(dir), outcome)
            },
        None => exists|outcome: Result<D::File, IoFailure>|
            {
                &&& #[trigger] call_ensures(D::tempfile, (target.device,), outcome)
                &&& made == create_outcome(None, outcome)
            },
    }
}

/// Makes the temporary file of a spill, in the requested directory or else in
/// the host's default one.
pub fn make_tempfile<F, D: SpillDevice<F>>(target: &SpillTarget<'_, D>) -> (made: Result<
    D::File,
    SpillError,
>)
    ensures
        makes_tempfile::<F, D>(*target, made),
{
    match &target.dir {
        Some(dir) if !dir.as_str().is_empty() => {
            let outcome = target.device.tempfile_in(dir);
            match outcome {
                Ok(file) => Ok(file),
                Err(cause) => Err(SpillError::CreateTempFile { dir: Some(dir.clone()), cause }),
            }
        },
        _ => {
            let outcome = target.device.tempfile();
            match outcome {
                Ok(file) => Ok(file),
                Err(cause) => Err(SpillError::CreateTempFile { dir: None, cause }),
            }
        },
    }
}

/// The sizes of the blocks that fill `total` bytes: full blocks, and then what
/// is left.
pub open spec fn block_sizes(total: nat) -> Seq<usize>
    decreases total,
{
    if total == 0 {
        seq![]
    } else if total < ZERO_BLOCK {
        seq![total as usize]
    } else {
        seq![ZERO_BLOCK] + block_sizes((total - ZERO_BLOCK) as nat)
    }
}

/// Writing the blocks one after the other writes exactly `total` bytes, and no
/// block is empty or larger than the largest one.
pub proof fn law_blocks_cover_the_file(total: nat)
    requires
        total <= usize::MAX,
    ensures
        block_sizes(total).fold_left(0int, |sum: int, size: usize| sum + size) == total,
        forall|i: int|
            0 <= i < block_sizes(total).len() ==> 0 < #[trigger] block_sizes(total)[i]
                <= ZERO_BLOCK,
    decreases total,
{
    let blocks = block_sizes(total);
    lemma_sizes_add_up(0, total);
    if total >= ZERO_BLOCK {
        let rest = block_sizes((total - ZERO_BLOCK) as nat);
        law_blocks_cover_the_file((total - ZERO_BLOCK) as nat);
        assert forall|i: int| 0 <= i < blocks.len() implies 0 < #[trigger] blocks[i]
            <= ZERO_BLOCK by {
            if i > 0 {
                assert(blocks[i] == rest[i - 1]);
            }
        }
    }
}

/// Adding the block sizes of `total` to a sum adds `total` to it.
proof fn lemma_sizes_add_up(sum: int, total: nat)
    requires
        total <= usize::MAX,
    ensures
        block_sizes(total).fold_left(sum, |sum: int, size: usize| sum + size) == sum + total,
    decreases total,
{
    let adds = |sum: int, size: usize| sum + size;
    let blocks = block_sizes(total);
    if total == 0 {
        assert(blocks.fold_left(sum, adds) == sum);
    } else if total < ZERO_BLOCK {
        reveal_with_fuel(Seq::fold_left, 2);
        assert(blocks.drop_last() =~= Seq::<usize>::empty());
        assert(blocks.fold_left(sum, adds) == sum + total);
    } else {
        let rest = block_sizes((total - ZERO_BLOCK) as nat);
        lemma_sizes_add_up(sum + ZERO_BLOCK, (total - ZERO_BLOCK) as nat);
        let first = seq![ZERO_BLOCK];
        blocks.lemma_fold_left_split(sum, adds, 1);
        assert(blocks.subrange(0, 1) =~= first);
        assert(blocks.subrange(1, blocks.len() as int) =~= rest);
        reveal_with_fuel(Seq::fold_left, 2);
        assert(first.drop_last() =~= Seq::<usize>::empty());
        assert(first.fold_left(sum, adds) == sum + ZERO_BLOCK);
    }
}

/// Whether writing the blocks one after the other, and then flushing, can end in
/// `outcome`: the first failure ends it.
pub open spec fn zero_fills<F, D: SpillDevice<F>>(
    device: &D,
    file: D::File,
    blocks: Seq<usize>,
    outcome: Result<D::File, SpillError>,
) -> bool
    decreases blocks.len(),
{
    if blocks.len() == 0 {
        exists|flushed: Result<D::File, IoFailure>|
            {
                &&& #[trigger] call_ensures(D::flush, (device, file), flushed)
                &&& outcome == io_outcome(flushed)
            }
    } else {
        exists|written: Result<D::File, IoFailure>|
            {
                &&& #[trigger] call_ensures(D::write_zeros, (device, file, blocks[0]), written)
                &&& match written {
                    Ok(next) => zero_fills::<F, D>(device, next, blocks.drop_first(), outcome),
                    Err(cause) => outcome == Err::<D::File, SpillError>(SpillError::Io(cause)),
                }
            }
    }
}

/// Whether setting the file's length can end in `outcome`.
pub open spec fn sets_len<F, D: SpillDevice<F>>(
    device: &D,
    file: D::File,
    len: u64,
    outcome: Result<D::File, SpillError>,
) -> bool {
    exists|set: Result<D::File, IoFailure>|
        {
            &&& #[trigger] call_ensures(D::set_len, (device, file, len), set)
            &&& outcome == io_outcome(set)
        }
}

/// Whether the attempts of a [`Platform::Preallocate`] host can end in
/// `reserved`: a refused contiguous reservation is tried again without that.
pub open spec fn preallocates<F, D: SpillDevice<F>>(
    device: &D,
    file: D::File,
    len: i64,
    reserved: Preallocation<D::File>,
) -> bool {
    exists|first: Preallocation<D::File>|
        {
            &&& #[trigger] call_ensures(D::preallocate, (device, file, len, true), first)
            &&& match first {
                Preallocation::Reserved(_, _) => reserved == first,
                Preallocation::Refused(again, _) => call_ensures(
                    D::preallocate,
                    (device, again, len, false),
                    reserved,
                ),
            }
        }
}

/// Whether reserving `total` bytes of `file` can end in `outcome`: each step is
/// made on the file that the step before it handed back, and no other step is
/// made.
pub open spec fn reserves<F, D: SpillDevice<F>>(
    target: SpillTarget<'_, D>,
    file: D::File,
    total: usize,
    outcome: Result<D::File, SpillError>,
) -> bool {
    match target.platform {
        Platform::Fallocate { max_offset } => if total > max_offset {
            outcome == Err::<D::File, SpillError>(SpillError::TooLargeForOffset)
        } else {
            exists|allocated: Result<D::File, IoFailure>|
                {
                    &&& #[trigger] call_ensures(
                        D::posix_fallocate,
                        (target.device, file, total as i64),
                        allocated,
                    )
                    &&& match allocated {
                        Ok(next) => sets_len::<F, D>(target.device, next, total as u64, outcome),
                        Err(cause) => outcome == Err::<D::File, SpillError>(SpillError::Io(cause)),
                    }
                }
        },
        Platform::Preallocate { max_offset } => if total > max_offset {
            outcome == Err::<D::File, SpillError>(SpillError::TooLargeForOffset)
        } else {
            exists|reserved: Preallocation<D::File>|
                {
                    &&& #[trigger] preallocates::<F, D>(
                        target.device,
                        file,
                        total as i64,
                        reserved,
                    )
                    &&& match reserved {
                        Preallocation::Refused(_, cause) => outcome == Err::<D::File, SpillError>(
                            SpillError::Io(cause),
                        ),
                        Preallocation::Reserved(next, bytes) => if bytes < total {
                            outcome == Err::<D::File, SpillError>(SpillError::PartialReservation)
                        } else {
                            sets_len::<F, D>(target.device, next, total as u64, outcome)
                        },
                    }
                }
        },
        Platform::ZeroFill => exists|cleared: Result<D::File, IoFailure>|
            {
                &&& #[trigger] call_ensures(D::set_len, (target.device, file, 0u64), cleared)
                &&& match cleared {
                    Ok(next) => zero_fills::<F, D>(
                        target.device,
                        next,
                        block_sizes(total as nat),
                        outcome,
                    ),
                    Err(cause) => outcome == Err::<D::File, SpillError>(SpillError::Io(cause)),
                }
            },
    }
}

/// Sets a file's length.
fn set_file_len<F, D: SpillDevice<F>>(device: &D, file: D::File, len: u64) -> (outcome: Result<
    D::File,
    SpillError,
>)
    ensures
        sets_len::<F, D>(device, file, len, outcome),
{
    let set = device.set_len(file, len);
    match set {
        Ok(file) => Ok(file),
        Err(cause) => Err(SpillError::Io(cause)),
    }
}

/// Writes `total` zero bytes block by block and flushes them.
fn fill_with_zeros<F, D: SpillDevice<F>>(
    device: &D,
    file: D::File,
    total: usize,
) -> (outcome: Result<D::File, SpillError>)
    ensures
        zero_fills::<F, D>(device, file, block_sizes(total as nat), outcome),
{
    let ghost start = file;
    let mut current = file;
    let mut remaining: usize = total;
    while remaining != 0
        invariant
            start == file,
            forall|end: Result<D::File, SpillError>| #[trigger]
                zero_fills::<F, D>(device, current, block_sizes(remaining as nat), end)
                    ==> zero_fills::<F, D>(device, start, block_sizes(total as nat), end),
        decreases remaining,
    {
        let n: usize = if remaining < ZERO_BLOCK {
            remaining
        } else {
            ZERO_BLOCK
        };
        let ghost before = current;
        let written = device.write_zeros(current, n);
        let ghost blocks = block_sizes(remaining as nat);
        let ghost rest = block_sizes((remaining - n) as nat);
        assert(blocks[0] == n && blocks.drop_first() =~= rest);
        match written {
            Ok(next) => {
                assert(forall|end: Result<D::File, SpillError>| #[trigger]
                    zero_fills::<F, D>(device, next, rest, end) ==> zero_fills::<F, D>(
                        device,
                        before,
                        blocks,
                        end,
                    ));
                current = next;
            },
            Err(cause) => {
                let outcome = Err(SpillError::Io(cause));
                assert(zero_fills::<F, D>(device, before, blocks, outcome));
                return outcome;
            },
        }
        remaining = remaining - n;
    }
    let ghost last = current;
    let flushed = device.flush(current);
    let outcome = match flushed {
        Ok(file) => Ok(file),
        Err(cause) => Err(SpillError::Io(cause)),
    };
    assert(zero_fills::<F, D>(device, last, block_sizes(0), outcome));
    outcome
}

/// Makes sure that the file has real space behind it before a mapping of it can
/// be written: a file that is merely long may have none, and a write to such a
/// mapping on a full volume ends the process instead of reporting an error.
///
/// The file is taken, and handed back when its space is there.
pub fn reserve_spill_file<F, D: SpillDevice<F>>(
    target: &SpillTarget<'_, D>,
    file: D::File,
    total_bytes: usize,
) -> (outcome: Result<D::File, SpillError>)
    ensures
        reserves::<F, D>(*target, file, total_bytes, outcome),
{
    let device = target.device;
    match target.platform {
        Platform::Fallocate { max_offset } => {
            if max_offset < 0 || total_bytes as u64 > max_offset as u64 {
                return Err(SpillError::TooLargeForOffset);
            }
            let allocated = device.posix_fallocate(file, total_bytes as i64);
            match allocated {
                Ok(file) => set_file_len(device, file, total_bytes as u64),
                Err(cause) => Err(SpillError::Io(cause)),
            }
        },
        Platform::Preallocate { max_offset } => {
            if max_offset < 0 || total_bytes as u64 > max_offset as u64 {
                return Err(SpillError::TooLargeForOffset);
            }
            let len: i64 = total_bytes as i64;
            let ghost start = file;
            let first = device.preallocate(file, len, true);
            let reserved = match first {
                Preallocation::Reserved(file, bytes) => Preallocation::Reserved(file, bytes),
                Preallocation::Refused(file, _) => device.preallocate(file, len, false),
            };
            assert(preallocates::<F, D>(device, start, len, reserved));
            match reserved {
                Preallocation::Refused(_, cause) => Err(SpillError::Io(cause)),
                Preallocation::Reserved(file, bytes) => {
                    if bytes < len {
                        Err(SpillError::PartialReservation)
                    } else {
                        set_file_len(device, file, total_bytes as u64)
                    }
                },
            }
        },
        Platform::ZeroFill => {
            let cleared = device.set_len(file, 0);
            match cleared {
                Ok(file) => fill_with_zeros(device, file, total_bytes),
                Err(cause) => Err(SpillError::Io(cause)),
            }
        },
    }
}

/// Whether opening a spill of `total` bytes can end in `opened`: a file is made
/// in any case, and it is reserved and mapped unless there is nothing to hold.
pub open spec fn opens<F, D: SpillDevice<F>>(
    target: SpillTarget<'_, D>,
    total: usize,
    opened: Result<Option<Mapping<D::Store>>, SpillError>,
) -> bool {
    exists|made: Result<D::File, SpillError>|
        {
            &&& #[trigger] makes_tempfile::<F, D>(target, made)
            &&& match made {
                Err(e) => opened == Err::<Option<Mapping<D::Store>>, SpillError>(e),
                Ok(file) => if total == 0 {
                    opened == Ok::<Option<Mapping<D::Store>>, SpillError>(None)
                } else {
                    maps::<F, D>(target, file, total, opened)
                },
            }
        }
}

/// Whether reserving and mapping `total` bytes of `file` can end in `opened`: the
/// file that is mapped is the one that the reservation handed back.
pub open spec fn maps<F, D: SpillDevice<F>>(
    target: SpillTarget<'_, D>,
    file: D::File,
    total: usize,
    opened: Result<Option<Mapping<D::Store>>, SpillError>,
) -> bool {
    exists|reserved: Result<D::File, SpillError>|
        {
            &&& #[trigger] reserves::<F, D>(target, file, total, reserved)
            &&& match reserved {
                Err(e) => opened == Err::<Option<Mapping<D::Store>>, SpillError>(e),
                Ok(ready) => exists|mapped: Result<Mapping<D::Store>, IoFailure>|
                    {
                        &&& #[trigger] call_ensures(D::map, (target.device, ready, total), mapped)
                        &&& match mapped {
                            Ok(mapping) => opened == Ok::<Option<Mapping<D::Store>>, SpillError>(
                                Some(mapping),
                            ),
                            Err(cause) => opened == Err::<
                                Option<Mapping<D::Store>>,
                                SpillError,
                            >(SpillError::Io(cause)),
                        }
                    },
            }
        }
}

/// Makes, reserves and maps the file of a spill of `total_bytes`. A spill of no
/// bytes has a file but no mapping.
pub fn open_spill<F, D: SpillDevice<F>>(
    target: &SpillTarget<'_, D>,
    total_bytes: usize,
) -> (opened: Result<Option<Mapping<D::Store>>, SpillError>)
    ensures
        opens::<F, D>(*target, total_bytes, opened),
{
    let made = make_tempfile(target);
    let file = match made {
        Ok(file) => file,
        Err(e) => return Err(e),
    };
    if total_bytes == 0 {
        return Ok(None);
    }
    let ghost the_file = file;
    let reserved = reserve_spill_file(target, file, total_bytes);
    let ready = match reserved {
        Ok(ready) => ready,
        Err(e) => return Err(e),
    };
    let mapped = target.device.map(ready, total_bytes);
    let opened = match mapped {
        Ok(mapping) => Ok(Some(mapping)),
        Err(cause) => Err(SpillError::Io(cause)),
    };
    assert(maps::<F, D>(*target, the_file, total_bytes, opened));
    opened
}

/// Whether `files` are what writing the blocks one after the other can go
/// through, from the first file to the last.
pub open spec fn blocks_written<F, D: SpillDevice<F>>(
    device: &D,
    blocks: Seq<usize>,
    files: Seq<D::File>,
) -> bool {
    &&& files.len() == blocks.len() + 1
    &&& forall|i: int|
        0 <= i < blocks.len() ==> call_ensures(
            D::write_zeros,
            (device, files[i], #[trigger] blocks[i]),
            Ok::<D::File, IoFailure>(files[i + 1]),
        )
}

/// Whether the platform's own steps, all of them successful and each on the file
/// that the one before it handed back, lead from `file` to `ready` and reserve
/// all of `total` bytes.
pub open spec fn space_is_there<F, D: SpillDevice<F>>(
    target: SpillTarget<'_, D>,
    file: D::File,
    total: usize,
    ready: D::File,
) -> bool {
    match target.platform {
        Platform::Fallocate { max_offset } => {
            &&& total <= max_offset
            &&& exists|next: D::File|
                {
                    &&& #[trigger] call_ensures(
                        D::posix_fallocate,
                        (target.device, file, total as i64),
                        Ok::<D::File, IoFailure>(next),
                    )
                    &&& sets_len::<F, D>(
                        target.device,
                        next,
                        total as u64,
                        Ok::<D::File, SpillError>(ready),
                    )
                }
        },
        Platform::Preallocate { max_offset } => {
            &&& total <= max_offset
            &&& exists|next: D::File, bytes: i64|
                {
                    &&& #[trigger] preallocates::<F, D>(
                        target.device,
                        file,
                        total as i64,
                        Preallocation::Reserved(next, bytes),
                    )
                    &&& total <= bytes
                    &&& sets_len::<F, D>(
                        target.device,
                        next,
                        total as u64,
                        Ok::<D::File, SpillError>(ready),
                    )
                }
        },
        Platform::ZeroFill => exists|files: Seq<D::File>|
            {
                &&& #[trigger] blocks_written::<F, D>(
                    target.device,
                    block_sizes(total as nat),
                    files,
                )
                &&& call_ensures(
                    D::set_len,
                    (target.device, file, 0u64),
                    Ok::<D::File, IoFailure>(files.first()),
                )
                &&& call_ensures(
                    D::flush,
                    (target.device, files.last()),
                    Ok::<D::File, IoFailure>(ready),
                )
            },
    }
}

/// When all the zeros were written, every block was, one after the other.
proof fn lemma_every_block_is_written<F, D: SpillDevice<F>>(
    device: &D,
    file: D::File,
    blocks: Seq<usize>,
    ready: D::File,
) -> (files: Seq<D::File>)
    requires
        zero_fills::<F, D>(device, file, blocks, Ok::<D::File, SpillError>(ready)),
    ensures
        blocks_written::<F, D>(device, blocks, files),
        files.first() == file,
        call_ensures(D::flush, (device, files.last()), Ok::<D::File, IoFailure>(ready)),
    decreases blocks.len(),
{
    if blocks.len() == 0 {
        seq![file]
    } else {
        let outcome = Ok::<D::File, SpillError>(ready);
        let written = choose|written: Result<D::File, IoFailure>|
            {
                &&& #[trigger] call_ensures(D::write_zeros, (device, file, blocks[0]), written)
                &&& match written {
                    Ok(next) => zero_fills::<F, D>(device, next, blocks.drop_first(), outcome),
                    Err(cause) => false,
                }
            };
        let next = written->Ok_0;
        let others = blocks.drop_first();
        let rest = lemma_every_block_is_written::<F, D>(device, next, others, ready);
        let files = seq![file] + rest;
        assert forall|i: int| 0 <= i < blocks.len() implies call_ensures(
            D::write_zeros,
            (device, files[i], #[trigger] blocks[i]),
            Ok::<D::File, IoFailure>(files[i + 1]),
        ) by {
            if i > 0 {
                assert(others[i - 1] == blocks[i]);
                assert(files[i] == rest[i - 1] && files[i + 1] == rest[i]);
            } else {
                assert(files[1] == rest[0]);
            }
        }
        assert(files.last() == rest.last());
        files
    }
}

/// Nothing is mapped before its space is there, and nothing undoes it: the file
/// that is mapped is the one that the last step of the reservation handed back,
/// and all the steps before that one were made on it and succeeded. So a full
/// volume shows as an error, and not when the mapping is written.
pub proof fn law_a_mapping_has_its_space_reserved<F, D: SpillDevice<F>>(
    target: SpillTarget<'_, D>,
    total: usize,
    mapping: Mapping<D::Store>,
)
    requires
        opens::<F, D>(target, total, Ok::<_, SpillError>(Some(mapping))),
    ensures
        exists|file: D::File, ready: D::File|
            {
                &&& makes_tempfile::<F, D>(target, Ok::<_, SpillError>(file))
                &&& #[trigger] space_is_there::<F, D>(target, file, total, ready)
                &&& call_ensures(
                    D::map,
                    (target.device, ready, total),
                    Ok::<_, IoFailure>(mapping),
                )
            },
{
    let opened = Ok::<Option<Mapping<D::Store>>, SpillError>(Some(mapping));
    let made = choose|made: Result<D::File, SpillError>|
        {
            &&& #[trigger] makes_tempfile::<F, D>(target, made)
            &&& match made {
                Err(e) => false,
                Ok(file) => total != 0 && maps::<F, D>(target, file, total, opened),
            }
        };
    let file = made->Ok_0;
    let reserved = choose|reserved: Result<D::File, SpillError>|
        {
            &&& #[trigger] reserves::<F, D>(target, file, total, reserved)
            &&& reserved matches Ok(ready) && exists|mapped: Result<Mapping<D::Store>, IoFailure>|
                {
                    &&& #[trigger] call_ensures(D::map, (target.device, ready, total), mapped)
                    &&& mapped == Ok::<_, IoFailure>(mapping)
                }
        };
    let ready = reserved->Ok_0;
    match target.platform {
        Platform::Fallocate { .. } => {
            let allocated = choose|allocated: Result<D::File, IoFailure>|
                {
                    &&& #[trigger] call_ensures(
                        D::posix_fallocate,
                        (target.device, file, total as i64),
                        allocated,
                    )
                    &&& match allocated {
                        Ok(next) => sets_len::<F, D>(target.device, next, total as u64, reserved),
                        Err(_) => false,
                    }
                };
            assert(allocated == Ok::<D::File, IoFailure>(allocated->Ok_0));
        },
        Platform::Preallocate { .. } => {
            let attempt = choose|attempt: Preallocation<D::File>|
                {
                    &&& #[trigger] preallocates::<F, D>(
                        target.device,
                        file,
                        total as i64,
                        attempt,
                    )
                    &&& match attempt {
                        Preallocation::Refused(_, _) => false,
                        Preallocation::Reserved(next, bytes) => bytes >= total && sets_len::<F, D>(
                            target.device,
                            next,
                            total as u64,
                            reserved,
                        ),
                    }
                };
            assert(attempt == Preallocation::Reserved(
                attempt->Reserved_0,
                attempt->Reserved_1,
            ));
        },
        Platform::ZeroFill => {
            let cleared = choose|cleared: Result<D::File, IoFailure>|
                {
                    &&& #[trigger] call_ensures(D::set_len, (target.device, file, 0u64), cleared)
                    &&& match cleared {
                        Ok(next) => zero_fills::<F, D>(
                            target.device,
                            next,
                            block_sizes(total as nat),
                            reserved,
                        ),
                        Err(cause) => false,
                    }
                };
            let files = lemma_every_block_is_written::<F, D>(
                target.device,
                cleared->Ok_0,
                block_sizes(total as nat),
                ready,
            );
            assert(cleared == Ok::<D::File, IoFailure>(files.first()));
        },
    }
    assert(space_is_there::<F, D>(target, file, total, ready));
}

/// Writing zeros succeeds when every step of it does.
proof fn lemma_zeros_are_written<F, D: SpillDevice<F>>(
    device: &D,
    file: D::File,
    blocks: Seq<usize>,
    outcome: Result<D::File, SpillError>,
)
    requires
        zero_fills::<F, D>(device, file, blocks, outcome),
        forall|f: D::File, len: usize, written: Result<D::File, IoFailure>| #[trigger]
            call_ensures(D::write_zeros, (device, f, len), written) ==> written is Ok,
        forall|f: D::File, flushed: Result<D::File, IoFailure>| #[trigger]
            call_ensures(D::flush, (device, f), flushed) ==> flushed is Ok,
    ensures
        outcome is Ok,
    decreases blocks.len(),
{
    if blocks.len() > 0 {
        let written = choose|written: Result<D::File, IoFailure>|
            {
                &&& #[trigger] call_ensures(D::write_zeros, (device, file, blocks[0]), written)
                &&& match written {
                    Ok(next) => zero_fills::<F, D>(device, next, blocks.drop_first(), outcome),
                    Err(cause) => outcome == Err::<D::File, SpillError>(SpillError::Io(cause)),
                }
            };
        lemma_zeros_are_written::<F, D>(device, written->Ok_0, blocks.drop_first(), outcome);
    }
}

/// Space is reserved whenever the platform's steps succeed, whatever the size is, as
/// long as it can be an offset.
pub proof fn law_a_reservation_succeeds_when_its_steps_do<F, D: SpillDevice<F>>(
    target: SpillTarget<'_, D>,
    file: D::File,
    total: usize,
    outcome: Result<D::File, SpillError>,
)
    requires
        call_ensures(reserve_spill_file::<F, D>, (&target, file, total), outcome),
        target.platform matches Platform::Fallocate { max_offset } ==> total <= max_offset,
        target.platform matches Platform::Preallocate { max_offset } ==> total <= max_offset,
        forall|f: D::File, len: i64, outcome: Result<D::File, IoFailure>| #[trigger]
            call_ensures(D::posix_fallocate, (target.device, f, len), outcome) ==> outcome is Ok,
        forall|f: D::File, len: i64, contiguous: bool, outcome: Preallocation<D::File>| #[trigger]
            call_ensures(D::preallocate, (target.device, f, len, contiguous), outcome)
                ==> outcome is Reserved && outcome->Reserved_1 >= len,
        forall|f: D::File, len: u64, outcome: Result<D::File, IoFailure>| #[trigger]
            call_ensures(D::set_len, (target.device, f, len), outcome) ==> outcome is Ok,
        forall|f: D::File, len: usize, outcome: Result<D::File, IoFailure>| #[trigger]
            call_ensures(D::write_zeros, (target.device, f, len), outcome) ==> outcome is Ok,
        forall|f: D::File, outcome: Result<D::File, IoFailure>| #[trigger]
            call_ensures(D::flush, (target.device, f), outcome) ==> outcome is Ok,
    ensures
        outcome is Ok,
{
    lemma_steps_reserve::<F, D>(target, file, total, outcome);
}

/// The steps of a reservation, all of them successful, reserve.
proof fn lemma_steps_reserve<F, D: SpillDevice<F>>(
    target: SpillTarget<'_, D>,
    file: D::File,
    total: usize,
    outcome: Result<D::File, SpillError>,
)
    requires
        reserves::<F, D>(target, file, total, outcome),
        target.platform matches Platform::Fallocate { max_offset } ==> total <= max_offset,
        target.platform matches Platform::Preallocate { max_offset } ==> total <= max_offset,
        forall|f: D::File, len: i64, outcome: Result<D::File, IoFailure>| #[trigger]
            call_ensures(D::posix_fallocate, (target.device, f, len), outcome) ==> outcome is Ok,
        forall|f: D::File, len: i64, contiguous: bool, outcome: Preallocation<D::File>| #[trigger]
            call_ensures(D::preallocate, (target.device, f, len, contiguous), outcome)
                ==> outcome is Reserved && outcome->Reserved_1 >= len,
        forall|f: D::File, len: u64, outcome: Result<D::File, IoFailure>| #[trigger]
            call_ensures(D::set_len, (target.device, f, len), outcome) ==> outcome is Ok,
        forall|f: D::File, len: usize, outcome: Result<D::File, IoFailure>| #[trigger]
            call_ensures(D::write_zeros, (target.device, f, len), outcome) ==> outcome is Ok,
        forall|f: D::File, outcome: Result<D::File, IoFailure>| #[trigger]
            call_ensures(D::flush, (target.device, f), outcome) ==> outcome is Ok,
    ensures
        outcome is Ok,
{
    match target.platform {
        Platform::Fallocate { .. } => {},
        Platform::Preallocate { .. } => {
            let reserved = choose|reserved: Preallocation<D::File>|
                {
                    &&& #[trigger] preallocates::<F, D>(
                        target.device,
                        file,
                        total as i64,
                        reserved,
                    )
                    &&& match reserved {
                        Preallocation::Refused(_, cause) => outcome == Err::<D::File, SpillError>(
                            SpillError::Io(cause),
                        ),
                        Preallocation::Reserved(next, bytes) => if bytes < total {
                            outcome == Err::<D::File, SpillError>(SpillError::PartialReservation)
                        } else {
                            sets_len::<F, D>(target.device, next, total as u64, outcome)
                        },
                    }
                };
            assert(reserved is Reserved);
        },
        Platform::ZeroFill => {
            let cleared = choose|cleared: Result<D::File, IoFailure>|
                {
                    &&& #[trigger] call_ensures(D::set_len, (target.device, file, 0u64), cleared)
                    &&& match cleared {
                        Ok(next) => zero_fills::<F, D>(
                            target.device,
                            next,
                            block_sizes(total as nat),
                            outcome,
                        ),
                        Err(cause) => outcome == Err::<D::File, SpillError>(SpillError::Io(cause)),
                    }
                };
            lemma_zeros_are_written::<F, D>(
                target.device,
                cleared->Ok_0,
                block_sizes(total as nat),
                outcome,
            );
        },
    }
}

/// A size that cannot be an offset is turned down as such before any step is made, and
/// no other size is.
pub proof fn law_only_what_is_no_offset_is_too_large<F, D: SpillDevice<F>>(
    target: SpillTarget<'_, D>,
    file: D::File,
    total: usize,
    max_offset: i64,
    outcome: Result<D::File, SpillError>,
)
    requires
        call_ensures(reserve_spill_file::<F, D>, (&target, file, total), outcome),
    ensures
        target.platform == (Platform::Fallocate { max_offset }) || target.platform
            == (Platform::Preallocate { max_offset }) ==> (outcome == Err::<D::File, SpillError>(
            SpillError::TooLargeForOffset,
        ) <==> total > max_offset),
        target.platform is ZeroFill ==> outcome != Err::<D::File, SpillError>(
            SpillError::TooLargeForOffset,
        ),
{
    if target.platform is ZeroFill {
        let cleared = choose|cleared: Result<D::File, IoFailure>|
            {
                &&& #[trigger] call_ensures(D::set_len, (target.device, file, 0u64), cleared)
                &&& match cleared {
                    Ok(next) => zero_fills::<F, D>(
                        target.device,
                        next,
                        block_sizes(total as nat),
                        outcome,
                    ),
                    Err(cause) => outcome == Err::<D::File, SpillError>(SpillError::Io(cause)),
                }
            };
        match cleared {
            Ok(next) => {
                lemma_zeros_fail_for_a_cause::<F, D>(
                    target.device,
                    next,
                    block_sizes(total as nat),
                    outcome,
                );
            },
            Err(_) => {},
        }
    }
}

/// Writing zeros fails for a cause that the device gave, and for no other reason.
proof fn lemma_zeros_fail_for_a_cause<F, D: SpillDevice<F>>(
    device: &D,
    file: D::File,
    blocks: Seq<usize>,
    outcome: Result<D::File, SpillError>,
)
    requires
        zero_fills::<F, D>(device, file, blocks, outcome),
    ensures
        outcome matches Err(e) ==> e is Io,
    decreases blocks.len(),
{
    if blocks.len() > 0 {
        let written = choose|written: Result<D::File, IoFailure>|
            {
                &&& #[trigger] call_ensures(D::write_zeros, (device, file, blocks[0]), written)
                &&& match written {
                    Ok(next) => zero_fills::<F, D>(device, next, blocks.drop_first(), outcome),
                    Err(cause) => outcome == Err::<D::File, SpillError>(SpillError::Io(cause)),
                }
            };
        match written {
            Ok(next) => {
                lemma_zeros_fail_for_a_cause::<F, D>(device, next, blocks.drop_first(), outcome);
            },
            Err(_) => {},
        }
    }
}

/// A spill is opened whenever the device's steps succeed, whatever its size is: as a
/// mapping of all its bytes that the device made, or as none if there are no bytes.
pub proof fn law_opening_succeeds_when_its_steps_do<F, D: SpillDevice<F>>(
    target: SpillTarget<'_, D>,
    total: usize,
    opened: Result<Option<Mapping<D::Store>>, SpillError>,
)
    requires
        call_ensures(open_spill::<F, D>, (&target, total), opened),
        target.platform matches Platform::Fallocate { max_offset } ==> total <= max_offset,
        target.platform matches Platform::Preallocate { max_offset } ==> total <= max_offset,
        forall|made: Result<D::File, IoFailure>| #[trigger]
            call_ensures(D::tempfile, (target.device,), made) ==> made is Ok,
        forall|dir: String, made: Result<D::File, IoFailure>| #[trigger]
            call_ensures(D::tempfile_in, (target.device, &dir), made) ==> made is Ok,
        forall|f: D::File, len: i64, outcome: Result<D::File, IoFailure>| #[trigger]
            call_ensures(D::posix_fallocate, (target.device, f, len), outcome) ==> outcome is Ok,
        forall|f: D::File, len: i64, contiguous: bool, outcome: Preallocation<D::File>| #[trigger]
            call_ensures(D::preallocate, (target.device, f, len, contiguous), outcome)
                ==> outcome is Reserved && outcome->Reserved_1 >= len,
        forall|f: D::File, len: u64, outcome: Result<D::File, IoFailure>| #[trigger]
            call_ensures(D::set_len, (target.device, f, len), outcome) ==> outcome is Ok,
        forall|f: D::File, len: usize, outcome: Result<D::File, IoFailure>| #[trigger]
            call_ensures(D::write_zeros, (target.device, f, len), outcome) ==> outcome is Ok,
        forall|f: D::File, outcome: Result<D::File, IoFailure>| #[trigger]
            call_ensures(D::flush, (target.device, f), outcome) ==> outcome is Ok,
        forall|f: D::File, len: usize, mapped: Result<Mapping<D::Store>, IoFailure>| #[trigger]
            call_ensures(D::map, (target.device, f, len), mapped) ==> mapped is Ok,
    ensures
        total == 0 ==> opened == Ok::<Option<Mapping<D::Store>>, SpillError>(None),
        total > 0 ==> opened is Ok && opened->Ok_0 is Some,
        total > 0 ==> exists|file: D::File| #[trigger]
            call_ensures(
                D::map,
                (target.device, file, total),
                Ok::<_, IoFailure>(opened->Ok_0->Some_0),
            ),
{
    lemma_steps_open::<F, D>(target, total, opened);
}

/// The steps of opening a spill, all of them successful, open it.
pub proof fn lemma_steps_open<F, D: SpillDevice<F>>(
    target: SpillTarget<'_, D>,
    total: usize,
    opened: Result<Option<Mapping<D::Store>>, SpillError>,
)
    requires
        opens::<F, D>(target, total, opened),
        target.platform matches Platform::Fallocate { max_offset } ==> total <= max_offset,
        target.platform matches Platform::Preallocate { max_offset } ==> total <= max_offset,
        forall|made: Result<D::File, IoFailure>| #[trigger]
            call_ensures(D::tempfile, (target.device,), made) ==> made is Ok,
        forall|dir: String, made: Result<D::File, IoFailure>| #[trigger]
            call_ensures(D::tempfile_in, (target.device, &dir), made) ==> made is Ok,
        forall|f: D::File, len: i64, outcome: Result<D::File, IoFailure>| #[trigger]
            call_ensures(D::posix_fallocate, (target.device, f, len), outcome) ==> outcome is Ok,
        forall|f: D::File, len: i64, contiguous: bool, outcome: Preallocation<D::File>| #[trigger]
            call_ensures(D::preallocate, (target.device, f, len, contiguous), outcome)
                ==> outcome is Reserved && outcome->Reserved_1 >= len,
        forall|f: D::File, len: u64, outcome: Result<D::File, IoFailure>| #[trigger]
            call_ensures(D::set_len, (target.device, f, len), outcome) ==> outcome is Ok,
        forall|f: D::File, len: usize, outcome: Result<D::File, IoFailure>| #[trigger]
            call_ensures(D::write_zeros, (target.device, f, len), outcome) ==> outcome is Ok,
        forall|f: D::File, outcome: Result<D::File, IoFailure>| #[trigger]
            call_ensures(D::flush, (target.device, f), outcome) ==> outcome is Ok,
        forall|f: D::File, len: usize, mapped: Result<Mapping<D::Store>, IoFailure>| #[trigger]
            call_ensures(D::map, (target.device, f, len), mapped) ==> mapped is Ok,
    ensures
        total == 0 ==> opened == Ok::<Option<Mapping<D::Store>>, SpillError>(None),
        total > 0 ==> opened is Ok && opened->Ok_0 is Some,
        total > 0 ==> exists|file: D::File| #[trigger]
            call_ensures(
                D::map,
                (target.device, file, total),
                Ok::<_, IoFailure>(opened->Ok_0->Some_0),
            ),
{
    let made = choose|made: Result<D::File, SpillError>|
        {
            &&& #[trigger] makes_tempfile::<F, D>(target, made)
            &&& match made {
                Err(e) => opened == Err::<Option<Mapping<D::Store>>, SpillError>(e),
                Ok(file) => if total == 0 {
                    opened == Ok::<Option<Mapping<D::Store>>, SpillError>(None)
                } else {
                    maps::<F, D>(target, file, total, opened)
                },
            }
        };
    assert(made is Ok);
    if total > 0 {
        let file = made->Ok_0;
        let reserved = choose|reserved: Result<D::File, SpillError>|
            {
                &&& #[trigger] reserves::<F, D>(target, file, total, reserved)
                &&& match reserved {
                    Err(e) => opened == Err::<Option<Mapping<D::Store>>, SpillError>(e),
                    Ok(ready) => exists|mapped: Result<Mapping<D::Store>, IoFailure>|
                        {
                            &&& #[trigger] call_ensures(
                                D::map,
                                (target.device, ready, total),
                                mapped,
                            )
                            &&& match mapped {
                                Ok(mapping) => opened == Ok::<
                                    Option<Mapping<D::Store>>,
                                    SpillError,
                                >(Some(mapping)),
                                Err(cause) => opened == Err::<
                                    Option<Mapping<D::Store>>,
                                    SpillError,
                                >(SpillError::Io(cause)),
                            }
                        },
                }
            };
        lemma_steps_reserve::<F, D>(target, file, total, reserved);
        let ready = reserved->Ok_0;
        let mapped = choose|mapped: Result<Mapping<D::Store>, IoFailure>|
            {
                &&& #[trigger] call_ensures(D::map, (target.device, ready, total), mapped)
                &&& match mapped {
                    Ok(mapping) => opened == Ok::<Option<Mapping<D::Store>>, SpillError>(
                        Some(mapping),
                    ),
                    Err(cause) => opened == Err::<Option<Mapping<D::Store>>, SpillError>(
                        SpillError::Io(cause),
                    ),
                }
            };
        assert(mapped == Ok::<_, IoFailure>(opened->Ok_0->Some_0));
    }
}

/// What a mapping went through on a [`Platform::Fallocate`] host: a file in the
/// requested directory or else in the default one, all of its bytes reserved, its
/// length set to all of them, and all of them mapped, in this order and each on the
/// file that the step before handed back. The files are handed back.
pub proof fn law_a_mapping_was_allocated<F, D: SpillDevice<F>>(
    target: SpillTarget<'_, D>,
    total: usize,
    max_offset: i64,
    mapping: Mapping<D::Store>,
) -> (steps: (D::File, D::File, D::File))
    requires
        target.platform == (Platform::Fallocate { max_offset }),
        call_ensures(open_spill::<F, D>, (&target, total), Ok::<_, SpillError>(Some(mapping))),
    ensures
        0 < total <= max_offset,
        match target.dir {
            Some(dir) if dir@.len() > 0 => call_ensures(
                D::tempfile_in,
                (target.device, &dir),
                Ok::<_, IoFailure>(steps.0),
            ),
            _ => call_ensures(D::tempfile, (target.device,), Ok::<_, IoFailure>(steps.0)),
        },
        call_ensures(
            D::posix_fallocate,
            (target.device, steps.0, total as i64),
            Ok::<_, IoFailure>(steps.1),
        ),
        call_ensures(
            D::set_len,
            (target.device, steps.1, total as u64),
            Ok::<_, IoFailure>(steps.2),
        ),
        call_ensures(D::map, (target.device, steps.2, total), Ok::<_, IoFailure>(mapping)),
{
    let opened = Ok::<Option<Mapping<D::Store>>, SpillError>(Some(mapping));
    let made = choose|made: Result<D::File, SpillError>|
        {
            &&& #[trigger] makes_tempfile::<F, D>(target, made)
            &&& match made {
                Err(e) => false,
                Ok(file) => total != 0 && maps::<F, D>(target, file, total, opened),
            }
        };
    let file = made->Ok_0;
    let reserved = choose|reserved: Result<D::File, SpillError>|
        {
            &&& #[trigger] reserves::<F, D>(target, file, total, reserved)
            &&& reserved matches Ok(ready) && exists|mapped: Result<Mapping<D::Store>, IoFailure>|
                {
                    &&& #[trigger] call_ensures(D::map, (target.device, ready, total), mapped)
                    &&& mapped == Ok::<_, IoFailure>(mapping)
                }
        };
    let ready = reserved->Ok_0;
    let allocated = choose|allocated: Result<D::File, IoFailure>|
        {
            &&& #[trigger] call_ensures(
                D::posix_fallocate,
                (target.device, file, total as i64),
                allocated,
            )
            &&& match allocated {
                Ok(next) => sets_len::<F, D>(target.device, next, total as u64, reserved),
                Err(_) => false,
            }
        };
    let next = allocated->Ok_0;
    assert(allocated == Ok::<D::File, IoFailure>(next));
    let set = choose|set: Result<D::File, IoFailure>|
        {
            &&& #[trigger] call_ensures(D::set_len, (target.device, next, total as u64), set)
            &&& reserved == io_outcome(set)
        };
    assert(set == Ok::<D::File, IoFailure>(ready));
    (file, next, ready)
}

/// What a mapping went through on a [`Platform::Preallocate`] host: all of its bytes
/// were reserved, in one piece or, if that was refused, in any, and then its length was
/// set to all of them and all of them were mapped. The files are handed back, and
/// whether the bytes are in one piece.
pub proof fn law_a_mapping_was_preallocated<F, D: SpillDevice<F>>(
    target: SpillTarget<'_, D>,
    total: usize,
    max_offset: i64,
    mapping: Mapping<D::Store>,
) -> (steps: (D::File, D::File, D::File, D::File, i64, bool))
    requires
        target.platform == (Platform::Preallocate { max_offset }),
        call_ensures(open_spill::<F, D>, (&target, total), Ok::<_, SpillError>(Some(mapping))),
    ensures
        0 < total <= max_offset,
        match target.dir {
            Some(dir) if dir@.len() > 0 => call_ensures(
                D::tempfile_in,
                (target.device, &dir),
                Ok::<_, IoFailure>(steps.0),
            ),
            _ => call_ensures(D::tempfile, (target.device,), Ok::<_, IoFailure>(steps.0)),
        },
        steps.5 ==> steps.1 == steps.0,
        !steps.5 ==> exists|cause: IoFailure| #[trigger]
            call_ensures(
                D::preallocate,
                (target.device, steps.0, total as i64, true),
                Preallocation::Refused(steps.1, cause),
            ),
        call_ensures(
            D::preallocate,
            (target.device, steps.1, total as i64, steps.5),
            Preallocation::Reserved(steps.2, steps.4),
        ),
        steps.4 >= total,
        call_ensures(
            D::set_len,
            (target.device, steps.2, total as u64),
            Ok::<_, IoFailure>(steps.3),
        ),
        call_ensures(D::map, (target.device, steps.3, total), Ok::<_, IoFailure>(mapping)),
{
    let opened = Ok::<Option<Mapping<D::Store>>, SpillError>(Some(mapping));
    let made = choose|made: Result<D::File, SpillError>|
        {
            &&& #[trigger] makes_tempfile::<F, D>(target, made)
            &&& match made {
                Err(e) => false,
                Ok(file) => total != 0 && maps::<F, D>(target, file, total, opened),
            }
        };
    let file = made->Ok_0;
    let reserved = choose|reserved: Result<D::File, SpillError>|
        {
            &&& #[trigger] reserves::<F, D>(target, file, total, reserved)
            &&& reserved matches Ok(ready) && exists|mapped: Result<Mapping<D::Store>, IoFailure>|
                {
                    &&& #[trigger] call_ensures(D::map, (target.device, ready, total), mapped)
                    &&& mapped == Ok::<_, IoFailure>(mapping)
                }
        };
    let ready = reserved->Ok_0;
    let attempt = choose|attempt: Preallocation<D::File>|
        {
            &&& #[trigger] preallocates::<F, D>(target.device, file, total as i64, attempt)
            &&& match attempt {
                Preallocation::Refused(_, _) => false,
                Preallocation::Reserved(next, bytes) => bytes >= total && sets_len::<F, D>(
                    target.device,
                    next,
                    total as u64,
                    reserved,
                ),
            }
        };
    let next = attempt->Reserved_0;
    let bytes = attempt->Reserved_1;
    assert(attempt == Preallocation::Reserved(next, bytes));
    let first = choose|first: Preallocation<D::File>|
        {
            &&& #[trigger] call_ensures(
                D::preallocate,
                (target.device, file, total as i64, true),
                first,
            )
            &&& match first {
                Preallocation::Reserved(_, _) => attempt == first,
                Preallocation::Refused(again, _) => call_ensures(
                    D::preallocate,
                    (target.device, again, total as i64, false),
                    attempt,
                ),
            }
        };
    let set = choose|set: Result<D::File, IoFailure>|
        {
            &&& #[trigger] call_ensures(D::set_len, (target.device, next, total as u64), set)
            &&& reserved == io_outcome(set)
        };
    assert(set == Ok::<D::File, IoFailure>(ready));
    match first {
        Preallocation::Reserved(_, _) => (file, file, next, ready, bytes, true),
        Preallocation::Refused(again, cause) => {
            assert(first == Preallocation::Refused(again, cause));
            (file, again, next, ready, bytes, false)
        },
    }
}

/// What a mapping went through on a [`Platform::ZeroFill`] host: its file was cleared,
/// zeros were written one block after the other until there were as many as it has
/// bytes, they were flushed, and then all of them were mapped. The file at the start,
/// the files between the blocks and the sizes of the blocks are handed back.
pub proof fn law_a_mapping_was_filled<F, D: SpillDevice<F>>(
    target: SpillTarget<'_, D>,
    total: usize,
    mapping: Mapping<D::Store>,
) -> (steps: (D::File, Seq<D::File>, Seq<usize>, D::File))
    requires
        target.platform is ZeroFill,
        call_ensures(open_spill::<F, D>, (&target, total), Ok::<_, SpillError>(Some(mapping))),
    ensures
        0 < total,
        match target.dir {
            Some(dir) if dir@.len() > 0 => call_ensures(
                D::tempfile_in,
                (target.device, &dir),
                Ok::<_, IoFailure>(steps.0),
            ),
            _ => call_ensures(D::tempfile, (target.device,), Ok::<_, IoFailure>(steps.0)),
        },
        steps.1.len() == steps.2.len() + 1,
        call_ensures(
            D::set_len,
            (target.device, steps.0, 0u64),
            Ok::<_, IoFailure>(steps.1.first()),
        ),
        forall|i: int|
            0 <= i < steps.2.len() ==> 0 < #[trigger] steps.2[i] <= 1048576 && call_ensures(
                D::write_zeros,
                (target.device, steps.1[i], steps.2[i]),
                Ok::<_, IoFailure>(steps.1[i + 1]),
            ),
        steps.2.fold_left(0int, |sum: int, size: usize| sum + size) == total,
        call_ensures(
            D::flush,
            (target.device, steps.1.last()),
            Ok::<_, IoFailure>(steps.3),
        ),
        call_ensures(D::map, (target.device, steps.3, total), Ok::<_, IoFailure>(mapping)),
{
    let opened = Ok::<Option<Mapping<D::Store>>, SpillError>(Some(mapping));
    let made = choose|made: Result<D::File, SpillError>|
        {
            &&& #[trigger] makes_tempfile::<F, D>(target, made)
            &&& match made {
                Err(e) => false,
                Ok(file) => total != 0 && maps::<F, D>(target, file, total, opened),
            }
        };
    let file = made->Ok_0;
    let reserved = choose|reserved: Result<D::File, SpillError>|
        {
            &&& #[trigger] reserves::<F, D>(target, file, total, reserved)
            &&& reserved matches Ok(ready) && exists|mapped: Result<Mapping<D::Store>, IoFailure>|
                {
                    &&& #[trigger] call_ensures(D::map, (target.device, ready, total), mapped)
                    &&& mapped == Ok::<_, IoFailure>(mapping)
                }
        };
    let ready = reserved->Ok_0;
    let cleared = choose|cleared: Result<D::File, IoFailure>|
        {
            &&& #[trigger] call_ensures(D::set_len, (target.device, file, 0u64), cleared)
            &&& match cleared {
                Ok(next) => zero_fills::<F, D>(
                    target.device,
                    next,
                    block_sizes(total as nat),
                    reserved,
                ),
                Err(cause) => false,
            }
        };
    let blocks = block_sizes(total as nat);
    let files = lemma_every_block_is_written::<F, D>(
        target.device,
        cleared->Ok_0,
        blocks,
        ready,
    );
    assert(cleared == Ok::<D::File, IoFailure>(files.first()));
    law_blocks_cover_the_file(total as nat);
    (file, files, blocks, ready)
}

/// A temporary file is made in the requested directory and nowhere else; if that fails,
/// the directory is named beside the cause, and no other directory is tried.
pub proof fn law_the_requested_directory_is_not_replaced<F, D: SpillDevice<F>>(
    target: SpillTarget<'_, D>,
    dir: String,
    made: Result<D::File, SpillError>,
) -> (outcome: Result<D::File, IoFailure>)
    requires
        target.dir == Some(dir),
        dir@.len() > 0,
        call_ensures(make_tempfile::<F, D>, (&target,), made),
    ensures
        call_ensures(D::tempfile_in, (target.device, &dir), outcome),
        outcome matches Ok(file) ==> made == Ok::<D::File, SpillError>(file),
        outcome matches Err(cause) ==> made == Err::<D::File, SpillError>(
            SpillError::CreateTempFile { dir: Some(dir), cause },
        ),
{
    choose|outcome: Result<D::File, IoFailure>|
        {
            &&& #[trigger] call_ensures(D::tempfile_in, (target.device, &dir), outcome)
            &&& made == create_outcome(Some(dir), outcome)
        }
}

/// Without a request, or with an empty one, the temporary file is made where the host
/// makes them.
pub proof fn law_the_default_directory_is_the_hosts<F, D: SpillDevice<F>>(
    target: SpillTarget<'_, D>,
    made: Result<D::File, SpillError>,
) -> (outcome: Result<D::File, IoFailure>)
    requires
        target.dir matches Some(dir) ==> dir@.len() == 0,
        call_ensures(make_tempfile::<F, D>, (&target,), made),
    ensures
        call_ensures(D::tempfile, (target.device,), outcome),
        outcome matches Ok(file) ==> made == Ok::<D::File, SpillError>(file),
        outcome matches Err(cause) ==> made == Err::<D::File, SpillError>(
            SpillError::CreateTempFile { dir: None, cause },
        ),
{
    choose|outcome: Result<D::File, IoFailure>|
        {
            &&& #[trigger] call_ensures(D::tempfile, (target.device,), outcome)
            &&& made == create_outcome(None, outcome)
        }
}

/// Spills go to the host's device, in the host's way, into the directory of the policy.
pub proof fn law_spills_go_where_the_policy_says<'a, D>(
    host: SpillHost<'a, D>,
    policy: ProverConfig,
    target: SpillTarget<'a, D>,
)
    requires
        call_ensures(SpillTarget::<'a, D>::under, (&host, &policy), target),
    ensures
        target.device == host.device,
        target.platform == host.platform,
        target.dir == policy.spill_dir,
        target_under(host, policy) == target,
{
}

/// A reservation fails on a [`Platform::Fallocate`] host only because a step did, and
/// what that step said is the error. The file that the length could not be set of is
/// handed back, if it came to that.
pub proof fn law_a_refused_allocation_is_handed_on<F, D: SpillDevice<F>>(
    target: SpillTarget<'_, D>,
    file: D::File,
    total: usize,
    max_offset: i64,
    error: SpillError,
) -> (at: Option<D::File>)
    requires
        target.platform == (Platform::Fallocate { max_offset }),
        total <= max_offset,
        call_ensures(
            reserve_spill_file::<F, D>,
            (&target, file, total),
            Err::<D::File, SpillError>(error),
        ),
    ensures
        error is Io,
        at matches Some(next) ==> call_ensures(
            D::posix_fallocate,
            (target.device, file, total as i64),
            Ok::<D::File, IoFailure>(next),
        ) && call_ensures(
            D::set_len,
            (target.device, next, total as u64),
            Err::<D::File, IoFailure>(error->Io_0),
        ),
        at is None ==> call_ensures(
            D::posix_fallocate,
            (target.device, file, total as i64),
            Err::<D::File, IoFailure>(error->Io_0),
        ),
{
    let outcome = Err::<D::File, SpillError>(error);
    let allocated = choose|allocated: Result<D::File, IoFailure>|
        {
            &&& #[trigger] call_ensures(
                D::posix_fallocate,
                (target.device, file, total as i64),
                allocated,
            )
            &&& match allocated {
                Ok(next) => sets_len::<F, D>(target.device, next, total as u64, outcome),
                Err(cause) => outcome == Err::<D::File, SpillError>(SpillError::Io(cause)),
            }
        };
    match allocated {
        Ok(next) => {
            let set = choose|set: Result<D::File, IoFailure>|
                {
                    &&& #[trigger] call_ensures(
                        D::set_len,
                        (target.device, next, total as u64),
                        set,
                    )
                    &&& outcome == io_outcome(set)
                };
            assert(set == Err::<D::File, IoFailure>(error->Io_0));
            Some(next)
        },
        Err(cause) => {
            assert(allocated == Err::<D::File, IoFailure>(error->Io_0));
            None
        },
    }
}

/// A reservation that both attempts of a [`Platform::Preallocate`] host refuse fails
/// with what the second one said, and one that is not complete fails as such.
pub proof fn law_an_incomplete_preallocation_is_turned_down<F, D: SpillDevice<F>>(
    target: SpillTarget<'_, D>,
    file: D::File,
    total: usize,
    max_offset: i64,
    outcome: Result<D::File, SpillError>,
)
    requires
        target.platform == (Platform::Preallocate { max_offset }),
        total <= max_offset,
        call_ensures(reserve_spill_file::<F, D>, (&target, file, total), outcome),
    ensures
        (forall|f: D::File, contiguous: bool, attempt: Preallocation<D::File>| #[trigger]
            call_ensures(D::preallocate, (target.device, f, total as i64, contiguous), attempt)
                ==> attempt is Refused) ==> (outcome matches Err(e) && e is Io && exists|
            again: D::File,
            f: D::File,
        | #[trigger]
            call_ensures(
                D::preallocate,
                (target.device, again, total as i64, false),
                Preallocation::Refused(f, e->Io_0),
            )),
        (forall|f: D::File, contiguous: bool, attempt: Preallocation<D::File>| #[trigger]
            call_ensures(D::preallocate, (target.device, f, total as i64, contiguous), attempt)
                ==> attempt is Reserved && attempt->Reserved_1 < total) ==> outcome == Err::<
            D::File,
            SpillError,
        >(SpillError::PartialReservation),
{
    let reserved = choose|reserved: Preallocation<D::File>|
        {
            &&& #[trigger] preallocates::<F, D>(target.device, file, total as i64, reserved)
            &&& match reserved {
                Preallocation::Refused(_, cause) => outcome == Err::<D::File, SpillError>(
                    SpillError::Io(cause),
                ),
                Preallocation::Reserved(next, bytes) => if bytes < total {
                    outcome == Err::<D::File, SpillError>(SpillError::PartialReservation)
                } else {
                    sets_len::<F, D>(target.device, next, total as u64, outcome)
                },
            }
        };
    let first = choose|first: Preallocation<D::File>|
        {
            &&& #[trigger] call_ensures(
                D::preallocate,
                (target.device, file, total as i64, true),
                first,
            )
            &&& match first {
                Preallocation::Reserved(_, _) => reserved == first,
                Preallocation::Refused(again, _) => call_ensures(
                    D::preallocate,
                    (target.device, again, total as i64, false),
                    reserved,
                ),
            }
        };
    if reserved is Refused {
        assert(reserved == Preallocation::Refused(reserved->Refused_0, reserved->Refused_1));
    }
}

} // verus!
