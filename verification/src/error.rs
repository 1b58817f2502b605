//! What can go wrong while keys are read and spilled, and how it is worded.
use vstd::prelude::*;

use crate::text::{contains_text, decimal, decimal_text};

verus! {

/// The class of a failure, after the kinds of `std::io::Error`.
#[derive(Clone, Copy, Debug, PartialEq, Eq, Structural)]
pub enum ErrorKind {
    /// Something that was named does not exist.
    NotFound,
    /// The process may not do this.
    PermissionDenied,
    /// A connection was refused.
    ConnectionRefused,
    /// A connection was reset.
    ConnectionReset,
    /// A host cannot be reached.
    HostUnreachable,
    /// A network cannot be reached.
    NetworkUnreachable,
    /// A connection was ended by the other side.
    ConnectionAborted,
    /// There is no connection.
    NotConnected,
    /// An address is in use.
    AddrInUse,
    /// An address does not exist here, or is not local.
    AddrNotAvailable,
    /// The network is down.
    NetworkDown,
    /// The other end of a pipe is closed.
    BrokenPipe,
    /// Something that was to be made is there already.
    AlreadyExists,
    /// The operation would have to wait.
    WouldBlock,
    /// Something other than a directory was found in its place.
    NotADirectory,
    /// A directory was found in the place of something else.
    IsADirectory,
    /// A directory is not empty.
    DirectoryNotEmpty,
    /// The file system cannot be written.
    ReadOnlyFilesystem,
    /// A file of a network file system is gone.
    StaleNetworkFileHandle,
    /// The caller's arguments cannot be honoured.
    InvalidInput,
    /// The data that was read does not hold what it must.
    InvalidData,
    /// The operation took too long.
    TimedOut,
    /// A write took no bytes.
    WriteZero,
    /// The volume is full.
    StorageFull,
    /// The file has no positions to seek to.
    NotSeekable,
    /// A quota is used up.
    QuotaExceeded,
    /// The file is larger than the system allows.
    FileTooLarge,
    /// The resource is in use.
    ResourceBusy,
    /// An executable file is in use.
    ExecutableFileBusy,
    /// Waiting would never end.
    Deadlock,
    /// The operation would cross the border of a file system.
    CrossesDevices,
    /// There are too many links to a file.
    TooManyLinks,
    /// A file cannot have this name.
    InvalidFilename,
    /// The arguments of a program are too long.
    ArgumentListTooLong,
    /// The operation was interrupted.
    Interrupted,
    /// The platform does not support the operation.
    Unsupported,
    /// The data ended too early.
    UnexpectedEof,
    /// There is no memory left.
    OutOfMemory,
    /// None of the others, by the word of who reports the failure.
    Other,
    /// A failure of the operating system that is in none of these classes.
    Uncategorized,
}

/// A failure that the operating system reported.
#[derive(Debug, PartialEq, Eq)]
pub struct IoFailure {
    /// Its class.
    pub kind: ErrorKind,
    /// Its error number, if it has one.
    pub os_code: Option<i32>,
    /// Its wording.
    pub text: String,
}

/// Why a batch of polynomials could not be moved to a mapped file.
#[derive(Debug, PartialEq, Eq)]
pub enum SpillError {
    /// A row is empty, or its elements take no space.
    EmptyRows,
    /// The number of elements does not fit in `usize`.
    ElementCountOverflow,
    /// The number of bytes does not fit in `usize`.
    ByteCountOverflow,
    /// The number of bytes does not fit in a file offset.
    TooLargeForOffset,
    /// The temporary file could not be made, in the named directory if there is one.
    CreateTempFile {
        /// The directory that was asked for.
        dir: Option<String>,
        /// What the operating system said.
        cause: IoFailure,
    },
    /// The file system reserved less than was asked for.
    PartialReservation,
    /// Any other failure of the operating system.
    Io(IoFailure),
    /// The mapping does not hold the number of elements that it was made for.
    MappingSize,
    /// The mapping does not start at a multiple of the element's alignment.
    Misaligned,
    /// More polynomials came than were promised.
    TooManyPolynomials,
    /// Fewer polynomials came than were promised.
    TooFewPolynomials,
    /// A polynomial has another length than the rows of the mapping.
    SizeMismatch {
        /// The polynomial's length.
        got: usize,
        /// The length of a row.
        expected: usize,
    },
    /// There is no polynomial to take the row length from.
    EmptyBatch,
}

impl SpillError {
    /// The class of the failure.
    pub open spec fn spec_kind(self) -> ErrorKind {
        match self {
            SpillError::EmptyRows => ErrorKind::InvalidInput,
            SpillError::ElementCountOverflow => ErrorKind::InvalidInput,
            SpillError::ByteCountOverflow => ErrorKind::InvalidInput,
            SpillError::TooLargeForOffset => ErrorKind::InvalidInput,
            SpillError::CreateTempFile { dir: _, cause } => cause.kind,
            SpillError::PartialReservation => ErrorKind::Other,
            SpillError::Io(cause) => cause.kind,
            SpillError::MappingSize => ErrorKind::InvalidData,
            SpillError::Misaligned => ErrorKind::InvalidData,
            SpillError::TooManyPolynomials => ErrorKind::InvalidInput,
            SpillError::TooFewPolynomials => ErrorKind::InvalidInput,
            SpillError::SizeMismatch { got: _, expected: _ } => ErrorKind::InvalidInput,
            SpillError::EmptyBatch => ErrorKind::InvalidInput,
        }
    }

    /// The class of the failure.
    pub fn kind(&self) -> (kind: ErrorKind)
        ensures
            kind == self.spec_kind(),
    {
        match self {
            SpillError::CreateTempFile { dir: _, cause } => cause.kind,
            SpillError::Io(cause) => cause.kind,
            SpillError::PartialReservation => ErrorKind::Other,
            SpillError::MappingSize => ErrorKind::InvalidData,
            SpillError::Misaligned => ErrorKind::InvalidData,
            _ => ErrorKind::InvalidInput,
        }
    }

    /// The wording of the failure.
    pub open spec fn spec_message(self) -> Seq<char> {
        match self {
            SpillError::EmptyRows => "spill requires non-empty rows of non-zero-sized elements"@,
            SpillError::ElementCountOverflow => "spill element count overflows"@,
            SpillError::ByteCountOverflow => "spill byte count overflows"@,
            SpillError::TooLargeForOffset => "spill is too large for off_t"@,
            SpillError::CreateTempFile { dir, cause } => match dir {
                Some(dir) => "create spill temp file in "@ + dir@ + ": "@ + cause.text@,
                None => "create spill temp file: "@ + cause.text@,
            },
            SpillError::PartialReservation => "filesystem did not reserve the complete spill"@,
            SpillError::Io(cause) => cause.text@,
            SpillError::MappingSize => "spill mapping has another size than the spill"@,
            SpillError::Misaligned => "spill mapping is misaligned for polynomial elements"@,
            SpillError::TooManyPolynomials
                => "spill iterator yielded more polynomials than promised"@,
            SpillError::TooFewPolynomials
                => "spill iterator yielded fewer polynomials than promised"@,
            SpillError::SizeMismatch { got, expected }
                => "spill_iter_to_disk: polynomial size mismatch (got "@ + decimal(got as nat)
                + ", expected "@ + decimal(expected as nat) + ")"@,
            SpillError::EmptyBatch => "cannot infer the size of an empty spill"@,
        }
    }

    /// The wording of the failure.
    pub fn message(&self) -> (text: String)
        ensures
            text@ == self.spec_message(),
    {
        match self {
            SpillError::EmptyRows => {
                "spill requires non-empty rows of non-zero-sized elements".to_owned()
            },
            SpillError::ElementCountOverflow => "spill element count overflows".to_owned(),
            SpillError::ByteCountOverflow => "spill byte count overflows".to_owned(),
            SpillError::TooLargeForOffset => "spill is too large for off_t".to_owned(),
            SpillError::CreateTempFile { dir, cause } => match dir {
                Some(dir) => {
                    let mut text = "create spill temp file in ".to_owned();
                    text.append(dir.as_str());
                    text.append(": ");
                    text.append(cause.text.as_str());
                    text
                },
                None => {
                    let mut text = "create spill temp file: ".to_owned();
                    text.append(cause.text.as_str());
                    text
                },
            },
            SpillError::PartialReservation => {
                "filesystem did not reserve the complete spill".to_owned()
            },
            SpillError::Io(cause) => cause.text.clone(),
            SpillError::MappingSize => "spill mapping has another size than the spill".to_owned(),
            SpillError::Misaligned => {
                "spill mapping is misaligned for polynomial elements".to_owned()
            },
            SpillError::TooManyPolynomials => {
                "spill iterator yielded more polynomials than promised".to_owned()
            },
            SpillError::TooFewPolynomials => {
                "spill iterator yielded fewer polynomials than promised".to_owned()
            },
            SpillError::SizeMismatch { got, expected } => {
                let mut text = "spill_iter_to_disk: polynomial size mismatch (got ".to_owned();
                text.append(decimal_text(*got as u64).as_str());
                text.append(", expected ");
                text.append(decimal_text(*expected as u64).as_str());
                text.append(")");
                text
            },
            SpillError::EmptyBatch => "cannot infer the size of an empty spill".to_owned(),
        }
    }
}

/// A directory that cannot take a temporary file is named in the message, beside
/// what the operating system said.
pub proof fn law_a_bad_spill_directory_is_named(dir: String, cause: IoFailure)
    ensures
        contains_text(
            (SpillError::CreateTempFile { dir: Some(dir), cause }).spec_message(),
            dir@,
        ),
        contains_text(
            (SpillError::CreateTempFile { dir: Some(dir), cause }).spec_message(),
            cause.text@,
        ),
{
    let text = (SpillError::CreateTempFile { dir: Some(dir), cause }).spec_message();
    let at = "create spill temp file in "@.len() as int;
    assert(text.subrange(at, at + dir@.len()) =~= dir@);
    let end = text.len() - cause.text@.len();
    assert(text.subrange(end, end + cause.text@.len()) =~= cause.text@);
}

/// Why a key could not be read.
#[derive(Debug, PartialEq, Eq)]
pub enum ReadError {
    /// The bytes ended too early.
    UnexpectedEof,
    /// The source of the bytes failed.
    Io(IoFailure),
    /// The key is of another version.
    UnexpectedVersion,
    /// The circuit is larger than the field has roots of unity for.
    CircuitTooLarge {
        /// The size that was read, as a log2.
        k: u8,
        /// The largest size, as a log2.
        max: u32,
    },
    /// A commitment is not the encoding of a point.
    InvalidPoint,
    /// A field element is not below the modulus.
    InvalidElement,
    /// The key has another number of permutation columns than the circuit.
    PermutationCount {
        /// The number that was read.
        got: u32,
        /// The circuit's number.
        expected: usize,
    },
    /// The key was read, but could not be moved to a mapped file.
    Spill(SpillError),
}

impl ReadError {
    /// The class of the failure.
    pub open spec fn spec_kind(self) -> ErrorKind {
        match self {
            ReadError::UnexpectedEof => ErrorKind::UnexpectedEof,
            ReadError::Io(cause) => cause.kind,
            ReadError::Spill(e) => e.spec_kind(),
            _ => ErrorKind::InvalidData,
        }
    }

    /// The class of the failure.
    pub fn kind(&self) -> (kind: ErrorKind)
        ensures
            kind == self.spec_kind(),
    {
        match self {
            ReadError::UnexpectedEof => ErrorKind::UnexpectedEof,
            ReadError::Io(cause) => cause.kind,
            ReadError::Spill(e) => e.kind(),
            _ => ErrorKind::InvalidData,
        }
    }

    /// The wording of the failure.
    pub open spec fn spec_message(self) -> Seq<char> {
        match self {
            ReadError::UnexpectedEof => "failed to fill whole buffer"@,
            ReadError::Io(cause) => cause.text@,
            ReadError::UnexpectedVersion => "unexpected version byte"@,
            ReadError::CircuitTooLarge { k, max } => "circuit size value (k): "@ + decimal(
                k as nat,
            ) + " exceeds maxium: "@ + decimal(max as nat),
            ReadError::InvalidPoint => "invalid point encoding"@,
            ReadError::InvalidElement => "field element is not less than the modulus"@,
            ReadError::PermutationCount { got, expected } => "permutation column count: "@
                + decimal(got as nat) + " differs from the circuit's: "@ + decimal(
                expected as nat,
            ),
            ReadError::Spill(e) => e.spec_message(),
        }
    }

    /// The wording of the failure.
    pub fn message(&self) -> (text: String)
        ensures
            text@ == self.spec_message(),
    {
        match self {
            ReadError::UnexpectedEof => "failed to fill whole buffer".to_owned(),
            ReadError::Io(cause) => cause.text.clone(),
            ReadError::UnexpectedVersion => "unexpected version byte".to_owned(),
            ReadError::CircuitTooLarge { k, max } => {
                let mut text = "circuit size value (k): ".to_owned();
                text.append(decimal_text(*k as u64).as_str());
                text.append(" exceeds maxium: ");
                text.append(decimal_text(*max as u64).as_str());
                text
            },
            ReadError::InvalidPoint => "invalid point encoding".to_owned(),
            ReadError::InvalidElement => "field element is not less than the modulus".to_owned(),
            ReadError::PermutationCount { got, expected } => {
                let mut text = "permutation column count: ".to_owned();
                text.append(decimal_text(*got as u64).as_str());
                text.append(" differs from the circuit's: ");
                text.append(decimal_text(*expected as u64).as_str());
                text
            },
            ReadError::Spill(e) => e.message(),
        }
    }
}

/// What the operating system says of a failure is handed on: its class always, and
/// its wording as it is, beside the directory if a temporary file could not be made.
pub proof fn law_failures_of_the_system_are_handed_on(dir: Option<String>, cause: IoFailure)
    ensures
        SpillError::Io(cause).spec_kind() == cause.kind,
        SpillError::Io(cause).spec_message() == cause.text@,
        (SpillError::CreateTempFile { dir, cause }).spec_kind() == cause.kind,
        contains_text((SpillError::CreateTempFile { dir, cause }).spec_message(), cause.text@),
        ReadError::Io(cause).spec_kind() == cause.kind,
        ReadError::Io(cause).spec_message() == cause.text@,
        ReadError::Spill(SpillError::Io(cause)).spec_kind() == cause.kind,
        ReadError::Spill(SpillError::Io(cause)).spec_message() == cause.text@,
{
    let text = (SpillError::CreateTempFile { dir, cause }).spec_message();
    let end = text.len() - cause.text@.len();
    assert(text.subrange(end, end + cause.text@.len()) =~= cause.text@);
}

/// What the caller did wrong is invalid input, a mapping that cannot be used is invalid
/// data, and a failure of the system is what the system says it is.
pub proof fn law_failures_are_classed_by_their_origin(error: SpillError, kind: ErrorKind)
    requires
        call_ensures(SpillError::kind, (&error,), kind),
    ensures
        error matches SpillError::Io(cause) ==> kind == cause.kind,
        error matches SpillError::CreateTempFile { dir: _, cause } ==> kind == cause.kind,
        error is PartialReservation ==> kind == ErrorKind::Other,
        error is MappingSize || error is Misaligned ==> kind == ErrorKind::InvalidData,
        error is EmptyRows || error is ElementCountOverflow || error is ByteCountOverflow || error
            is TooLargeForOffset || error is TooManyPolynomials || error is TooFewPolynomials
            || error is SizeMismatch || error is EmptyBatch ==> kind == ErrorKind::InvalidInput,
{
}

/// Bytes that end too early are told apart from bytes that are wrong, and both from what
/// the source or a spill failed with.
pub proof fn law_unreadable_keys_are_classed_by_their_origin(
    error: ReadError,
    kind: ErrorKind,
)
    requires
        call_ensures(ReadError::kind, (&error,), kind),
    ensures
        error is UnexpectedEof ==> kind == ErrorKind::UnexpectedEof,
        error matches ReadError::Io(cause) ==> kind == cause.kind,
        error matches ReadError::Spill(spill) ==> kind == spill.spec_kind(),
        error is UnexpectedVersion || error is CircuitTooLarge || error is InvalidPoint || error
            is InvalidElement || error is PermutationCount ==> kind == ErrorKind::InvalidData,
{
}

/// A message gives the numbers that do not fit together, whatever they are.
pub proof fn law_messages_give_both_numbers(
    got: usize,
    expected: usize,
    k: u8,
    max: u32,
    columns: u32,
)
    ensures
        (SpillError::SizeMismatch { got, expected }).spec_message()
            == "spill_iter_to_disk: polynomial size mismatch (got "@ + decimal(got as nat)
            + ", expected "@ + decimal(expected as nat) + ")"@,
        (ReadError::CircuitTooLarge { k, max }).spec_message() == "circuit size value (k): "@
            + decimal(k as nat) + " exceeds maxium: "@ + decimal(max as nat),
        (ReadError::PermutationCount { got: columns, expected }).spec_message()
            == "permutation column count: "@ + decimal(columns as nat)
            + " differs from the circuit's: "@ + decimal(expected as nat),
        ({
            let text = (SpillError::SizeMismatch { got, expected }).spec_message();
            contains_text(text, decimal(got as nat)) && contains_text(
                text,
                decimal(expected as nat),
            )
        }),
        ({
            let text = (ReadError::CircuitTooLarge { k, max }).spec_message();
            contains_text(text, decimal(k as nat)) && contains_text(text, decimal(max as nat))
        }),
        ({
            let text = (ReadError::PermutationCount { got: columns, expected }).spec_message();
            contains_text(text, decimal(columns as nat)) && contains_text(
                text,
                decimal(expected as nat),
            )
        }),
{
    let sizes = (SpillError::SizeMismatch { got, expected }).spec_message();
    lemma_two_parts_are_there(
        sizes,
        "spill_iter_to_disk: polynomial size mismatch (got "@,
        decimal(got as nat),
        ", expected "@,
        decimal(expected as nat),
        ")"@,
    );
    let circuit = (ReadError::CircuitTooLarge { k, max }).spec_message();
    assert(circuit =~= "circuit size value (k): "@ + decimal(k as nat) + " exceeds maxium: "@
        + decimal(max as nat) + Seq::<char>::empty());
    lemma_two_parts_are_there(
        circuit,
        "circuit size value (k): "@,
        decimal(k as nat),
        " exceeds maxium: "@,
        decimal(max as nat),
        Seq::<char>::empty(),
    );
    let counts = (ReadError::PermutationCount { got: columns, expected }).spec_message();
    assert(counts =~= "permutation column count: "@ + decimal(columns as nat)
        + " differs from the circuit's: "@ + decimal(expected as nat) + Seq::<char>::empty());
    lemma_two_parts_are_there(
        counts,
        "permutation column count: "@,
        decimal(columns as nat),
        " differs from the circuit's: "@,
        decimal(expected as nat),
        Seq::<char>::empty(),
    );
}

/// The parts of a text are in it.
proof fn lemma_two_parts_are_there(
    text: Seq<char>,
    head: Seq<char>,
    first: Seq<char>,
    middle: Seq<char>,
    second: Seq<char>,
    tail: Seq<char>,
)
    requires
        text == head + first + middle + second + tail,
    ensures
        contains_text(text, first),
        contains_text(text, second),
{
    let at = head.len() as int;
    assert(text.subrange(at, at + first.len()) =~= first);
    let then_at = at + first.len() + middle.len();
    assert(text.subrange(then_at, then_at + second.len()) =~= second);
}

} // verus!
