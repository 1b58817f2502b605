//! Little-endian numbers in byte strings, and reading a byte string from the front.
use vstd::prelude::*;

use crate::error::ReadError;

verus! {

/// The number that a little-endian byte string stands for.
pub open spec fn le_value(bytes: Seq<u8>) -> nat
    decreases bytes.len(),
{
    if bytes.len() == 0 {
        0
    } else {
        bytes[0] as nat + 256 * le_value(bytes.drop_first())
    }
}

/// The low 32 bits of `n` as four little-endian bytes.
pub open spec fn u32_bytes(n: nat) -> Seq<u8> {
    seq![
        (n % 256) as u8,
        (n / 256 % 256) as u8,
        (n / 65536 % 256) as u8,
        (n / 16777216 % 256) as u8,
    ]
}

/// Four bytes stand for a number below 2^32.
pub proof fn lemma_four_bytes(bytes: Seq<u8>)
    requires
        bytes.len() == 4,
    ensures
        le_value(bytes) == bytes[0] + 256 * bytes[1] + 65536 * bytes[2] + 16777216 * bytes[3],
        le_value(bytes) < 0x1_0000_0000,
{
    reveal_with_fuel(le_value, 5);
}

/// Reading back four bytes gives the low 32 bits of what was written.
pub proof fn law_counts_read_back(n: nat)
    ensures
        le_value(u32_bytes(n)) == n % 0x1_0000_0000,
{
    lemma_four_bytes(u32_bytes(n));
    let n1 = n / 256;
    let n2 = n1 / 256;
    let n3 = n2 / 256;
    assert(n / 65536 == n2);
    assert(n / 16777216 == n3);
    assert(n == n % 256 + 256 * n1);
    assert(n1 == n1 % 256 + 256 * n2);
    assert(n2 == n2 % 256 + 256 * n3);
    let high = n3 / 256;
    assert(n3 == n3 % 256 + 256 * high);
    let low = n % 256 + 256 * (n1 % 256) + 65536 * (n2 % 256) + 16777216 * (n3 % 256);
    assert(n == low + 0x1_0000_0000 * high);
    assert(n % 0x1_0000_0000 == low);
}

/// Appends a slice of bytes.
pub fn append_bytes(out: &mut Vec<u8>, bytes: &[u8])
    ensures
        final(out)@ == old(out)@ + bytes@,
{
    let ghost before = out@;
    out.extend_from_slice(bytes);
    assert(out@ =~= before + bytes@);
}

/// Appends the low 32 bits of `n`, little-endian.
pub fn append_u32(out: &mut Vec<u8>, n: usize)
    ensures
        final(out)@ == old(out)@ + u32_bytes(n as nat),
{
    let ghost before = out@;
    out.push((n % 256) as u8);
    out.push((n / 256 % 256) as u8);
    out.push((n / 65536 % 256) as u8);
    out.push((n / 16777216 % 256) as u8);
    assert(out@ =~= before + u32_bytes(n as nat));
}

/// The first `n` bytes of `input` and the others, if there are that many.
pub open spec fn split(input: Seq<u8>, n: nat) -> Result<(Seq<u8>, Seq<u8>), ReadError> {
    if input.len() < n {
        Err(ReadError::UnexpectedEof)
    } else {
        Ok((input.take(n as int), input.skip(n as int)))
    }
}

/// A 32-bit count at the front of `input`, and the bytes after it.
pub open spec fn count_parsed(input: Seq<u8>) -> Result<(nat, Seq<u8>), ReadError> {
    match split(input, 4) {
        Ok((bytes, rest)) => Ok((le_value(bytes), rest)),
        Err(e) => Err(e),
    }
}

/// Whether `rest` is what is left of `input` when it is read from the front.
pub open spec fn left_of(rest: Seq<u8>, input: Seq<u8>) -> bool {
    rest.len() <= input.len() && rest == input.skip(input.len() - rest.len())
}

/// What is left of what is left is left.
pub proof fn lemma_left_of_left(rest: Seq<u8>, middle: Seq<u8>, input: Seq<u8>)
    requires
        left_of(rest, middle),
        left_of(middle, input),
    ensures
        left_of(rest, input),
{
    assert(rest =~= input.skip(input.len() - rest.len()));
}

/// What [`split`] leaves is left.
pub proof fn lemma_split_leaves(input: Seq<u8>, n: nat)
    ensures
        left_of(input, input),
        split(input, n) matches Ok((_, rest)) ==> left_of(rest, input),
{
    assert(input =~= input.skip(0));
}

/// The error of a parser, as a source that ends in `ending` gives it: where the
/// bytes ended too early, the source says why.
pub open spec fn surfaced(error: ReadError, ending: ReadError) -> ReadError {
    match error {
        ReadError::UnexpectedEof => ending,
        _ => error,
    }
}

/// Bytes that are read from the front, once.
pub trait ByteSource {
    /// The bytes that are still to be read. Which they are of a source outside
    /// this crate is left to it.
    closed spec fn rest(&self) -> Seq<u8> {
        arbitrary()
    }

    /// The error by which the source turns down a read that goes beyond its
    /// bytes.
    closed spec fn ending(&self) -> ReadError {
        arbitrary()
    }

    /// Reads exactly `n` bytes, and no byte beyond them.
    fn read_exact(&mut self, n: usize) -> (read: Result<Vec<u8>, ReadError>)
        ensures
            final(self).ending() == old(self).ending(),
            match split(old(self).rest(), n as nat) {
                Ok((bytes, rest)) => {
                    &&& read matches Ok(taken)
                    &&& taken@ == bytes
                    &&& final(self).rest() == rest
                },
                Err(_) => {
                    &&& read matches Err(error)
                    &&& error == old(self).ending()
                    &&& left_of(final(self).rest(), old(self).rest())
                },
            },
    ;
}

/// A byte string that is read from the front.
pub struct ByteReader<'a> {
    bytes: &'a [u8],
}

impl<'a> ByteReader<'a> {
    /// Reads the given bytes.
    pub fn new(bytes: &'a [u8]) -> (reader: Self)
        ensures
            reader.rest() == bytes@,
            reader.ending() is UnexpectedEof,
    {
        ByteReader { bytes }
    }

    /// The bytes that are still to be read.
    pub fn remaining(&self) -> (bytes: &'a [u8])
        ensures
            bytes@ == self.rest(),
    {
        self.bytes
    }
}

impl ByteSource for ByteReader<'_> {
    closed spec fn rest(&self) -> Seq<u8> {
        self.bytes@
    }

    open spec fn ending(&self) -> ReadError {
        ReadError::UnexpectedEof
    }

    fn read_exact(&mut self, n: usize) -> (read: Result<Vec<u8>, ReadError>) {
        let len: usize = self.bytes.len();
        if len < n {
            proof {
                lemma_split_leaves(self.bytes@, 0);
            }
            return Err(ReadError::UnexpectedEof);
        }
        let bytes = self.bytes;
        let read = &bytes[0..n];
        self.bytes = &bytes[n..len];
        assert(read@ =~= bytes@.take(n as int));
        assert(self.bytes@ =~= bytes@.skip(n as int));
        Ok(vstd::slice::slice_to_vec(read))
    }
}

/// Reads one byte.
pub fn read_u8<R: ByteSource>(reader: &mut R) -> (read: Result<u8, ReadError>)
    ensures
        final(reader).ending() == old(reader).ending(),
        left_of(final(reader).rest(), old(reader).rest()),
        match split(old(reader).rest(), 1) {
            Ok((bytes, rest)) => {
                &&& read == Ok::<u8, ReadError>(bytes[0])
                &&& final(reader).rest() == rest
            },
            Err(_) => read == Err::<u8, ReadError>(old(reader).ending()),
        },
{
    proof {
        lemma_split_leaves(reader.rest(), 1);
    }
    match reader.read_exact(1) {
        Ok(bytes) => Ok(bytes[0]),
        Err(e) => Err(e),
    }
}

/// Reads a 32-bit little-endian number.
pub fn read_u32<R: ByteSource>(reader: &mut R) -> (read: Result<u32, ReadError>)
    ensures
        final(reader).ending() == old(reader).ending(),
        left_of(final(reader).rest(), old(reader).rest()),
        match count_parsed(old(reader).rest()) {
            Ok((count, rest)) => {
                &&& read matches Ok(n)
                &&& n == count
                &&& final(reader).rest() == rest
            },
            Err(_) => read == Err::<u32, ReadError>(old(reader).ending()),
        },
{
    proof {
        lemma_split_leaves(reader.rest(), 4);
    }
    match reader.read_exact(4) {
        Ok(bytes) => {
            proof {
                lemma_four_bytes(bytes@);
            }
            Ok(
                bytes[0] as u32 + 256 * bytes[1] as u32 + 65536 * bytes[2] as u32 + 16777216
                    * bytes[3] as u32,
            )
        },
        Err(e) => Err(e),
    }
}

/// The first byte counts once, and those after it 256 times.
pub proof fn law_bytes_count_by_their_place(first: u8, others: Seq<u8>)
    ensures
        le_value(Seq::<u8>::empty()) == 0,
        le_value(seq![first] + others) == first + 256 * le_value(others),
{
    assert((seq![first] + others).drop_first() =~= others);
}

/// Splitting undoes joining, and what is not there cannot be split off.
pub proof fn law_splitting_undoes_joining(front: Seq<u8>, back: Seq<u8>, n: nat)
    ensures
        split(front + back, front.len()) == Ok::<(Seq<u8>, Seq<u8>), ReadError>((front, back)),
        n > back.len() ==> split(back, n) == Err::<(Seq<u8>, Seq<u8>), ReadError>(
            ReadError::UnexpectedEof,
        ),
{
    assert((front + back).take(front.len() as int) =~= front);
    assert((front + back).skip(front.len() as int) =~= back);
}

/// A count is four bytes, lowest first, whatever it is. Fewer bytes hold none.
pub proof fn law_a_count_is_four_bytes(input: Seq<u8>)
    ensures
        input.len() >= 4 ==> count_parsed(input) == Ok::<(nat, Seq<u8>), ReadError>(
            (
                (input[0] + 256 * input[1] + 65536 * input[2] + 16777216 * input[3]) as nat,
                input.skip(4),
            ),
        ),
        input.len() < 4 ==> count_parsed(input) == Err::<(nat, Seq<u8>), ReadError>(
            ReadError::UnexpectedEof,
        ),
{
    if input.len() >= 4 {
        lemma_four_bytes(input.take(4));
    }
}

/// A count is written as four bytes, lowest first: its low 32 bits.
pub proof fn law_a_count_is_written_lowest_byte_first(n: nat)
    ensures
        u32_bytes(n).len() == 4,
        u32_bytes(n)[0] + 256 * u32_bytes(n)[1] + 65536 * u32_bytes(n)[2] + 16777216 * u32_bytes(
            n,
        )[3] == n % 0x1_0000_0000,
{
    law_counts_read_back(n);
    lemma_four_bytes(u32_bytes(n));
}

/// Where the bytes end too early the source's own error is given, and any other
/// error stays what it is.
pub proof fn law_only_the_end_is_the_sources_error(error: ReadError, ending: ReadError)
    ensures
        error is UnexpectedEof ==> surfaced(error, ending) == ending,
        !(error is UnexpectedEof) ==> surfaced(error, ending) == error,
{
}

} // verus!
