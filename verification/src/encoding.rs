//! How keys are laid out in bytes: runs of items, commitments and polynomials.
use vstd::prelude::*;

use crate::bytes::{
    append_u32, count_parsed, law_a_count_is_four_bytes, law_counts_read_back, left_of,
    lemma_left_of_left,
    lemma_split_leaves, read_u32, split, surfaced, u32_bytes, ByteSource,
};
use crate::error::ReadError;
use crate::poly::view::{rows_of, PolynomialRead};
use crate::poly::Polynomial;

verus! {

/// How commitments are encoded, and how much is checked when they are read.
#[derive(Clone, Copy, Debug, PartialEq, Eq, Structural)]
pub enum SerdeFormat {
    /// Compressed points. Everything is checked.
    Processed,
    /// Uncompressed points. Everything is checked.
    RawBytes,
    /// Uncompressed points. Field elements are not checked to be reduced, nor
    /// points to lie in the subgroup.
    RawBytesUnchecked,
}

/// A commitment or a field element, as keys hold it.
pub trait ProcessedSerdeObject: Sized {
    /// The canonical representation of the object.
    spec fn repr(&self) -> Seq<u8>;

    /// Whether an object with this representation passes every check.
    spec fn accepted(repr: Seq<u8>) -> bool;

    /// The number of bytes of an encoded object.
    spec fn spec_byte_length(format: SerdeFormat) -> nat;

    /// The encoding of the object with representation `repr`.
    spec fn encoded(repr: Seq<u8>, format: SerdeFormat) -> Seq<u8>;

    /// The representation of the object that is encoded as `bytes`, if there is
    /// one.
    spec fn decoded(bytes: Seq<u8>, format: SerdeFormat) -> Option<Seq<u8>>;

    /// Why bytes that encode no object are rejected.
    spec fn spec_rejection() -> ReadError;

    /// Why bytes that encode no object are rejected.
    fn rejection() -> (error: ReadError)
        ensures
            error == Self::spec_rejection(),
            !(error is UnexpectedEof),
    ;

    /// The number of bytes of an encoded object.
    fn byte_length(format: SerdeFormat) -> (length: usize)
        ensures
            length == Self::spec_byte_length(format),
    ;

    /// Appends the encoding of the object.
    fn write(&self, out: &mut Vec<u8>, format: SerdeFormat)
        ensures
            final(out)@ == old(out)@ + Self::encoded(self.repr(), format),
            Self::encoded(self.repr(), format).len() == Self::spec_byte_length(format),
            format == SerdeFormat::RawBytesUnchecked || Self::accepted(self.repr())
                ==> Self::decoded(Self::encoded(self.repr(), format), format) == Some(self.repr()),
    ;

    /// The object that is encoded as `bytes`, if there is one.
    fn read(bytes: &[u8], format: SerdeFormat) -> (object: Option<Self>)
        requires
            bytes@.len() == Self::spec_byte_length(format),
        ensures
            match Self::decoded(bytes@, format) {
                Some(repr) => object matches Some(object) && object.repr() == repr,
                None => object is None,
            },
    ;
}

/// Whether an object with this representation is encoded with the stated length,
/// and is read back as it was.
pub open spec fn reads_back<C: ProcessedSerdeObject>(repr: Seq<u8>, format: SerdeFormat) -> bool {
    &&& C::encoded(repr, format).len() == C::spec_byte_length(format)
    &&& C::decoded(C::encoded(repr, format), format) == Some(repr)
}

/// The result of a parser: an item and the bytes after it, or why there is none.
pub type Parsed<T> = Result<(T, Seq<u8>), ReadError>;

/// A parse that comes after `items`.
pub open spec fn after<T>(items: Seq<T>, parsed: Parsed<Seq<T>>) -> Parsed<Seq<T>> {
    match parsed {
        Ok((more, rest)) => Ok((items + more, rest)),
        Err(e) => Err(e),
    }
}

/// `count` items at the front of `input`: the first one that cannot be parsed
/// decides why there are none.
pub open spec fn many_parsed<T>(
    input: Seq<u8>,
    count: nat,
    parse: spec_fn(Seq<u8>) -> Parsed<T>,
) -> Parsed<Seq<T>>
    decreases count,
{
    if count == 0 {
        Ok((Seq::empty(), input))
    } else {
        match parse(input) {
            Ok((item, rest)) => after(
                seq![item],
                many_parsed(rest, (count - 1) as nat, parse),
            ),
            Err(e) => Err(e),
        }
    }
}

/// Items one after the other.
pub open spec fn many_encoded<T>(items: Seq<T>, encode: spec_fn(T) -> Seq<u8>) -> Seq<u8>
    decreases items.len(),
{
    if items.len() == 0 {
        Seq::empty()
    } else {
        encode(items[0]) + many_encoded(items.drop_first(), encode)
    }
}

/// Items that are each read back are read back together.
pub proof fn law_many_items_read_back<T>(
    items: Seq<T>,
    encode: spec_fn(T) -> Seq<u8>,
    parse: spec_fn(Seq<u8>) -> Parsed<T>,
    rest: Seq<u8>,
)
    requires
        forall|i: int, more: Seq<u8>|
            0 <= i < items.len() ==> #[trigger] parse(encode(items[i]) + more) == Ok::<
                _,
                ReadError,
            >((items[i], more)),
    ensures
        many_parsed(many_encoded(items, encode) + rest, items.len(), parse) == Ok::<_, ReadError>(
            (items, rest),
        ),
    decreases items.len(),
{
    let input = many_encoded(items, encode) + rest;
    if items.len() == 0 {
        assert(input =~= rest);
        assert(items =~= Seq::empty());
    } else {
        let others = items.drop_first();
        let more = many_encoded(others, encode) + rest;
        assert(input =~= encode(items[0]) + more);
        assert forall|i: int, more: Seq<u8>| 0 <= i < others.len() implies #[trigger] parse(
            encode(others[i]) + more,
        ) == Ok::<_, ReadError>((others[i], more)) by {
            assert(others[i] == items[i + 1]);
            assert(parse(encode(items[i + 1]) + more) == Ok::<_, ReadError>((items[i + 1], more)));
        }
        law_many_items_read_back(others, encode, parse, rest);
        assert(parse(encode(items[0]) + more) == Ok::<_, ReadError>((items[0], more)));
        assert(seq![items[0]] + others =~= items);
    }
}

/// One more item comes after the others.
proof fn lemma_encoded_push<T>(items: Seq<T>, item: T, encode: spec_fn(T) -> Seq<u8>)
    ensures
        many_encoded(items.push(item), encode) == many_encoded(items, encode) + encode(item),
    decreases items.len(),
{
    let longer = items.push(item);
    if items.len() == 0 {
        reveal_with_fuel(many_encoded, 2);
        assert(longer.drop_first() =~= items);
        assert(many_encoded(longer, encode) =~= encode(item));
        assert(many_encoded(items, encode) + encode(item) =~= encode(item));
    } else {
        lemma_encoded_push(items.drop_first(), item, encode);
        assert(longer.drop_first() =~= items.drop_first().push(item));
        assert(many_encoded(longer, encode) =~= many_encoded(items, encode) + encode(item));
    }
}

/// Items of one length take that length each.
pub proof fn lemma_encoded_length<T>(items: Seq<T>, encode: spec_fn(T) -> Seq<u8>, length: nat)
    requires
        forall|i: int| 0 <= i < items.len() ==> encode(#[trigger] items[i]).len() == length,
    ensures
        many_encoded(items, encode).len() == items.len() * length,
    decreases items.len(),
{
    if items.len() > 0 {
        let others = items.drop_first();
        assert forall|i: int| 0 <= i < others.len() implies encode(#[trigger] others[i]).len()
            == length by {
            assert(others[i] == items[i + 1]);
        }
        lemma_encoded_length(others, encode, length);
        assert(encode(items[0]).len() == length);
        assert(items.len() * length == length + (items.len() - 1) * length) by (nonlinear_arith);
    } else {
        assert(0 * length == 0) by (nonlinear_arith);
    }
}

/// Before the first item nothing is parsed.
proof fn lemma_none_parsed<T>(input: Seq<u8>, count: nat, parse: spec_fn(Seq<u8>) -> Parsed<T>)
    ensures
        after(Seq::<T>::empty(), many_parsed(input, count, parse)) == many_parsed(
            input,
            count,
            parse,
        ),
{
    match many_parsed(input, count, parse) {
        Ok((items, _)) => {
            assert(Seq::<T>::empty() + items =~= items);
        },
        Err(_) => {},
    }
}

/// One more item is parsed.
proof fn lemma_one_parsed<T>(
    done: Seq<T>,
    input: Seq<u8>,
    count: nat,
    parse: spec_fn(Seq<u8>) -> Parsed<T>,
    item: T,
    rest: Seq<u8>,
)
    requires
        0 < count,
        parse(input) == Ok::<_, ReadError>((item, rest)),
    ensures
        after(done, many_parsed(input, count, parse)) == after(
            done.push(item),
            many_parsed(rest, (count - 1) as nat, parse),
        ),
{
    match many_parsed(rest, (count - 1) as nat, parse) {
        Ok((more, _)) => {
            assert(done + (seq![item] + more) =~= done.push(item) + more);
        },
        Err(_) => {},
    }
}

/// How an object is read.
pub open spec fn object_parser<C: ProcessedSerdeObject>(format: SerdeFormat) -> spec_fn(
    Seq<u8>,
) -> Parsed<Seq<u8>> {
    |input: Seq<u8>|
        match split(input, C::spec_byte_length(format)) {
            Ok((bytes, rest)) => match C::decoded(bytes, format) {
                Some(repr) => Ok((repr, rest)),
                None => Err(C::spec_rejection()),
            },
            Err(e) => Err(e),
        }
}

/// How an object is written.
pub open spec fn object_encoder<C: ProcessedSerdeObject>(format: SerdeFormat) -> spec_fn(
    Seq<u8>,
) -> Seq<u8> {
    |repr: Seq<u8>| C::encoded(repr, format)
}

/// The representations of objects.
pub open spec fn reprs_of<C: ProcessedSerdeObject>(objects: Seq<C>) -> Seq<Seq<u8>> {
    Seq::new(objects.len(), |i: int| objects[i].repr())
}

/// Whether objects with these representations are each read back.
pub open spec fn all_read_back<C: ProcessedSerdeObject>(
    reprs: Seq<Seq<u8>>,
    format: SerdeFormat,
) -> bool {
    forall|i: int| 0 <= i < reprs.len() ==> reads_back::<C>(#[trigger] reprs[i], format)
}

/// Whether an object with this representation passes the checks of the format.
/// The unchecked one takes back everything that it wrote.
pub open spec fn passes<C: ProcessedSerdeObject>(repr: Seq<u8>, format: SerdeFormat) -> bool {
    format == SerdeFormat::RawBytesUnchecked || C::accepted(repr)
}

/// Whether objects with these representations all pass the checks of the format.
pub open spec fn all_pass<C: ProcessedSerdeObject>(
    reprs: Seq<Seq<u8>>,
    format: SerdeFormat,
) -> bool {
    forall|i: int| 0 <= i < reprs.len() ==> passes::<C>(#[trigger] reprs[i], format)
}

/// Objects that are each read back are read back together.
pub proof fn law_objects_read_back<C: ProcessedSerdeObject>(
    reprs: Seq<Seq<u8>>,
    format: SerdeFormat,
    rest: Seq<u8>,
)
    requires
        all_read_back::<C>(reprs, format),
    ensures
        many_parsed(
            many_encoded(reprs, object_encoder::<C>(format)) + rest,
            reprs.len(),
            object_parser::<C>(format),
        ) == Ok::<_, ReadError>((reprs, rest)),
{
    let encode = object_encoder::<C>(format);
    let parse = object_parser::<C>(format);
    assert forall|i: int, more: Seq<u8>| 0 <= i < reprs.len() implies #[trigger] parse(
        encode(reprs[i]) + more,
    ) == Ok::<_, ReadError>((reprs[i], more)) by {
        let bytes = encode(reprs[i]);
        assert(reads_back::<C>(reprs[i], format));
        assert((bytes + more).take(bytes.len() as int) =~= bytes);
        assert((bytes + more).skip(bytes.len() as int) =~= more);
    }
    law_many_items_read_back(reprs, encode, parse, rest);
}

/// Reads `count` objects.
pub fn read_objects<C: ProcessedSerdeObject, R: ByteSource>(
    reader: &mut R,
    count: u32,
    format: SerdeFormat,
) -> (read: Result<Vec<C>, ReadError>)
    ensures
        match many_parsed(old(reader).rest(), count as nat, object_parser::<C>(format)) {
            Ok((reprs, rest)) => {
                &&& read matches Ok(objects)
                &&& reprs_of(objects@) == reprs
                &&& final(reader).rest() == rest
            },
            Err(e) => read matches Err(error) && error == surfaced(e, old(reader).ending()),
        },
        left_of(final(reader).rest(), old(reader).rest()),
        final(reader).ending() == old(reader).ending(),
{
    let ghost input = reader.rest();
    let ghost parse = object_parser::<C>(format);
    let length: usize = C::byte_length(format);
    let mut objects: Vec<C> = Vec::new();
    proof {
        lemma_split_leaves(input, 0);
        lemma_none_parsed(input, count as nat, parse);
        assert(reprs_of(objects@) =~= Seq::empty());
    }
    for i in 0..count
        invariant
            input == old(reader).rest(),
            parse == object_parser::<C>(format),
            length == C::spec_byte_length(format),
            left_of(reader.rest(), input),
            reader.ending() == old(reader).ending(),
            many_parsed(input, count as nat, parse) == after(
                reprs_of(objects@),
                many_parsed(reader.rest(), (count - i) as nat, parse),
            ),
    {
        let ghost before = reader.rest();
        let ghost done = reprs_of(objects@);
        proof {
            lemma_split_leaves(before, length as nat);
        }
        let taken = reader.read_exact(length);
        proof {
            lemma_left_of_left(reader.rest(), before, input);
        }
        let bytes = match taken {
            Ok(bytes) => bytes,
            Err(e) => return Err(e),
        };
        let object = match C::read(bytes.as_slice(), format) {
            Some(object) => object,
            None => return Err(C::rejection()),
        };
        let ghost repr = object.repr();
        objects.push(object);
        proof {
            assert(reprs_of(objects@) =~= done.push(repr));
            lemma_one_parsed(done, before, (count - i) as nat, parse, repr, reader.rest());
        }
    }
    assert(reprs_of(objects@) + Seq::empty() =~= reprs_of(objects@));
    Ok(objects)
}

/// Appends the encodings of objects, one after the other.
pub fn write_objects<C: ProcessedSerdeObject>(out: &mut Vec<u8>, objects: &[C], format: SerdeFormat)
    ensures
        final(out)@ == old(out)@ + many_encoded(
            reprs_of(objects@),
            object_encoder::<C>(format),
        ),
        many_encoded(reprs_of(objects@), object_encoder::<C>(format)).len() == objects@.len()
            * C::spec_byte_length(format),
        all_pass::<C>(reprs_of(objects@), format) ==> all_read_back::<C>(
            reprs_of(objects@),
            format,
        ),
{
    let ghost start = out@;
    let ghost encode = object_encoder::<C>(format);
    let ghost reprs = reprs_of(objects@);
    let n: usize = objects.len();
    assert(start + many_encoded(reprs.take(0), encode) =~= start);
    for i in 0..n
        invariant
            n == objects@.len(),
            reprs == reprs_of(objects@),
            encode == object_encoder::<C>(format),
            out@ == start + many_encoded(reprs.take(i as int), encode),
            forall|j: int|
                0 <= j < i ==> encode(#[trigger] reprs[j]).len() == C::spec_byte_length(format),
            forall|j: int|
                0 <= j < i ==> passes::<C>(#[trigger] reprs[j], format) ==> reads_back::<C>(
                    reprs[j],
                    format,
                ),
    {
        objects[i].write(out, format);
        proof {
            let so_far = reprs.take(i as int);
            lemma_encoded_push(so_far, reprs[i as int], encode);
            assert(reprs.take(i + 1) =~= so_far.push(reprs[i as int]));
            assert(out@ =~= start + many_encoded(reprs.take(i + 1), encode));
        }
    }
    proof {
        assert(reprs.take(n as int) =~= reprs);
        lemma_encoded_length(reprs, encode, C::spec_byte_length(format));
    }
}

/// How a polynomial is read: its length, and then its values.
pub open spec fn row_parser<F: ProcessedSerdeObject>(format: SerdeFormat) -> spec_fn(
    Seq<u8>,
) -> Parsed<Seq<Seq<u8>>> {
    |input: Seq<u8>|
        match count_parsed(input) {
            Ok((len, rest)) => many_parsed(rest, len, object_parser::<F>(format)),
            Err(e) => Err(e),
        }
}

/// How a polynomial is written: the low 32 bits of its length, and then its
/// values.
pub open spec fn row_encoder<F: ProcessedSerdeObject>(format: SerdeFormat) -> spec_fn(
    Seq<Seq<u8>>,
) -> Seq<u8> {
    |row: Seq<Seq<u8>>| u32_bytes(row.len()) + many_encoded(row, object_encoder::<F>(format))
}

/// A batch of polynomials at the front of `input`: their number, and then each.
pub open spec fn batch_parsed<F: ProcessedSerdeObject>(
    input: Seq<u8>,
    format: SerdeFormat,
) -> Parsed<Seq<Seq<Seq<u8>>>> {
    match count_parsed(input) {
        Ok((count, rest)) => many_parsed(rest, count, row_parser::<F>(format)),
        Err(e) => Err(e),
    }
}

/// A batch of polynomials as bytes: the low 32 bits of their number, and then
/// each.
pub open spec fn batch_encoded<F: ProcessedSerdeObject>(
    rows: Seq<Seq<Seq<u8>>>,
    format: SerdeFormat,
) -> Seq<u8> {
    u32_bytes(rows.len()) + many_encoded(rows, row_encoder::<F>(format))
}

/// The representations of the values of each row.
pub open spec fn row_reprs<F: ProcessedSerdeObject>(rows: Seq<Seq<F>>) -> Seq<Seq<Seq<u8>>> {
    Seq::new(rows.len(), |i: int| reprs_of(rows[i]))
}

/// Whether every length of a batch fits in the 32 bits that it is stored in.
pub open spec fn lengths_fit(rows: Seq<Seq<Seq<u8>>>) -> bool {
    &&& rows.len() < 0x1_0000_0000
    &&& forall|i: int| 0 <= i < rows.len() ==> (#[trigger] rows[i]).len() < 0x1_0000_0000
}

/// Whether every value of a batch is read back.
pub open spec fn rows_read_back<F: ProcessedSerdeObject>(
    rows: Seq<Seq<Seq<u8>>>,
    format: SerdeFormat,
) -> bool {
    forall|i: int| 0 <= i < rows.len() ==> all_read_back::<F>(#[trigger] rows[i], format)
}

/// Whether every value of a batch passes the checks of the format.
pub open spec fn rows_pass<F: ProcessedSerdeObject>(
    rows: Seq<Seq<Seq<u8>>>,
    format: SerdeFormat,
) -> bool {
    forall|i: int| 0 <= i < rows.len() ==> all_pass::<F>(#[trigger] rows[i], format)
}

/// A count that fits in 32 bits is parsed as it was.
pub proof fn lemma_count_parsed(n: nat, rest: Seq<u8>)
    requires
        n < 0x1_0000_0000,
    ensures
        count_parsed(u32_bytes(n) + rest) == Ok::<_, ReadError>((n, rest)),
{
    let input = u32_bytes(n) + rest;
    law_counts_read_back(n);
    assert(input.take(4) =~= u32_bytes(n));
    assert(input.skip(4) =~= rest);
}

/// A batch of polynomials is read back as it was written, whatever comes after it.
pub proof fn law_batches_read_back<F: ProcessedSerdeObject>(
    rows: Seq<Seq<Seq<u8>>>,
    format: SerdeFormat,
    rest: Seq<u8>,
)
    requires
        lengths_fit(rows),
        rows_read_back::<F>(rows, format),
    ensures
        batch_parsed::<F>(batch_encoded::<F>(rows, format) + rest, format) == Ok::<_, ReadError>(
            (rows, rest),
        ),
{
    let encode = row_encoder::<F>(format);
    let parse = row_parser::<F>(format);
    assert forall|i: int, more: Seq<u8>| 0 <= i < rows.len() implies #[trigger] parse(
        encode(rows[i]) + more,
    ) == Ok::<_, ReadError>((rows[i], more)) by {
        let row = rows[i];
        let values = many_encoded(row, object_encoder::<F>(format));
        assert(encode(row) + more =~= u32_bytes(row.len()) + (values + more));
        lemma_count_parsed(row.len(), values + more);
        law_objects_read_back::<F>(row, format, more);
    }
    law_many_items_read_back(rows, encode, parse, rest);
    let body = many_encoded(rows, encode);
    assert(batch_encoded::<F>(rows, format) + rest =~= u32_bytes(rows.len()) + (body + rest));
    lemma_count_parsed(rows.len(), body + rest);
}

/// Reads one polynomial.
fn read_polynomial<F: ProcessedSerdeObject, B, R: ByteSource>(
    reader: &mut R,
    format: SerdeFormat,
) -> (read: Result<Polynomial<F, B>, ReadError>)
    ensures
        match row_parser::<F>(format)(old(reader).rest()) {
            Ok((row, rest)) => {
                &&& read matches Ok(poly)
                &&& reprs_of(poly.coeffs()) == row
                &&& final(reader).rest() == rest
            },
            Err(e) => read matches Err(error) && error == surfaced(e, old(reader).ending()),
        },
        left_of(final(reader).rest(), old(reader).rest()),
        final(reader).ending() == old(reader).ending(),
{
    let ghost input = reader.rest();
    proof {
        lemma_split_leaves(input, 4);
    }
    let len: u32 = match read_u32(reader) {
        Ok(len) => len,
        Err(e) => return Err(e),
    };
    let ghost after_len = reader.rest();
    let values = read_objects(reader, len, format);
    proof {
        lemma_left_of_left(reader.rest(), after_len, input);
    }
    match values {
        Ok(values) => Ok(Polynomial::new(values)),
        Err(e) => Err(e),
    }
}

/// Reads a batch of polynomials.
pub fn read_polynomial_vec<F: ProcessedSerdeObject, B, R: ByteSource>(
    reader: &mut R,
    format: SerdeFormat,
) -> (read: Result<Vec<Polynomial<F, B>>, ReadError>)
    ensures
        match batch_parsed::<F>(old(reader).rest(), format) {
            Ok((rows, rest)) => {
                &&& read matches Ok(polys)
                &&& row_reprs(rows_of(polys@)) == rows
                &&& final(reader).rest() == rest
            },
            Err(e) => read matches Err(error) && error == surfaced(e, old(reader).ending()),
        },
        left_of(final(reader).rest(), old(reader).rest()),
        final(reader).ending() == old(reader).ending(),
{
    let ghost start = reader.rest();
    proof {
        lemma_split_leaves(start, 4);
    }
    let count: u32 = match read_u32(reader) {
        Ok(count) => count,
        Err(e) => return Err(e),
    };
    let ghost input = reader.rest();
    let ghost parse = row_parser::<F>(format);
    let mut polys: Vec<Polynomial<F, B>> = Vec::new();
    proof {
        lemma_none_parsed(input, count as nat, parse);
        assert(row_reprs(rows_of(polys@)) =~= Seq::empty());
    }
    for i in 0..count
        invariant
            start == old(reader).rest(),
            count_parsed(start) == Ok::<_, ReadError>((count as nat, input)),
            parse == row_parser::<F>(format),
            left_of(reader.rest(), start),
            reader.ending() == old(reader).ending(),
            many_parsed(input, count as nat, parse) == after(
                row_reprs(rows_of(polys@)),
                many_parsed(reader.rest(), (count - i) as nat, parse),
            ),
    {
        let ghost before = reader.rest();
        let ghost done = row_reprs(rows_of(polys@));
        let read = read_polynomial(reader, format);
        proof {
            lemma_left_of_left(reader.rest(), before, start);
        }
        let poly = match read {
            Ok(poly) => poly,
            Err(e) => return Err(e),
        };
        let ghost row = reprs_of(poly.coeffs());
        polys.push(poly);
        proof {
            assert(row_reprs(rows_of(polys@)) =~= done.push(row));
            lemma_one_parsed(done, before, (count - i) as nat, parse, row, reader.rest());
        }
    }
    assert(row_reprs(rows_of(polys@)) + Seq::empty() =~= row_reprs(rows_of(polys@)));
    Ok(polys)
}

/// The number of bytes of a batch: four for each length, and each value.
pub open spec fn batch_length(rows: Seq<nat>, value_length: nat) -> nat
    decreases rows.len(),
{
    if rows.len() == 0 {
        4
    } else {
        batch_length(rows.drop_last(), value_length) + 4 + rows.last() * value_length
    }
}

/// The lengths of rows.
pub open spec fn row_lengths<T>(rows: Seq<Seq<T>>) -> Seq<nat> {
    Seq::new(rows.len(), |i: int| rows[i].len())
}

/// Appends a batch of polynomials.
pub fn write_polynomial_slice<F: ProcessedSerdeObject, P: PolynomialRead<F>>(
    polys: &[P],
    out: &mut Vec<u8>,
    format: SerdeFormat,
)
    ensures
        final(out)@ == old(out)@ + batch_encoded::<F>(row_reprs(rows_of(polys@)), format),
        batch_encoded::<F>(row_reprs(rows_of(polys@)), format).len() == batch_length(
            row_lengths(rows_of(polys@)),
            F::spec_byte_length(format),
        ),
        rows_pass::<F>(row_reprs(rows_of(polys@)), format) ==> rows_read_back::<F>(
            row_reprs(rows_of(polys@)),
            format,
        ),
{
    let ghost start = out@;
    let ghost encode = row_encoder::<F>(format);
    let ghost rows = row_reprs(rows_of(polys@));
    let ghost lengths = row_lengths(rows_of(polys@));
    let ghost value_length = F::spec_byte_length(format);
    let n: usize = polys.len();
    append_u32(out, n);
    let ghost head = start + u32_bytes(n as nat);
    assert(head + many_encoded(rows.take(0), encode) =~= head);
    for i in 0..n
        invariant
            n == polys@.len(),
            rows == row_reprs(rows_of(polys@)),
            lengths == row_lengths(rows_of(polys@)),
            encode == row_encoder::<F>(format),
            value_length == F::spec_byte_length(format),
            out@ == head + many_encoded(rows.take(i as int), encode),
            many_encoded(rows.take(i as int), encode).len() + 4 == batch_length(
                lengths.take(i as int),
                value_length,
            ),
            forall|j: int|
                0 <= j < i ==> all_pass::<F>(#[trigger] rows[j], format) ==> all_read_back::<F>(
                    rows[j],
                    format,
                ),
    {
        let values = polys[i].values();
        let ghost so_far = rows.take(i as int);
        let ghost row = rows[i as int];
        assert(rows_of(polys@)[i as int] == values@);
        assert(row == reprs_of(values@));
        append_u32(out, values.len());
        write_objects(out, values, format);
        proof {
            lemma_encoded_push(so_far, row, encode);
            assert(rows.take(i + 1) =~= so_far.push(row));
            assert(out@ =~= head + many_encoded(rows.take(i + 1), encode));
            assert(lengths.take(i + 1).drop_last() =~= lengths.take(i as int));
            assert(lengths.take(i + 1).last() == values@.len());
        }
    }
    proof {
        assert(rows.take(n as int) =~= rows);
        assert(lengths.take(n as int) =~= lengths);
        assert(out@ =~= start + batch_encoded::<F>(rows, format));
    }
}

/// A batch of fewer polynomials is no longer.
proof fn lemma_batch_grows(lengths: Seq<nat>, n: int, value_length: nat)
    requires
        0 <= n <= lengths.len(),
    ensures
        batch_length(lengths.take(n), value_length) <= batch_length(lengths, value_length),
    decreases lengths.len() - n,
{
    if n == lengths.len() {
        assert(lengths.take(n) =~= lengths);
    } else {
        lemma_batch_grows(lengths, n + 1, value_length);
        assert(lengths.take(n + 1).drop_last() =~= lengths.take(n));
        assert(0 <= lengths[n] * value_length) by (nonlinear_arith);
    }
}

/// The number of bytes of a batch of polynomials.
pub fn polynomial_slice_byte_length<F: ProcessedSerdeObject, P: PolynomialRead<F>>(
    polys: &[P],
    format: SerdeFormat,
) -> (length: usize)
    requires
        batch_length(row_lengths(rows_of(polys@)), F::spec_byte_length(format)) <= usize::MAX,
    ensures
        length == batch_length(row_lengths(rows_of(polys@)), F::spec_byte_length(format)),
{
    let ghost lengths = row_lengths(rows_of(polys@));
    let value_length: usize = F::byte_length(format);
    let n: usize = polys.len();
    let mut length: usize = 4;
    assert(lengths.take(0) =~= Seq::empty());
    for i in 0..n
        invariant
            n == polys@.len(),
            lengths == row_lengths(rows_of(polys@)),
            value_length == F::spec_byte_length(format),
            batch_length(lengths, value_length as nat) <= usize::MAX,
            length == batch_length(lengths.take(i as int), value_length as nat),
    {
        let values = polys[i].values();
        proof {
            assert(rows_of(polys@)[i as int] == values@);
            assert(lengths.take(i + 1).drop_last() =~= lengths.take(i as int));
            assert(lengths.take(i + 1).last() == values@.len());
            lemma_batch_grows(lengths, i + 1, value_length as nat);
            assert(0 <= values@.len() * value_length) by (nonlinear_arith);
        }
        length = length + 4 + values.len() * value_length;
    }
    assert(lengths.take(n as int) =~= lengths);
    length
}

/// The representations of a batch are those of its items, one for one, and its
/// lengths those of its rows.
pub proof fn law_representations_are_one_for_one<C: ProcessedSerdeObject>(
    objects: Seq<C>,
    rows: Seq<Seq<C>>,
)
    ensures
        reprs_of(objects).len() == objects.len(),
        forall|i: int|
            0 <= i < objects.len() ==> #[trigger] reprs_of(objects)[i] == objects[i].repr(),
        row_reprs(rows).len() == rows.len(),
        forall|i: int| 0 <= i < rows.len() ==> #[trigger] row_reprs(rows)[i] == reprs_of(rows[i]),
        row_lengths(rows).len() == rows.len(),
        forall|i: int| 0 <= i < rows.len() ==> #[trigger] row_lengths(rows)[i] == rows[i].len(),
{
}

/// Items are written in order and nothing comes between them: the bytes of two runs
/// together are the bytes of the first and then those of the second.
pub proof fn law_items_are_written_one_after_the_other<T>(
    items: Seq<T>,
    more: Seq<T>,
    item: T,
    encode: spec_fn(T) -> Seq<u8>,
)
    ensures
        many_encoded(Seq::<T>::empty(), encode) == Seq::<u8>::empty(),
        many_encoded(seq![item], encode) == encode(item),
        many_encoded(items + more, encode) == many_encoded(items, encode) + many_encoded(
            more,
            encode,
        ),
    decreases items.len(),
{
    let none = Seq::<T>::empty();
    lemma_encoded_push(none, item, encode);
    assert(none.push(item) =~= seq![item]);
    assert(many_encoded(none, encode) + encode(item) =~= encode(item));
    let all = items + more;
    if items.len() == 0 {
        assert(all =~= more);
        assert(many_encoded(items, encode) + many_encoded(more, encode) =~= many_encoded(
            more,
            encode,
        ));
    } else {
        law_items_are_written_one_after_the_other(items.drop_first(), more, item, encode);
        assert(all.drop_first() =~= items.drop_first() + more);
        assert(many_encoded(all, encode) =~= many_encoded(items, encode) + many_encoded(
            more,
            encode,
        ));
    }
}

/// Items of one length lie side by side: item `i` takes the bytes from `i` lengths
/// on.
pub proof fn law_items_of_one_length_lie_side_by_side<T>(
    items: Seq<T>,
    encode: spec_fn(T) -> Seq<u8>,
    length: nat,
    i: int,
)
    requires
        forall|j: int| 0 <= j < items.len() ==> encode(#[trigger] items[j]).len() == length,
        0 <= i < items.len(),
    ensures
        many_encoded(items, encode).len() == items.len() * length,
        0 <= i * length <= i * length + length <= items.len() * length,
        many_encoded(items, encode).subrange(i * length, i * length + length) == encode(items[i]),
{
    let before = items.take(i);
    let after_it = items.skip(i + 1);
    assert(items =~= before + (seq![items[i]] + after_it));
    law_items_are_written_one_after_the_other(
        before,
        seq![items[i]] + after_it,
        items[i],
        encode,
    );
    law_items_are_written_one_after_the_other(seq![items[i]], after_it, items[i], encode);
    lemma_encoded_length(items, encode, length);
    lemma_encoded_length(before, encode, length);
    assert(encode(items[i]).len() == length);
    assert(0 <= i * length <= i * length + length <= items.len() * length) by (nonlinear_arith)
        requires
            0 <= i < items.len(),
    ;
    assert(many_encoded(items, encode).subrange(i * length, i * length + length) =~= encode(
        items[i],
    ));
}

/// After the first run of `length` bytes, each run is the one before it of what is
/// left.
proof fn lemma_later_runs(input: Seq<u8>, length: nat, j: int)
    requires
        1 <= j,
        j * length + length <= input.len(),
    ensures
        length <= input.len(),
        0 <= (j - 1) * length,
        (j - 1) * length + length <= input.skip(length as int).len(),
        input.subrange(j * length, j * length + length) == input.skip(length as int).subrange(
            (j - 1) * length,
            (j - 1) * length + length,
        ),
{
    assert((j - 1) * length == j * length - length) by (nonlinear_arith);
    assert(0 <= (j - 1) * length) by (nonlinear_arith)
        requires
            1 <= j,
    ;
    assert(input.subrange(j * length, j * length + length) =~= input.skip(length as int).subrange(
        (j - 1) * length,
        (j - 1) * length + length,
    ));
}

/// Objects of one length are parsed where they lie: object `i` is what the bytes from
/// `i` lengths on encode, there are as many as were asked for, and the bytes after
/// them are left.
pub proof fn law_objects_are_parsed_where_they_lie<C: ProcessedSerdeObject>(
    input: Seq<u8>,
    count: nat,
    format: SerdeFormat,
    reprs: Seq<Seq<u8>>,
    rest: Seq<u8>,
)
    requires
        many_parsed(input, count, object_parser::<C>(format)) == Ok::<_, ReadError>((reprs, rest)),
    ensures
        reprs.len() == count,
        count * C::spec_byte_length(format) <= input.len(),
        rest == input.skip((count * C::spec_byte_length(format)) as int),
        forall|i: int|
            0 <= i < count ==> C::decoded(
                input.subrange(
                    i * C::spec_byte_length(format),
                    i * C::spec_byte_length(format) + C::spec_byte_length(format),
                ),
                format,
            ) == Some(#[trigger] reprs[i]),
    decreases count,
{
    let length = C::spec_byte_length(format);
    assert(0 * length == 0) by (nonlinear_arith);
    if count == 0 {
        assert(input.skip(0) =~= input);
    } else {
        let next = input.skip(length as int);
        let less = (count - 1) as nat;
        let first = reprs[0];
        let others = reprs.drop_first();
        assert(many_parsed(next, less, object_parser::<C>(format)) == Ok::<_, ReadError>(
            (others, rest),
        )) by {
            match many_parsed(next, less, object_parser::<C>(format)) {
                Ok((more, _)) => {
                    assert((seq![first] + more).drop_first() =~= more);
                },
                Err(_) => {},
            }
        }
        law_objects_are_parsed_where_they_lie::<C>(next, less, format, others, rest);
        assert(count * length == less * length + length) by (nonlinear_arith)
            requires
                less == count - 1,
        ;
        assert(rest =~= input.skip((count * length) as int));
        assert forall|i: int| 0 <= i < count implies C::decoded(
            input.subrange(i * length, i * length + length),
            format,
        ) == Some(#[trigger] reprs[i]) by {
            if i == 0 {
                assert(input.subrange(0, length as int) =~= input.take(length as int));
            } else {
                assert(others[i - 1] == reprs[i]);
                assert(i * length + length <= count * length) by (nonlinear_arith)
                    requires
                        0 <= i < count,
                ;
                lemma_later_runs(input, length, i);
            }
        }
    }
}

/// Objects that are all there, and of which each is one, are parsed, however many
/// they are.
pub proof fn law_objects_that_are_there_are_parsed<C: ProcessedSerdeObject>(
    input: Seq<u8>,
    count: nat,
    format: SerdeFormat,
)
    requires
        count * C::spec_byte_length(format) <= input.len(),
        forall|i: int|
            0 <= i < count ==> (#[trigger] C::decoded(
                input.subrange(
                    i * C::spec_byte_length(format),
                    i * C::spec_byte_length(format) + C::spec_byte_length(format),
                ),
                format,
            )) is Some,
    ensures
        many_parsed(input, count, object_parser::<C>(format)) is Ok,
    decreases count,
{
    let length = C::spec_byte_length(format);
    if count > 0 {
        let next = input.skip(length as int);
        let less = (count - 1) as nat;
        assert(0 * length == 0) by (nonlinear_arith);
        assert(count * length == less * length + length && 0 <= less * length) by (nonlinear_arith)
            requires
                less == count - 1,
        ;
        let start: int = 0;
        assert(C::decoded(
            input.subrange(start * length, start * length + length),
            format,
        ) is Some);
        assert(input.subrange(start * length, start * length + length) =~= input.take(
            length as int,
        ));
        assert forall|i: int| 0 <= i < less implies (#[trigger] C::decoded(
            next.subrange(i * length, i * length + length),
            format,
        )) is Some by {
            let j = i + 1;
            assert(j * length + length <= count * length) by (nonlinear_arith)
                requires
                    0 <= j < count,
            ;
            lemma_later_runs(input, length, j);
            assert(C::decoded(input.subrange(j * length, j * length + length), format) is Some);
        }
        law_objects_that_are_there_are_parsed::<C>(next, less, format);
    }
}

/// The first object that is not there decides why there are none: it is cut off, or
/// its bytes encode no object.
pub proof fn law_the_first_missing_object_decides<C: ProcessedSerdeObject>(
    input: Seq<u8>,
    count: nat,
    format: SerdeFormat,
    at: int,
)
    requires
        0 <= at < count,
        at * C::spec_byte_length(format) <= input.len(),
        forall|i: int|
            0 <= i < at ==> (#[trigger] C::decoded(
                input.subrange(
                    i * C::spec_byte_length(format),
                    i * C::spec_byte_length(format) + C::spec_byte_length(format),
                ),
                format,
            )) is Some,
    ensures
        at * C::spec_byte_length(format) + C::spec_byte_length(format) > input.len()
            ==> many_parsed(input, count, object_parser::<C>(format)) == Err::<
            (Seq<Seq<u8>>, Seq<u8>),
            ReadError,
        >(ReadError::UnexpectedEof),
        at * C::spec_byte_length(format) + C::spec_byte_length(format) <= input.len() && C::decoded(
            input.subrange(
                at * C::spec_byte_length(format),
                at * C::spec_byte_length(format) + C::spec_byte_length(format),
            ),
            format,
        ) is None ==> many_parsed(input, count, object_parser::<C>(format)) == Err::<
            (Seq<Seq<u8>>, Seq<u8>),
            ReadError,
        >(C::spec_rejection()),
    decreases at,
{
    let length = C::spec_byte_length(format);
    let next = input.skip(length as int);
    let less = (count - 1) as nat;
    let start: int = 0;
    assert(start * length == 0) by (nonlinear_arith)
        requires
            start == 0,
    ;
    assert(length <= input.len() ==> input.subrange(start * length, start * length + length)
        =~= input.take(length as int));
    if at > 0 {
        let before = at - 1;
        assert(at * length == before * length + length && 0 <= before * length) by (nonlinear_arith)
            requires
                before == at - 1,
                0 <= before,
        ;
        assert(C::decoded(
            input.subrange(start * length, start * length + length),
            format,
        ) is Some);
        assert forall|i: int| 0 <= i < before implies (#[trigger] C::decoded(
            next.subrange(i * length, i * length + length),
            format,
        )) is Some by {
            let j = i + 1;
            assert(j * length + length <= at * length) by (nonlinear_arith)
                requires
                    0 <= j < at,
            ;
            lemma_later_runs(input, length, j);
            assert(C::decoded(input.subrange(j * length, j * length + length), format) is Some);
        }
        if at * length + length <= input.len() {
            lemma_later_runs(input, length, at);
        }
        law_the_first_missing_object_decides::<C>(next, less, format, before);
    }
}

/// Items are parsed one after the other, each where the one before it ended: there
/// are as many as were asked for, and what the last one leaves is left. The places
/// where they start, and the end, are handed back.
pub proof fn law_items_are_parsed_one_after_the_other<T>(
    input: Seq<u8>,
    count: nat,
    parse: spec_fn(Seq<u8>) -> Parsed<T>,
    items: Seq<T>,
    rest: Seq<u8>,
) -> (stops: Seq<Seq<u8>>)
    requires
        many_parsed(input, count, parse) == Ok::<_, ReadError>((items, rest)),
    ensures
        items.len() == count,
        stops.len() == count + 1,
        stops.first() == input,
        stops.last() == rest,
        forall|i: int|
            0 <= i < count ==> parse(stops[i]) == Ok::<_, ReadError>(
                (#[trigger] items[i], stops[i + 1]),
            ),
    decreases count,
{
    if count == 0 {
        seq![input]
    } else {
        let next = parse(input)->Ok_0.1;
        let less = (count - 1) as nat;
        let others = items.drop_first();
        assert(many_parsed(next, less, parse) == Ok::<_, ReadError>((others, rest))) by {
            match many_parsed(next, less, parse) {
                Ok((more, _)) => {
                    assert((seq![parse(input)->Ok_0.0] + more).drop_first() =~= more);
                },
                Err(_) => {},
            }
        }
        let later = law_items_are_parsed_one_after_the_other(next, less, parse, others, rest);
        let stops = seq![input] + later;
        assert forall|i: int| 0 <= i < count implies parse(stops[i]) == Ok::<_, ReadError>(
            (#[trigger] items[i], stops[i + 1]),
        ) by {
            if i > 0 {
                assert(others[i - 1] == items[i]);
                assert(stops[i] == later[i - 1] && stops[i + 1] == later[i]);
            } else {
                assert(stops[1] == later[0]);
            }
        }
        assert(stops.last() == later.last());
        stops
    }
}

/// When items cannot be parsed, it is one of them that cannot: those before it are
/// parsed one after the other, and its error is the error. The places where they
/// start are handed back.
pub proof fn law_the_first_item_that_cannot_be_parsed_decides<T>(
    input: Seq<u8>,
    count: nat,
    parse: spec_fn(Seq<u8>) -> Parsed<T>,
    error: ReadError,
) -> (stops: Seq<Seq<u8>>)
    requires
        many_parsed(input, count, parse) == Err::<(Seq<T>, Seq<u8>), ReadError>(error),
    ensures
        0 < stops.len() <= count,
        stops.first() == input,
        forall|i: int|
            0 <= i < stops.len() - 1 ==> (#[trigger] parse(stops[i]) matches Ok((_, next)) && next
                == stops[i + 1]),
        parse(stops.last()) == Err::<(T, Seq<u8>), ReadError>(error),
    decreases count,
{
    match parse(input) {
        Err(_) => seq![input],
        Ok((_, next)) => {
            let later = law_the_first_item_that_cannot_be_parsed_decides(
                next,
                (count - 1) as nat,
                parse,
                error,
            );
            let stops = seq![input] + later;
            assert forall|i: int| 0 <= i < stops.len() - 1 implies (#[trigger] parse(
                stops[i],
            ) matches Ok((_, next)) && next == stops[i + 1]) by {
                if i > 0 {
                    assert(stops[i] == later[i - 1] && stops[i + 1] == later[i]);
                    assert(parse(later[i - 1]) is Ok);
                } else {
                    assert(stops[1] == later[0]);
                }
            }
            assert(stops.last() == later.last());
            stops
        },
    }
}

/// A batch is written as the number of its polynomials and then each of them, and a
/// polynomial as the number of its values and then each of them: one more polynomial
/// at the end adds its own bytes at the end, and changes nothing but the count.
pub proof fn law_a_batch_is_written_row_by_row<F: ProcessedSerdeObject>(
    rows: Seq<Seq<Seq<u8>>>,
    row: Seq<Seq<u8>>,
    format: SerdeFormat,
)
    ensures
        batch_encoded::<F>(rows, format).len() >= 4,
        batch_encoded::<F>(rows, format).take(4) == u32_bytes(rows.len()),
        batch_encoded::<F>(Seq::<Seq<Seq<u8>>>::empty(), format).len() == 4,
        batch_encoded::<F>(rows.push(row), format).skip(4) == batch_encoded::<F>(rows, format).skip(
            4,
        ) + u32_bytes(row.len()) + many_encoded(row, |repr: Seq<u8>| F::encoded(repr, format)),
{
    let encode = row_encoder::<F>(format);
    let none = Seq::<Seq<Seq<u8>>>::empty();
    assert(batch_encoded::<F>(rows, format).take(4) =~= u32_bytes(rows.len()));
    assert(batch_encoded::<F>(none, format) =~= u32_bytes(0));
    lemma_encoded_push(rows, row, encode);
    assert(object_encoder::<F>(format) =~= (|repr: Seq<u8>| F::encoded(repr, format)));
    assert(batch_encoded::<F>(rows, format).skip(4) =~= many_encoded(rows, encode));
    assert(batch_encoded::<F>(rows.push(row), format).skip(4) =~= many_encoded(
        rows.push(row),
        encode,
    ));
    assert(batch_encoded::<F>(rows.push(row), format).skip(4) =~= batch_encoded::<F>(
        rows,
        format,
    ).skip(4) + u32_bytes(row.len()) + many_encoded(
        row,
        |repr: Seq<u8>| F::encoded(repr, format),
    ));
}

/// A polynomial that is parsed has as many values as its count says, each of them is
/// what its own bytes encode, and the bytes after them are left.
pub proof fn law_a_polynomial_is_parsed_where_it_lies<F: ProcessedSerdeObject>(
    input: Seq<u8>,
    format: SerdeFormat,
    row: Seq<Seq<u8>>,
    rest: Seq<u8>,
)
    requires
        row_parser::<F>(format)(input) == Ok::<_, ReadError>((row, rest)),
    ensures
        input.len() >= 4,
        row.len() == input[0] + 256 * input[1] + 65536 * input[2] + 16777216 * input[3],
        row.len() * F::spec_byte_length(format) <= input.skip(4).len(),
        rest == input.skip(4).skip((row.len() * F::spec_byte_length(format)) as int),
        forall|i: int|
            0 <= i < row.len() ==> F::decoded(
                input.skip(4).subrange(
                    i * F::spec_byte_length(format),
                    i * F::spec_byte_length(format) + F::spec_byte_length(format),
                ),
                format,
            ) == Some(#[trigger] row[i]),
{
    law_a_count_is_four_bytes(input);
    let count = count_parsed(input)->Ok_0.0;
    law_objects_are_parsed_where_they_lie::<F>(input.skip(4), count, format, row, rest);
}

/// A batch that is parsed has as many polynomials as its count says, each starts
/// where the one before it ends, and the bytes after the last one are left. The
/// places where they start, and the end, are handed back.
pub proof fn law_a_batch_is_parsed_row_by_row<F: ProcessedSerdeObject>(
    input: Seq<u8>,
    format: SerdeFormat,
    rows: Seq<Seq<Seq<u8>>>,
    rest: Seq<u8>,
) -> (stops: Seq<Seq<u8>>)
    requires
        batch_parsed::<F>(input, format) == Ok::<_, ReadError>((rows, rest)),
    ensures
        input.len() >= 4,
        rows.len() == input[0] + 256 * input[1] + 65536 * input[2] + 16777216 * input[3],
        stops.len() == rows.len() + 1,
        stops.first() == input.skip(4),
        stops.last() == rest,
        forall|i: int|
            0 <= i < rows.len() ==> row_parser::<F>(format)(stops[i]) == Ok::<_, ReadError>(
                (#[trigger] rows[i], stops[i + 1]),
            ),
{
    law_a_count_is_four_bytes(input);
    let count = count_parsed(input)->Ok_0.0;
    law_items_are_parsed_one_after_the_other(
        input.skip(4),
        count,
        row_parser::<F>(format),
        rows,
        rest,
    )
}

/// A batch takes four bytes for its count, and each polynomial four for its own and
/// as many as its values take.
pub proof fn law_a_batch_is_as_long_as_its_rows(lengths: Seq<nat>, length: nat, value_length: nat)
    ensures
        batch_length(Seq::<nat>::empty(), value_length) == 4,
        batch_length(lengths.push(length), value_length) == batch_length(lengths, value_length) + 4
            + length * value_length,
{
    assert(lengths.push(length).drop_last() =~= lengths);
}

/// Polynomials and batches start with a count, and nothing but the count says how
/// many items follow it. Without four bytes there is no count.
pub proof fn law_the_count_says_how_many_follow<F: ProcessedSerdeObject>(
    input: Seq<u8>,
    format: SerdeFormat,
)
    ensures
        input.len() < 4 ==> row_parser::<F>(format)(input) == Err::<
            (Seq<Seq<u8>>, Seq<u8>),
            ReadError,
        >(ReadError::UnexpectedEof),
        input.len() < 4 ==> batch_parsed::<F>(input, format) == Err::<
            (Seq<Seq<Seq<u8>>>, Seq<u8>),
            ReadError,
        >(ReadError::UnexpectedEof),
        input.len() >= 4 ==> row_parser::<F>(format)(input) == many_parsed(
            input.skip(4),
            (input[0] + 256 * input[1] + 65536 * input[2] + 16777216 * input[3]) as nat,
            object_parser::<F>(format),
        ),
        input.len() >= 4 ==> batch_parsed::<F>(input, format) == many_parsed(
            input.skip(4),
            (input[0] + 256 * input[1] + 65536 * input[2] + 16777216 * input[3]) as nat,
            row_parser::<F>(format),
        ),
{
    law_a_count_is_four_bytes(input);
}

} // verus!
