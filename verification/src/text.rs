//! Decimal numerals and the other small pieces of text that messages are made of.
use vstd::prelude::*;

verus! {

/// The decimal numeral of `n`, without leading zeros.
pub open spec fn decimal(n: nat) -> Seq<char>
    decreases n,
{
    if n < 10 {
        seq![digit(n)]
    } else {
        decimal(n / 10).push(digit(n % 10))
    }
}

/// The character of a decimal digit.
pub open spec fn digit(d: nat) -> char {
    (('0' as int) + d) as char
}

/// Whether `text` holds `part` as a contiguous run of characters.
pub open spec fn contains_text(text: Seq<char>, part: Seq<char>) -> bool {
    exists|at: int|
        0 <= at <= text.len() - part.len() && #[trigger] text.subrange(at, at + part.len())
            == part
}

/// The text of one decimal digit.
fn digit_text(d: u64) -> (text: &'static str)
    requires
        d < 10,
    ensures
        text@ == seq![digit(d as nat)],
{
    proof {
        reveal_strlit("0");
        reveal_strlit("1");
        reveal_strlit("2");
        reveal_strlit("3");
        reveal_strlit("4");
        reveal_strlit("5");
        reveal_strlit("6");
        reveal_strlit("7");
        reveal_strlit("8");
        reveal_strlit("9");
    }
    let text = match d {
        0 => "0",
        1 => "1",
        2 => "2",
        3 => "3",
        4 => "4",
        5 => "5",
        6 => "6",
        7 => "7",
        8 => "8",
        _ => "9",
    };
    assert(text@ =~= seq![digit(d as nat)]);
    text
}

/// Writes `n` in decimal.
pub fn decimal_text(n: u64) -> (text: String)
    ensures
        text@ == decimal(n as nat),
    decreases n,
{
    if n < 10 {
        digit_text(n).to_owned()
    } else {
        let mut text = decimal_text(n / 10);
        text.append(digit_text(n % 10));
        assert(text@ =~= decimal((n / 10) as nat).push(digit((n % 10) as nat)));
        text
    }
}

/// Whether a character is a decimal digit.
pub open spec fn is_digit(c: char) -> bool {
    '0' <= c <= '9'
}

/// The number that a run of decimal digits stands for.
pub open spec fn numeral_value(digits: Seq<char>) -> nat
    decreases digits.len(),
{
    if digits.len() == 0 {
        0
    } else {
        (numeral_value(digits.drop_last()) * 10 + (digits.last() as int - '0' as int)) as nat
    }
}

/// The digits of a numeral that may start with a plus sign.
pub open spec fn unsigned_part(text: Seq<char>) -> Seq<char> {
    if text.len() > 0 && text[0] == '+' {
        text.drop_first()
    } else {
        text
    }
}

/// The `u32` that a text stands for: an optional plus sign and then at least one
/// digit, and nothing else, of a number that fits.
pub open spec fn u32_of_text(text: Seq<char>) -> Option<u32> {
    let digits = unsigned_part(text);
    if digits.len() == 0 || exists|i: int| 0 <= i < digits.len() && !is_digit(#[trigger] digits[i])
        || numeral_value(digits) > u32::MAX {
        None
    } else {
        Some(numeral_value(digits) as u32)
    }
}

/// More digits never make a smaller number.
proof fn lemma_numeral_grows(digits: Seq<char>, n: int)
    requires
        0 <= n <= digits.len(),
        forall|i: int| 0 <= i < digits.len() ==> is_digit(#[trigger] digits[i]),
    ensures
        numeral_value(digits.take(n)) <= numeral_value(digits),
    decreases digits.len() - n,
{
    if n == digits.len() {
        assert(digits.take(n) =~= digits);
    } else {
        lemma_numeral_grows(digits, n + 1);
        assert(digits.take(n + 1).drop_last() =~= digits.take(n));
        assert(is_digit(digits[n]));
    }
}

/// Reads a `u32` written in decimal.
pub fn parse_u32(text: &str) -> (parsed: Option<u32>)
    ensures
        parsed == u32_of_text(text@),
{
    if !text.is_ascii() {
        proof {
            let at = choose|i: int| 0 <= i < text@.len() && !(0 <= #[trigger] text@[i] < 128);
            let digits = unsigned_part(text@);
            if digits.len() < text@.len() {
                assert(digits[at - 1] == text@[at]);
            } else {
                assert(digits[at] == text@[at]);
            }
        }
        return None;
    }
    let n: usize = text.unicode_len();
    let start: usize = if n > 0 && text.get_ascii(0) == 43 {
        1
    } else {
        0
    };
    let ghost digits = unsigned_part(text@);
    if start == n {
        return None;
    }
    let mut value: u32 = 0;
    for i in start..n
        invariant
            text.is_ascii(),
            n == text@.len(),
            digits == unsigned_part(text@),
            digits.len() == n - start,
            start <= 1,
            start < n,
            forall|k: int| 0 <= k < digits.len() ==> #[trigger] digits[k] == text@[k + start],
            forall|k: int| 0 <= k < i - start ==> is_digit(#[trigger] digits[k]),
            value == numeral_value(digits.take(i - start)),
    {
        let c: u8 = text.get_ascii(i);
        assert(digits[i - start] == text@[i as int]);
        if c < 48 || c > 57 {
            assert(!is_digit(digits[i - start]));
            return None;
        }
        let next: u64 = value as u64 * 10 + (c - 48) as u64;
        assert(digits.take(i + 1 - start).drop_last() =~= digits.take(i - start));
        if next > u32::MAX as u64 {
            proof {
                if forall|k: int| 0 <= k < digits.len() ==> is_digit(#[trigger] digits[k]) {
                    lemma_numeral_grows(digits, i + 1 - start);
                }
            }
            return None;
        }
        value = next as u32;
    }
    assert(digits.take(n - start) =~= digits);
    Some(value)
}

/// `n` spaces.
pub open spec fn blanks(n: nat) -> Seq<char> {
    Seq::new(n, |i: int| ' ')
}

/// The spaces that bring a text of length `len` to `width`.
pub open spec fn padding(len: nat, width: nat) -> Seq<char> {
    if len < width {
        blanks((width - len) as nat)
    } else {
        Seq::empty()
    }
}

/// A text that spaces bring to at least `width` characters.
pub open spec fn padded_right(text: Seq<char>, width: nat) -> Seq<char> {
    text + padding(text.len(), width)
}

/// A text that spaces before it bring to at least `width` characters.
pub open spec fn padded_left(text: Seq<char>, width: nat) -> Seq<char> {
    padding(text.len(), width) + text
}

/// The spaces that bring a text to `width`.
fn padding_for(text: &str, width: usize) -> (spaces: String)
    ensures
        spaces@ == padding(text@.len(), width as nat),
{
    let mut spaces = "".to_owned();
    proof {
        reveal_strlit("");
        reveal_strlit(" ");
        assert(spaces@ =~= blanks(0));
    }
    let len: usize = text.unicode_len();
    let mut i: usize = len;
    while i < width
        invariant
            len <= i,
            len < width ==> i <= width,
            width <= len ==> i == len,
            spaces@ == blanks((i - len) as nat),
        decreases width - i,
    {
        proof {
            reveal_strlit(" ");
        }
        spaces.append(" ");
        assert(spaces@ =~= blanks((i + 1 - len) as nat));
        i = i + 1;
    }
    assert(spaces@ =~= padding(text@.len(), width as nat));
    spaces
}

/// Appends the spaces that bring a text to `width`.
pub fn pad_right(text: &str, width: usize) -> (padded: String)
    ensures
        padded@ == padded_right(text@, width as nat),
{
    let mut padded = text.to_owned();
    padded.append(padding_for(text, width).as_str());
    padded
}

/// Puts the spaces that bring a text to `width` before it.
pub fn pad_left(text: &str, width: usize) -> (padded: String)
    ensures
        padded@ == padded_left(text@, width as nat),
{
    let mut padded = padding_for(text, width);
    padded.append(text);
    padded
}

/// A digit at the end of a numeral counts once, and moves the others up by a power
/// of ten. No digits stand for nothing.
pub proof fn law_digits_count_by_their_place(digits: Seq<char>, last: char)
    requires
        '0' <= last <= '9',
    ensures
        numeral_value(Seq::<char>::empty()) == 0,
        numeral_value(digits.push(last)) == 10 * numeral_value(digits) + (last as int - '0' as int),
{
    assert(digits.push(last).drop_last() =~= digits);
}

/// The numeral of a number consists of digits, does not start with a zero unless it
/// is the only digit, and stands for the number. So different numbers have
/// different numerals.
pub proof fn law_numerals_stand_for_their_number(n: nat)
    ensures
        decimal(n).len() > 0,
        forall|i: int| 0 <= i < decimal(n).len() ==> '0' <= #[trigger] decimal(n)[i] <= '9',
        n > 0 ==> decimal(n)[0] != '0',
        n == 0 ==> decimal(n) == seq!['0'],
        numeral_value(decimal(n)) == n,
    decreases n,
{
    if n < 10 {
        reveal_with_fuel(numeral_value, 2);
        assert(decimal(n).drop_last() =~= Seq::<char>::empty());
    } else {
        law_numerals_stand_for_their_number(n / 10);
        law_digits_count_by_their_place(decimal(n / 10), digit(n % 10));
        assert forall|i: int| 0 <= i < decimal(n).len() implies '0' <= #[trigger] decimal(n)[i]
            <= '9' by {
            if i < decimal(n / 10).len() {
                assert(decimal(n)[i] == decimal(n / 10)[i]);
            }
        }
        assert(decimal(n)[0] == decimal(n / 10)[0]);
    }
}

/// Digits, with or without a plus sign before them, name the number that they stand
/// for if it fits.
pub proof fn lemma_digits_name_their_number(text: Seq<char>, digits: Seq<char>)
    requires
        digits.len() > 0,
        forall|i: int| 0 <= i < digits.len() ==> '0' <= #[trigger] digits[i] <= '9',
        text == digits || text == seq!['+'] + digits,
    ensures
        numeral_value(digits) <= 0xffff_ffff ==> u32_of_text(text) == Some(
            numeral_value(digits) as u32,
        ),
        numeral_value(digits) > 0xffff_ffff ==> u32_of_text(text) is None,
{
    if text == digits {
        assert(digits[0] != '+');
    } else {
        assert((seq!['+'] + digits).drop_first() =~= digits);
    }
}

/// A text that holds anything but digits, other than a plus sign at its front, names
/// no number.
pub proof fn lemma_other_texts_name_no_number(text: Seq<char>, at: int)
    requires
        0 <= at < text.len(),
        text[at] < '0' || text[at] > '9',
        at == 0 ==> text[at] != '+',
    ensures
        u32_of_text(text) is None,
{
    let digits = unsigned_part(text);
    if text[0] == '+' {
        assert(digits[at - 1] == text[at]);
        assert(!is_digit(digits[at - 1]));
    } else {
        assert(!is_digit(digits[at]));
    }
}

/// A text of digits, with or without a plus sign before them, is read as the number
/// that the digits stand for if it fits, and as nothing otherwise.
pub proof fn law_digits_are_read_as_their_number(text: &str, digits: Seq<char>, parsed: Option<u32>)
    requires
        digits.len() > 0,
        forall|i: int| 0 <= i < digits.len() ==> '0' <= #[trigger] digits[i] <= '9',
        text@ == digits || text@ == seq!['+'] + digits,
        call_ensures(parse_u32, (text,), parsed),
    ensures
        numeral_value(digits) <= 0xffff_ffff ==> parsed == Some(numeral_value(digits) as u32),
        numeral_value(digits) > 0xffff_ffff ==> parsed is None,
{
    lemma_digits_name_their_number(text@, digits);
}

/// Every number is read from the numeral that is written for it, and a number that
/// does not fit is not read as another.
pub proof fn law_numbers_read_back(n: u64, written: String, text: &str, parsed: Option<u32>)
    requires
        call_ensures(decimal_text, (n,), written),
        text@ == written@,
        call_ensures(parse_u32, (text,), parsed),
    ensures
        n <= 0xffff_ffff ==> parsed == Some(n as u32),
        n > 0xffff_ffff ==> parsed is None,
{
    law_numerals_stand_for_their_number(n as nat);
    law_digits_are_read_as_their_number(text, decimal(n as nat), parsed);
}

/// A text without any digit is no number, whether it has a sign or not.
pub proof fn law_no_digits_are_no_number(text: &str, parsed: Option<u32>)
    requires
        text@.len() == 0 || text@ == seq!['+'],
        call_ensures(parse_u32, (text,), parsed),
    ensures
        parsed is None,
{
}

/// A text that holds anything but digits, other than a plus sign at its front, is no
/// number.
pub proof fn law_other_texts_are_no_numbers(text: &str, at: int, parsed: Option<u32>)
    requires
        0 <= at < text@.len(),
        text@[at] < '0' || text@[at] > '9',
        at == 0 ==> text@[at] != '+',
        call_ensures(parse_u32, (text,), parsed),
    ensures
        parsed is None,
{
    lemma_other_texts_name_no_number(text@, at);
}

/// Padding never cuts a text: all of it is there, before or after as many spaces as
/// bring it to the width, and no more.
pub proof fn law_padding_keeps_the_text(text: &str, width: usize, right: String, left: String)
    requires
        call_ensures(pad_right, (text, width), right),
        call_ensures(pad_left, (text, width), left),
    ensures
        right@.len() == if text@.len() < width {
            width as nat
        } else {
            text@.len()
        },
        left@.len() == right@.len(),
        right@.take(text@.len() as int) == text@,
        forall|i: int| text@.len() <= i < right@.len() ==> #[trigger] right@[i] == ' ',
        left@.skip(left@.len() - text@.len()) == text@,
        forall|i: int| 0 <= i < left@.len() - text@.len() ==> #[trigger] left@[i] == ' ',
{
    assert(right@.take(text@.len() as int) =~= text@);
    assert(left@.skip(left@.len() - text@.len()) =~= text@);
}

} // verus!
