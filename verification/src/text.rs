//! Reading and writing numbers and words, byte by byte.

use vstd::prelude::*;
use vstd::string::StringExecFns;

verus! {

/// The byte of a new line.
pub const NEWLINE: u8 = 10;

/// The byte of a colon.
pub const COLON: u8 = 58;

/// The byte of a dot.
pub const DOT: u8 = 46;

/// The byte of a plus sign.
pub const PLUS: u8 = 43;

/// The byte of the digit zero.
pub const ZERO: u8 = 48;

/// The byte of the digit nine.
pub const NINE: u8 = 57;

/// Why a run of bytes does not spell a number.
#[derive(Clone, Copy, Debug, PartialEq, Eq, Structural)]
pub enum ParseFailure {
    /// There is nothing to read.
    Empty,
    /// There is a byte that is no digit, or a sign with nothing behind it.
    InvalidDigit,
    /// The number does not fit in 32 bits.
    Overflow,
}

/// Whether `byte` is a decimal digit.
pub open spec fn is_digit(byte: u8) -> bool {
    ZERO <= byte <= NINE
}

/// The number that `digits` spell in base ten.
pub open spec fn decimal(digits: Seq<u8>) -> int
    decreases digits.len(),
{
    if digits.len() == 0 {
        0
    } else {
        decimal(digits.drop_last()) * 10 + (digits.last() - ZERO)
    }
}

/// `field` without its sign, if it begins with a plus sign.
pub open spec fn unsigned(field: Seq<u8>) -> Seq<u8> {
    if field.len() > 0 && field[0] == PLUS {
        field.skip(1)
    } else {
        field
    }
}

/// What reading `digits` from place `at` on gives, when the places before
/// `at` hold digits that spell a number of 32 bits: the number that all of
/// `digits` spell, or the failure at the first place that holds no digit or
/// takes the number beyond 32 bits.
pub open spec fn digits_from(digits: Seq<u8>, at: int) -> Result<u32, ParseFailure>
    decreases digits.len() - at,
{
    if at < 0 || at >= digits.len() {
        Ok(decimal(digits) as u32)
    } else if !is_digit(digits[at]) {
        Err(ParseFailure::InvalidDigit)
    } else if decimal(digits.take(at + 1)) > u32::MAX {
        Err(ParseFailure::Overflow)
    } else {
        digits_from(digits, at + 1)
    }
}

/// The number that `field` spells: an optional plus sign, then one or more
/// decimal digits and nothing else, of a value that fits in 32 bits.
pub open spec fn number(field: Seq<u8>) -> Result<u32, ParseFailure> {
    if field.len() == 0 {
        Err(ParseFailure::Empty)
    } else if unsigned(field).len() == 0 {
        Err(ParseFailure::InvalidDigit)
    } else {
        digits_from(unsigned(field), 0)
    }
}

/// A field spells a number exactly if it is, behind an optional plus sign,
/// a run of one or more digits whose value fits in 32 bits; the number is
/// that value.
pub proof fn lemma_number_is_decimal(field: Seq<u8>)
    ensures
        number(field) is Ok <==> unsigned(field).len() > 0 && (forall|i: int|
            0 <= i < unsigned(field).len() ==> is_digit(#[trigger] unsigned(field)[i])) && decimal(
            unsigned(field),
        ) <= u32::MAX,
        number(field) is Ok ==> number(field)->Ok_0 == decimal(unsigned(field)),
{
    let digits = unsigned(field);
    if field.len() > 0 && digits.len() > 0 {
        lemma_digits_from(digits, 0);
        if forall|i: int| 0 <= i < digits.len() ==> is_digit(#[trigger] digits[i]) {
            lemma_decimal_is_natural(digits);
        }
    }
}

/// What `digits_from` gives, place by place.
proof fn lemma_digits_from(digits: Seq<u8>, at: int)
    requires
        0 <= at <= digits.len(),
        forall|i: int| 0 <= i < at ==> is_digit(#[trigger] digits[i]),
        decimal(digits.take(at)) <= u32::MAX,
    ensures
        digits_from(digits, at) is Ok <==> (forall|i: int|
            0 <= i < digits.len() ==> is_digit(#[trigger] digits[i])) && decimal(digits)
            <= u32::MAX,
        digits_from(digits, at) is Ok ==> digits_from(digits, at)->Ok_0 == decimal(digits),
    decreases digits.len() - at,
{
    if at == digits.len() {
        assert(digits.take(at) =~= digits);
        lemma_decimal_is_natural(digits);
    } else if !is_digit(digits[at]) {
    } else if decimal(digits.take(at + 1)) > u32::MAX {
        if forall|i: int| 0 <= i < digits.len() ==> is_digit(#[trigger] digits[i]) {
            lemma_decimal_grows(digits, at + 1);
        }
    } else {
        lemma_digits_from(digits, at + 1);
    }
}

/// A longer run of digits spells no smaller number than its beginning.
pub proof fn lemma_decimal_grows(digits: Seq<u8>, len: int)
    requires
        0 <= len <= digits.len(),
        forall|i: int| 0 <= i < digits.len() ==> is_digit(#[trigger] digits[i]),
    ensures
        0 <= decimal(digits.take(len)) <= decimal(digits),
    decreases digits.len() - len,
{
    if len == digits.len() {
        assert(digits.take(len) =~= digits);
        lemma_decimal_is_natural(digits);
    } else {
        lemma_decimal_grows(digits, len + 1);
        let longer = digits.take(len + 1);
        assert(longer.drop_last() =~= digits.take(len));
        assert(is_digit(longer[len]));
        lemma_decimal_is_natural(digits.take(len));
    }
}

/// A run of digits spells a number that is not negative.
pub proof fn lemma_decimal_is_natural(digits: Seq<u8>)
    requires
        forall|i: int| 0 <= i < digits.len() ==> is_digit(#[trigger] digits[i]),
    ensures
        0 <= decimal(digits),
    decreases digits.len(),
{
    if digits.len() > 0 {
        lemma_decimal_is_natural(digits.drop_last());
        assert(is_digit(digits[digits.len() - 1]));
    }
}

/// Reads the bytes of `bytes` from `start` up to `end` as a number.
pub fn parse_number(bytes: &[u8], start: usize, end: usize) -> (value: Result<u32, ParseFailure>)
    requires
        start <= end <= bytes@.len(),
    ensures
        value == number(bytes@.subrange(start as int, end as int)),
{
    let ghost field = bytes@.subrange(start as int, end as int);
    if start == end {
        return Err(ParseFailure::Empty);
    }
    let mut at: usize = start;
    if bytes[at] == PLUS {
        at = at + 1;
    }
    let ghost digits = unsigned(field);
    assert(digits =~= bytes@.subrange(at as int, end as int));
    if at == end {
        return Err(ParseFailure::InvalidDigit);
    }
    let first = at;
    let mut total: u64 = 0;
    assert(number(field) == digits_from(digits, 0));
    while at < end
        invariant
            first <= at <= end <= bytes@.len(),
            start <= end,
            digits == bytes@.subrange(first as int, end as int),
            total == decimal(digits.take(at - first)),
            total <= u32::MAX,
            number(bytes@.subrange(start as int, end as int)) == digits_from(digits, at - first),
        decreases end - at,
    {
        let byte = bytes[at];
        if byte < ZERO || byte > NINE {
            return Err(ParseFailure::InvalidDigit);
        }
        let ghost longer = digits.take(at - first + 1);
        assert(longer.drop_last() =~= digits.take(at - first));
        assert(longer.last() == byte);
        total = total * 10 + (byte - ZERO) as u64;
        if total > u32::MAX as u64 {
            return Err(ParseFailure::Overflow);
        }
        at = at + 1;
    }
    assert(digits.take(at - first) =~= digits);
    Ok(total as u32)
}

/// The first place from `start` on and before `end` at which `bytes` holds
/// `byte`; `end` if there is none.
pub open spec fn position_of(bytes: Seq<u8>, byte: u8, start: int, end: int) -> int
    decreases end - start,
{
    if start >= end || start < 0 || start >= bytes.len() {
        end
    } else if bytes[start] == byte {
        start
    } else {
        position_of(bytes, byte, start + 1, end)
    }
}

/// `position_of` answers with a place from `start` up to `end`.
pub proof fn lemma_position_bounds(bytes: Seq<u8>, byte: u8, start: int, end: int)
    requires
        start <= end,
    ensures
        start <= position_of(bytes, byte, start, end) <= end,
    decreases end - start,
{
    if start >= end || start < 0 || start >= bytes.len() {
    } else if bytes[start] == byte {
    } else {
        lemma_position_bounds(bytes, byte, start + 1, end);
    }
}

/// Looks for `byte` in `bytes` from `start` on and before `end`.
pub fn find_byte(bytes: &[u8], byte: u8, start: usize, end: usize) -> (at: usize)
    requires
        start <= end <= bytes@.len(),
    ensures
        at == position_of(bytes@, byte, start as int, end as int),
        start <= at <= end,
        at < end ==> bytes@[at as int] == byte,
        forall|i: int| start <= i < at ==> bytes@[i] != byte,
{
    let mut at: usize = start;
    while at < end && bytes[at] != byte
        invariant
            start <= at <= end <= bytes@.len(),
            position_of(bytes@, byte, at as int, end as int) == position_of(
                bytes@,
                byte,
                start as int,
                end as int,
            ),
            forall|i: int| start <= i < at ==> bytes@[i] != byte,
        decreases end - at,
    {
        at = at + 1;
    }
    at
}

/// Whether `word` stands in `bytes` at place `at`.
pub open spec fn occurs_at(bytes: Seq<u8>, word: Seq<u8>, at: int) -> bool {
    &&& 0 <= at
    &&& at + word.len() <= bytes.len()
    &&& bytes.subrange(at, at + word.len()) == word
}

/// Whether `word` stands somewhere in `bytes`.
pub open spec fn contains_word(bytes: Seq<u8>, word: Seq<u8>) -> bool {
    exists|at: int| occurs_at(bytes, word, at)
}

/// Whether `word` stands in `bytes` at place `at` and ends before `end`.
fn stands_at(bytes: &[u8], word: &[u8], at: usize, end: usize) -> (found: bool)
    requires
        at <= end <= bytes@.len(),
    ensures
        found == occurs_at(bytes@.subrange(0, end as int), word@, at as int),
{
    if word.len() > end - at {
        return false;
    }
    let ghost line = bytes@.subrange(0, end as int);
    let mut k: usize = 0;
    while k < word.len()
        invariant
            k <= word@.len(),
            at + word@.len() <= end <= bytes@.len(),
            line == bytes@.subrange(0, end as int),
            forall|i: int| 0 <= i < k ==> bytes@[at + i] == word@[i],
        decreases word@.len() - k,
    {
        if bytes[at + k] != word[k] {
            assert(line.subrange(at as int, at + word@.len())[k as int] != word@[k as int]);
            return false;
        }
        k = k + 1;
    }
    assert(line.subrange(at as int, at + word@.len()) =~= word@);
    true
}

/// Whether `word` stands somewhere in the bytes of `bytes` from `start` up to
/// `end`.
pub fn has_word(bytes: &[u8], word: &[u8], start: usize, end: usize) -> (found: bool)
    requires
        start <= end <= bytes@.len(),
    ensures
        found == contains_word(bytes@.subrange(start as int, end as int), word@),
{
    let ghost line = bytes@.subrange(start as int, end as int);
    let mut at: usize = start;
    loop
        invariant
            start <= at <= end <= bytes@.len(),
            line == bytes@.subrange(start as int, end as int),
            forall|i: int| 0 <= i < at - start ==> !occurs_at(line, word@, i),
        ensures
            forall|i: int| 0 <= i <= end - start ==> !occurs_at(line, word@, i),
        decreases end - at,
    {
        if stands_at(bytes, word, at, end) {
            assert(bytes@.subrange(0, end as int).subrange(at as int, at + word@.len())
                =~= line.subrange(at - start, at - start + word@.len()));
            assert(occurs_at(line, word@, at - start));
            return true;
        }
        proof {
            if occurs_at(line, word@, at - start) {
                assert(bytes@.subrange(0, end as int).subrange(at as int, at + word@.len())
                    =~= line.subrange(at - start, at - start + word@.len()));
            }
        }
        if at >= end {
            break ;
        }
        at = at + 1;
    }
    assert forall|i: int| !occurs_at(line, word@, i) by {
        if occurs_at(line, word@, i) {
            assert(i <= end - start);
        }
    }
    false
}

/// The width in bytes of the white space that begins at place `at` of
/// `bytes` and ends before `end`: zero if none does.  White space is what
/// Unicode calls so, in UTF-8: tab to carriage return, space, next line,
/// no-break space, and the spaces of the general punctuation and CJK blocks.
pub open spec fn space_width(bytes: Seq<u8>, at: int, end: int) -> int {
    if at < 0 || end > bytes.len() || at >= end {
        0
    } else if bytes[at] == 0x20 || (0x09 <= bytes[at] <= 0x0d) {
        1
    } else if at + 2 <= end && bytes[at] == 0xc2 && (bytes[at + 1] == 0x85 || bytes[at + 1]
        == 0xa0) {
        2
    } else if at + 3 <= end && wide_space(bytes[at], bytes[at + 1], bytes[at + 2]) {
        3
    } else {
        0
    }
}

/// Whether three bytes are one of the white spaces that take three bytes.
pub open spec fn wide_space(first: u8, second: u8, third: u8) -> bool {
    ||| first == 0xe1 && second == 0x9a && third == 0x80
    ||| first == 0xe2 && second == 0x80 && (0x80 <= third <= 0x8a || third == 0xa8 || third
        == 0xa9 || third == 0xaf)
    ||| first == 0xe2 && second == 0x81 && third == 0x9f
    ||| first == 0xe3 && second == 0x80 && third == 0x80
}

/// The width in bytes of the white space that ends at place `end` of `bytes`
/// and begins at `start` or later: zero if none does.
pub open spec fn space_width_back(bytes: Seq<u8>, start: int, end: int) -> int {
    if start < 0 || end > bytes.len() || start >= end {
        0
    } else if bytes[end - 1] == 0x20 || (0x09 <= bytes[end - 1] <= 0x0d) {
        1
    } else if start + 2 <= end && bytes[end - 2] == 0xc2 && (bytes[end - 1] == 0x85 || bytes[end
        - 1] == 0xa0) {
        2
    } else if start + 3 <= end && wide_space(bytes[end - 3], bytes[end - 2], bytes[end - 1]) {
        3
    } else {
        0
    }
}

/// Where the bytes from `start` up to `end` begin once the white space in
/// front of them is taken away.
pub open spec fn trimmed_start(bytes: Seq<u8>, start: int, end: int) -> int
    decreases end - start,
{
    if space_width(bytes, start, end) > 0 {
        trimmed_start(bytes, start + space_width(bytes, start, end), end)
    } else {
        start
    }
}

/// Where the bytes from `start` up to `end` end once the white space behind
/// them is taken away.
pub open spec fn trimmed_end(bytes: Seq<u8>, start: int, end: int) -> int
    decreases end - start,
{
    if space_width_back(bytes, start, end) > 0 {
        trimmed_end(bytes, start, end - space_width_back(bytes, start, end))
    } else {
        end
    }
}

fn is_wide_space(first: u8, second: u8, third: u8) -> (wide: bool)
    ensures
        wide == wide_space(first, second, third),
{
    (first == 0xe1 && second == 0x9a && third == 0x80) || (first == 0xe2 && second == 0x80 && ((
    0x80 <= third && third <= 0x8a) || third == 0xa8 || third == 0xa9 || third == 0xaf)) || (first
        == 0xe2 && second == 0x81 && third == 0x9f) || (first == 0xe3 && second == 0x80 && third
        == 0x80)
}

fn is_narrow_space(byte: u8) -> (narrow: bool)
    ensures
        narrow == (byte == 0x20 || (0x09 <= byte <= 0x0d)),
{
    byte == 0x20 || (0x09 <= byte && byte <= 0x0d)
}

/// Takes the white space in front of and behind the bytes from `start` up to
/// `end` away: returns where what is left begins and ends.
pub fn trim(bytes: &[u8], start: usize, end: usize) -> (r: (usize, usize))
    requires
        start <= end <= bytes@.len(),
    ensures
        r.0 == trimmed_start(bytes@, start as int, end as int),
        r.1 == trimmed_end(bytes@, r.0 as int, end as int),
        start <= r.0 <= r.1 <= end,
{
    let mut from: usize = start;
    loop
        invariant
            start <= from <= end <= bytes@.len(),
            trimmed_start(bytes@, from as int, end as int) == trimmed_start(
                bytes@,
                start as int,
                end as int,
            ),
        ensures
            space_width(bytes@, from as int, end as int) == 0,
        decreases end - from,
    {
        if from >= end {
            break ;
        }
        if is_narrow_space(bytes[from]) {
            from = from + 1;
        } else if end - from >= 2 && bytes[from] == 0xc2 && (bytes[from + 1] == 0x85 || bytes[from
            + 1] == 0xa0) {
            from = from + 2;
        } else if end - from >= 3 && is_wide_space(bytes[from], bytes[from + 1], bytes[from + 2]) {
            from = from + 3;
        } else {
            break ;
        }
    }
    let mut to: usize = end;
    loop
        invariant
            from <= to <= end <= bytes@.len(),
            trimmed_end(bytes@, from as int, to as int) == trimmed_end(
                bytes@,
                from as int,
                end as int,
            ),
        ensures
            space_width_back(bytes@, from as int, to as int) == 0,
        decreases to - from,
    {
        if from >= to {
            break ;
        }
        if is_narrow_space(bytes[to - 1]) {
            to = to - 1;
        } else if to - from >= 2 && bytes[to - 2] == 0xc2 && (bytes[to - 1] == 0x85 || bytes[to - 1]
            == 0xa0) {
            to = to - 2;
        } else if to - from >= 3 && is_wide_space(bytes[to - 3], bytes[to - 2], bytes[to - 1]) {
            to = to - 3;
        } else {
            break ;
        }
    }
    (from, to)
}

/// The character of the decimal digit `digit`.
pub open spec fn digit_char(digit: int) -> char {
    if digit == 0 {
        '0'
    } else if digit == 1 {
        '1'
    } else if digit == 2 {
        '2'
    } else if digit == 3 {
        '3'
    } else if digit == 4 {
        '4'
    } else if digit == 5 {
        '5'
    } else if digit == 6 {
        '6'
    } else if digit == 7 {
        '7'
    } else if digit == 8 {
        '8'
    } else {
        '9'
    }
}

/// `n` written out in base ten, without leading zeros.
pub open spec fn decimal_digits(n: nat) -> Seq<char>
    decreases n,
{
    if n < 10 {
        seq![digit_char(n as int)]
    } else {
        decimal_digits(n / 10).push(digit_char((n % 10) as int))
    }
}

fn digit_text(digit: u64) -> (text: &'static str)
    requires
        digit < 10,
    ensures
        text@ == seq![digit_char(digit as int)],
{
    proof {
        reveal_strlit("0");
        reveal_strlit("1");
        reveal_strlit("2");
        reveal_strlit("3");
        reveal_strlit("4");
        reveal_strlit("5");
        reveal_strlit("6");
        reveal_strlit("7");
        reveal_strlit("8");
        reveal_strlit("9");
    }
    let text = if digit == 0 {
        "0"
    } else if digit == 1 {
        "1"
    } else if digit == 2 {
        "2"
    } else if digit == 3 {
        "3"
    } else if digit == 4 {
        "4"
    } else if digit == 5 {
        "5"
    } else if digit == 6 {
        "6"
    } else if digit == 7 {
        "7"
    } else if digit == 8 {
        "8"
    } else {
        "9"
    };
    assert(text@ =~= seq![digit_char(digit as int)]);
    text
}

/// Appends `n`, written out in base ten, to `text`.
pub fn push_decimal(text: &mut String, n: u64)
    ensures
        final(text)@ == old(text)@ + decimal_digits(n as nat),
    decreases n,
{
    if n >= 10 {
        push_decimal(text, n / 10);
    }
    text.append(digit_text(n % 10));
    assert(text@ =~= old(text)@ + decimal_digits(n as nat));
}

/// `n` written out in base ten, with a minus sign in front if it is
/// negative.
pub open spec fn signed_digits(n: int) -> Seq<char> {
    if n < 0 {
        seq!['-'] + decimal_digits((-n) as nat)
    } else {
        decimal_digits(n as nat)
    }
}

/// Appends `n`, written out in base ten, to `text`.
pub fn push_signed(text: &mut String, n: i32)
    ensures
        final(text)@ == old(text)@ + signed_digits(n as int),
{
    if n < 0 {
        proof {
            reveal_strlit("-");
        }
        text.append("-");
        assert("-"@ =~= seq!['-']);
        push_decimal(text, (-(n as i64)) as u64);
        assert(text@ =~= old(text)@ + signed_digits(n as int));
    } else {
        push_decimal(text, n as u64);
    }
}

/// `n` written out in base ten.
pub fn decimal_text(n: u64) -> (text: String)
    ensures
        text@ == decimal_digits(n as nat),
{
    let mut text = String::new();
    push_decimal(&mut text, n);
    assert(text@ =~= decimal_digits(n as nat));
    text
}

} // verus!
