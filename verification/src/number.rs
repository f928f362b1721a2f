//! Decimal numbers in configuration text.
use vstd::prelude::*;

use crate::text::{chars_of, push_char};

verus! {

/// Why a piece of text is not the decimal number that was asked for.
#[derive(Debug, Clone, Copy, PartialEq, Eq, Structural)]
pub enum ParseIntError {
    /// There is nothing to read.
    Empty,
    /// A character that is not a digit.
    InvalidDigit,
    /// The value is above the largest number of the type.
    PosOverflow,
    /// The value is below the smallest number of the type.
    NegOverflow,
}

impl ParseIntError {
    /// The message of this error.
    pub open spec fn text(self) -> Seq<char> {
        match self {
            ParseIntError::Empty => "cannot parse integer from empty string"@,
            ParseIntError::InvalidDigit => "invalid digit found in string"@,
            ParseIntError::PosOverflow => "number too large to fit in target type"@,
            ParseIntError::NegOverflow => "number too small to fit in target type"@,
        }
    }

    /// The message of this error.
    pub fn message(&self) -> (text: String)
        ensures
            text@ == self.text(),
    {
        match self {
            ParseIntError::Empty => "cannot parse integer from empty string".to_owned(),
            ParseIntError::InvalidDigit => "invalid digit found in string".to_owned(),
            ParseIntError::PosOverflow => "number too large to fit in target type".to_owned(),
            ParseIntError::NegOverflow => "number too small to fit in target type".to_owned(),
        }
    }
}

/// Whether `c` is a decimal digit.
pub open spec fn is_digit(c: char) -> bool {
    '0' <= c && c <= '9'
}

/// The value of a decimal digit.
pub open spec fn digit_value(c: char) -> nat {
    (c as u32 - '0' as u32) as nat
}

/// Reads the digits of `s` left to right onto `value`, never going above `max`.
pub open spec fn read_digits(s: Seq<char>, value: nat, max: nat) -> Result<nat, ParseIntError>
    decreases s.len(),
{
    if s.len() == 0 {
        Ok(value)
    } else if !is_digit(s[0]) {
        Err(ParseIntError::InvalidDigit)
    } else if value * 10 + digit_value(s[0]) > max {
        Err(ParseIntError::PosOverflow)
    } else {
        read_digits(s.skip(1), value * 10 + digit_value(s[0]), max)
    }
}

/// The unsigned number that `s` spells: digits, with an optional `+` before them.
pub open spec fn unsigned_value(s: Seq<char>, max: nat) -> Result<nat, ParseIntError> {
    if s.len() == 0 {
        Err(ParseIntError::Empty)
    } else if s.len() == 1 && (s[0] == '+' || s[0] == '-') {
        Err(ParseIntError::InvalidDigit)
    } else if s[0] == '+' {
        read_digits(s.skip(1), 0, max)
    } else {
        read_digits(s, 0, max)
    }
}

/// The signed number that `s` spells: digits, with an optional `+` or `-` before them.
pub open spec fn signed_value(s: Seq<char>, max: nat) -> Result<int, ParseIntError> {
    if s.len() > 1 && s[0] == '-' {
        match read_digits(s.skip(1), 0, max + 1) {
            Ok(value) => Ok(-(value as int)),
            Err(ParseIntError::PosOverflow) => Err(ParseIntError::NegOverflow),
            Err(error) => Err(error),
        }
    } else {
        match unsigned_value(s, max) {
            Ok(value) => Ok(value as int),
            Err(error) => Err(error),
        }
    }
}

/// Reads the digits of `chars` from index `from` on.
fn read_number(chars: &Vec<char>, from: usize, max: u64) -> (result: Result<u64, ParseIntError>)
    requires
        from <= chars@.len(),
    ensures
        match result {
            Ok(value) => read_digits(chars@.skip(from as int), 0, max as nat) == Ok::<nat, ParseIntError>(
                value as nat,
            ),
            Err(error) => read_digits(chars@.skip(from as int), 0, max as nat) == Err::<
                nat,
                ParseIntError,
            >(error),
        },
{
    let mut i: usize = from;
    let mut value: u64 = 0;
    while i < chars.len()
        invariant
            from <= i <= chars@.len(),
            read_digits(chars@.skip(from as int), 0, max as nat) == read_digits(
                chars@.skip(i as int),
                value as nat,
                max as nat,
            ),
        decreases chars@.len() - i,
    {
        let c = chars[i];
        assert(chars@.skip(i as int)[0] == c);
        assert(chars@.skip(i as int).skip(1) =~= chars@.skip(i + 1));
        if !('0' <= c && c <= '9') {
            return Err(ParseIntError::InvalidDigit);
        }
        let digit: u64 = (c as u32 - '0' as u32) as u64;
        match value.checked_mul(10) {
            None => {
                return Err(ParseIntError::PosOverflow);
            },
            Some(scaled) => match scaled.checked_add(digit) {
                None => {
                    return Err(ParseIntError::PosOverflow);
                },
                Some(next) => {
                    if next > max {
                        return Err(ParseIntError::PosOverflow);
                    }
                    value = next;
                },
            },
        }
        i += 1;
    }
    Ok(value)
}

/// Reads an unsigned number of at most `max`.
pub fn parse_unsigned(text: &str, max: u64) -> (result: Result<u64, ParseIntError>)
    ensures
        match result {
            Ok(value) => unsigned_value(text@, max as nat) == Ok::<nat, ParseIntError>(value as nat),
            Err(error) => unsigned_value(text@, max as nat) == Err::<nat, ParseIntError>(error),
        },
{
    let chars = chars_of(text);
    if chars.len() == 0 {
        return Err(ParseIntError::Empty);
    }
    if chars.len() == 1 && (chars[0] == '+' || chars[0] == '-') {
        return Err(ParseIntError::InvalidDigit);
    }
    if chars[0] == '+' {
        read_number(&chars, 1, max)
    } else {
        assert(chars@.skip(0) =~= chars@);
        read_number(&chars, 0, max)
    }
}

/// Reads a `u8`.
pub fn parse_u8(text: &str) -> (result: Result<u8, ParseIntError>)
    ensures
        match result {
            Ok(value) => unsigned_value(text@, 0xff) == Ok::<nat, ParseIntError>(value as nat),
            Err(error) => unsigned_value(text@, 0xff) == Err::<nat, ParseIntError>(error),
        },
{
    proof {
        lemma_unsigned_bound(text@, 0xff);
    }
    match parse_unsigned(text, 0xff) {
        Ok(value) => Ok(value as u8),
        Err(error) => Err(error),
    }
}

/// Reads a `u16`.
pub fn parse_u16(text: &str) -> (result: Result<u16, ParseIntError>)
    ensures
        match result {
            Ok(value) => unsigned_value(text@, 0xffff) == Ok::<nat, ParseIntError>(value as nat),
            Err(error) => unsigned_value(text@, 0xffff) == Err::<nat, ParseIntError>(error),
        },
{
    proof {
        lemma_unsigned_bound(text@, 0xffff);
    }
    match parse_unsigned(text, 0xffff) {
        Ok(value) => Ok(value as u16),
        Err(error) => Err(error),
    }
}

/// Reads a `u64`.
pub fn parse_u64(text: &str) -> (result: Result<u64, ParseIntError>)
    ensures
        match result {
            Ok(value) => unsigned_value(text@, u64::MAX as nat) == Ok::<nat, ParseIntError>(
                value as nat,
            ),
            Err(error) => unsigned_value(text@, u64::MAX as nat) == Err::<nat, ParseIntError>(error),
        },
{
    parse_unsigned(text, u64::MAX)
}

/// Reads an `i32`.
pub fn parse_i32(text: &str) -> (result: Result<i32, ParseIntError>)
    ensures
        match result {
            Ok(value) => signed_value(text@, i32::MAX as nat) == Ok::<int, ParseIntError>(
                value as int,
            ),
            Err(error) => signed_value(text@, i32::MAX as nat) == Err::<int, ParseIntError>(error),
        },
{
    let chars = chars_of(text);
    if chars.len() > 1 && chars[0] == '-' {
        proof {
            lemma_digits_bound(chars@.skip(1), 0, 0x8000_0000);
        }
        match read_number(&chars, 1, 0x8000_0000) {
            Ok(value) => Ok((0 - value as i64) as i32),
            Err(ParseIntError::PosOverflow) => Err(ParseIntError::NegOverflow),
            Err(error) => Err(error),
        }
    } else {
        proof {
            lemma_unsigned_bound(text@, 0x7fff_ffff);
        }
        match parse_unsigned(text, 0x7fff_ffff) {
            Ok(value) => Ok(value as i32),
            Err(error) => Err(error),
        }
    }
}

proof fn lemma_digits_bound(s: Seq<char>, value: nat, max: nat)
    requires
        value <= max,
    ensures
        read_digits(s, value, max) matches Ok(result) ==> result <= max,
    decreases s.len(),
{
    if s.len() > 0 && is_digit(s[0]) && value * 10 + digit_value(s[0]) <= max {
        lemma_digits_bound(s.skip(1), value * 10 + digit_value(s[0]), max);
    }
}

proof fn lemma_unsigned_bound(s: Seq<char>, max: nat)
    ensures
        unsigned_value(s, max) matches Ok(result) ==> result <= max,
{
    if s.len() > 0 {
        lemma_digits_bound(s.skip(1), 0, max);
        lemma_digits_bound(s, 0, max);
    }
}

/// The digit character of a value below ten.
pub open spec fn digit_char(value: nat) -> char {
    ('0' as u32 + value) as char
}

/// The decimal digits of `n`, most significant first, without leading zeros.
pub open spec fn decimal(n: nat) -> Seq<char>
    decreases n,
{
    if n < 10 {
        seq![digit_char(n)]
    } else {
        decimal(n / 10).push(digit_char(n % 10))
    }
}

/// Writes `n` in decimal at the end of `text`.
pub fn push_decimal(text: &mut String, n: u64)
    ensures
        final(text)@ == old(text)@ + decimal(n as nat),
    decreases n,
{
    let ghost before = text@;
    if n >= 10 {
        push_decimal(text, n / 10);
    }
    let digit: u8 = (n % 10) as u8;
    let c: char = (48u8 + digit) as char;
    push_char(text, c);
    proof {
        assert(c == digit_char((n % 10) as nat));
        if n >= 10 {
            assert(text@ =~= before + decimal((n / 10) as nat).push(c));
        } else {
            assert(text@ =~= before + seq![c]);
        }
    }
}

/// `n` in decimal.
pub fn decimal_string(n: u64) -> (text: String)
    ensures
        text@ == decimal(n as nat),
{
    let mut text = String::new();
    push_decimal(&mut text, n);
    assert(Seq::<char>::empty() + decimal(n as nat) =~= decimal(n as nat));
    text
}

proof fn lemma_read_digits_append(s: Seq<char>, c: char, value: nat, max: nat)
    requires
        is_digit(c),
    ensures
        read_digits(s.push(c), value, max) == (match read_digits(s, value, max) {
            Ok(v) => if v * 10 + digit_value(c) > max {
                Err(ParseIntError::PosOverflow)
            } else {
                Ok((v * 10 + digit_value(c)) as nat)
            },
            Err(e) => Err(e),
        }),
    decreases s.len(),
{
    let t = s.push(c);
    if s.len() == 0 {
        assert(t.skip(1) =~= Seq::<char>::empty());
        assert(read_digits(t.skip(1), (value * 10 + digit_value(c)) as nat, max) == Ok::<nat, ParseIntError>(
            (value * 10 + digit_value(c)) as nat,
        ));
    } else {
        assert(t.skip(1) =~= s.skip(1).push(c));
        if is_digit(s[0]) && value * 10 + digit_value(s[0]) <= max {
            lemma_read_digits_append(s.skip(1), c, value * 10 + digit_value(s[0]), max);
        }
    }
}

proof fn lemma_decimal_digits(n: nat)
    ensures
        decimal(n).len() > 0,
        is_digit(decimal(n)[0]),
        is_digit(decimal(n).last()),
    decreases n,
{
    assert(is_digit(digit_char(n % 10)));
    if n >= 10 {
        lemma_decimal_digits(n / 10);
    }
}

/// A number written in decimal reads back as itself, whatever the bound that admits it.
pub proof fn decimal_reads_back(n: nat, max: nat)
    requires
        n <= max,
    ensures
        unsigned_value(decimal(n), max) == Ok::<nat, ParseIntError>(n),
{
    lemma_decimal_digits(n);
    lemma_decimal_reads(n, max);
}

proof fn lemma_decimal_reads(n: nat, max: nat)
    requires
        n <= max,
    ensures
        read_digits(decimal(n), 0, max) == Ok::<nat, ParseIntError>(n),
    decreases n,
{
    if n >= 10 {
        lemma_decimal_reads(n / 10, max);
        lemma_read_digits_append(decimal(n / 10), digit_char(n % 10), 0, max);
    } else {
        lemma_read_digits_append(Seq::empty(), digit_char(n), 0, max);
        assert(Seq::<char>::empty().push(digit_char(n)) =~= decimal(n));
    }
}

proof fn lemma_decimal_overflows(n: nat, max: nat)
    requires
        n > max,
    ensures
        read_digits(decimal(n), 0, max) == Err::<nat, ParseIntError>(ParseIntError::PosOverflow),
    decreases n,
{
    if n >= 10 {
        let head = decimal(n / 10);
        let c = digit_char(n % 10);
        if n / 10 > max {
            lemma_decimal_overflows(n / 10, max);
            lemma_overflow_stays(head, c, 0, max);
        } else {
            lemma_decimal_reads(n / 10, max);
            lemma_overflow_at_last(head, c, 0, max, n / 10);
        }
    } else {
        assert(decimal(n)[0] == digit_char(n));
    }
}

proof fn lemma_overflow_stays(s: Seq<char>, c: char, value: nat, max: nat)
    requires
        read_digits(s, value, max) == Err::<nat, ParseIntError>(ParseIntError::PosOverflow),
    ensures
        read_digits(s.push(c), value, max) == Err::<nat, ParseIntError>(ParseIntError::PosOverflow),
    decreases s.len(),
{
    assert(s.push(c)[0] == s[0]);
    assert(s.push(c).skip(1) =~= s.skip(1).push(c));
    if value * 10 + digit_value(s[0]) <= max {
        lemma_overflow_stays(s.skip(1), c, value * 10 + digit_value(s[0]), max);
    }
}

proof fn lemma_overflow_at_last(s: Seq<char>, c: char, value: nat, max: nat, read: nat)
    requires
        read_digits(s, value, max) == Ok::<nat, ParseIntError>(read),
        is_digit(c),
        read * 10 + digit_value(c) > max,
    ensures
        read_digits(s.push(c), value, max) == Err::<nat, ParseIntError>(ParseIntError::PosOverflow),
    decreases s.len(),
{
    if s.len() == 0 {
        assert(s.push(c)[0] == c);
    } else {
        assert(s.push(c)[0] == s[0]);
        assert(s.push(c).skip(1) =~= s.skip(1).push(c));
        lemma_overflow_at_last(s.skip(1), c, value * 10 + digit_value(s[0]), max, read);
    }
}

/// A number above the bound is refused, however it is signed; one within the bound is read, with a sign
/// before it or without.
pub proof fn numbers_have_bounds(n: nat, max: nat)
    ensures
        n > max ==> unsigned_value(decimal(n), max) == Err::<nat, ParseIntError>(
            ParseIntError::PosOverflow,
        ),
        n <= max ==> unsigned_value(seq!['+'] + decimal(n), max) == Ok::<nat, ParseIntError>(n),
        n <= max ==> signed_value(decimal(n), max) == Ok::<int, ParseIntError>(n as int),
        n > max ==> signed_value(decimal(n), max) == Err::<int, ParseIntError>(
            ParseIntError::PosOverflow,
        ),
        n <= max + 1 ==> signed_value(seq!['-'] + decimal(n), max) == Ok::<int, ParseIntError>(
            -(n as int),
        ),
        n > max + 1 ==> signed_value(seq!['-'] + decimal(n), max) == Err::<int, ParseIntError>(
            ParseIntError::NegOverflow,
        ),
{
    lemma_decimal_digits(n);
    let plus = seq!['+'] + decimal(n);
    let minus = seq!['-'] + decimal(n);
    assert(plus.skip(1) =~= decimal(n));
    assert(minus.skip(1) =~= decimal(n));
    if n > max {
        lemma_decimal_overflows(n, max);
    } else {
        decimal_reads_back(n, max);
        lemma_decimal_reads(n, max);
    }
    if n > max + 1 {
        lemma_decimal_overflows(n, max + 1);
    } else {
        lemma_decimal_reads(n, max + 1);
    }
}

/// Nothing but digits is a number, with perhaps a plus before them.
pub proof fn numbers_are_made_of_digits(s: Seq<char>, max: nat)
    requires
        unsigned_value(s, max) is Ok,
    ensures
        s.len() > 0,
        s[0] == '+' ==> s.len() > 1,
        forall|i: int|
            0 <= i < s.len() && !(i == 0 && s[0] == '+') ==> '0' <= #[trigger] s[i] && s[i] <= '9',
{
    if s[0] == '+' {
        lemma_all_digits(s.skip(1), 0, max);
        assert forall|i: int| 0 < i < s.len() implies '0' <= #[trigger] s[i] && s[i] <= '9' by {
            assert(s.skip(1)[i - 1] == s[i]);
        }
    } else {
        lemma_all_digits(s, 0, max);
    }
}

proof fn lemma_all_digits(s: Seq<char>, value: nat, max: nat)
    requires
        read_digits(s, value, max) is Ok,
    ensures
        forall|i: int| 0 <= i < s.len() ==> '0' <= #[trigger] s[i] && s[i] <= '9',
    decreases s.len(),
{
    if s.len() > 0 {
        lemma_all_digits(s.skip(1), value * 10 + digit_value(s[0]), max);
        assert forall|i: int| 0 <= i < s.len() implies '0' <= #[trigger] s[i] && s[i] <= '9' by {
            if i > 0 {
                assert(s.skip(1)[i - 1] == s[i]);
            }
        }
    }
}

/// A number that is read fits in what it is read for.
pub proof fn numbers_fit(s: Seq<char>, max: nat)
    ensures
        unsigned_value(s, max) matches Ok(n) ==> n <= max,
{
    lemma_unsigned_bound(s, max);
}

} // verus!
