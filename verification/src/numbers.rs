//! Reading decimal integers out of text.

use vstd::prelude::*;

use crate::text;
use crate::text::chars_of;

verus! {

/// Why a text is no integer of the wanted range.
#[derive(Debug, Clone, Copy, PartialEq, Eq, Structural)]
pub enum IntErrorKind {
    /// There is nothing to read.
    Empty,
    /// A character is no digit, or a sign stands alone.
    InvalidDigit,
    /// The number is above the range.
    PosOverflow,
    /// The number is below the range.
    NegOverflow,
}

impl IntErrorKind {
    /// The description of the error.
    pub open spec fn text(self) -> Seq<char> {
        match self {
            IntErrorKind::Empty => "cannot parse integer from empty string"@,
            IntErrorKind::InvalidDigit => "invalid digit found in string"@,
            IntErrorKind::PosOverflow => "number too large to fit in target type"@,
            IntErrorKind::NegOverflow => "number too small to fit in target type"@,
        }
    }

    /// The description of the error.
    pub fn describe(&self) -> (r: &'static str)
        ensures
            r@ == self.text(),
    {
        match self {
            IntErrorKind::Empty => "cannot parse integer from empty string",
            IntErrorKind::InvalidDigit => "invalid digit found in string",
            IntErrorKind::PosOverflow => "number too large to fit in target type",
            IntErrorKind::NegOverflow => "number too small to fit in target type",
        }
    }
}

pub open spec fn is_digit(c: char) -> bool {
    '0' <= c && c <= '9'
}

/// How many digits stand at the front of `s`.
pub open spec fn leading_digits(s: Seq<char>) -> nat
    decreases s.len(),
{
    if s.len() > 0 && is_digit(s[0]) {
        1 + leading_digits(s.drop_first())
    } else {
        0
    }
}

/// The number that a row of digits stands for.
pub open spec fn digits_value(s: Seq<char>) -> nat
    decreases s.len(),
{
    if s.len() == 0 {
        0
    } else {
        digits_value(s.drop_last()) * 10 + (s.last() as int - 48) as nat
    }
}

/// Reads `s` as an optional sign and digits. The number may be at most `max`, and
/// at least `-max - 1` where a minus sign is allowed. Where a text is wrong in
/// several ways, what is wrong furthest to the left counts.
pub open spec fn read_integer(s: Seq<char>, signed: bool, max: int) -> Result<int, IntErrorKind> {
    if s.len() == 0 {
        Err(IntErrorKind::Empty)
    } else {
        let negative = signed && s[0] == '-';
        let body = if negative || s[0] == '+' {
            s.drop_first()
        } else {
            s
        };
        let n = leading_digits(body);
        let value = digits_value(body.take(n as int)) as int;
        if body.len() == 0 {
            Err(IntErrorKind::InvalidDigit)
        } else if negative && value > max + 1 {
            Err(IntErrorKind::NegOverflow)
        } else if !negative && value > max {
            Err(IntErrorKind::PosOverflow)
        } else if n < body.len() {
            Err(IntErrorKind::InvalidDigit)
        } else {
            Ok(
                if negative {
                    -value
                } else {
                    value
                },
            )
        }
    }
}

proof fn lemma_leading_digits(s: Seq<char>)
    ensures
        leading_digits(s) <= s.len(),
        forall|i: int| 0 <= i < leading_digits(s) ==> is_digit(#[trigger] s[i]),
        leading_digits(s) < s.len() ==> !is_digit(s[leading_digits(s) as int]),
    decreases s.len(),
{
    if s.len() > 0 && is_digit(s[0]) {
        let t = s.drop_first();
        lemma_leading_digits(t);
        assert forall|i: int| 0 <= i < leading_digits(s) implies is_digit(#[trigger] s[i]) by {
            if i > 0 {
                assert(t[i - 1] == s[i]);
            }
        }
    }
}

/// The value of a row of digits is at least that of its front part.
proof fn lemma_value_grows(s: Seq<char>, i: int, j: int)
    requires
        0 <= i <= j <= s.len(),
        forall|k: int| 0 <= k < j ==> is_digit(#[trigger] s[k]),
    ensures
        digits_value(s.take(i)) <= digits_value(s.take(j)),
    decreases j - i,
{
    if i < j {
        lemma_value_grows(s, i, j - 1);
        assert(s.take(j).drop_last() =~= s.take(j - 1));
        assert(is_digit(s[j - 1]));
    }
}

fn parse_integer(s: &str, signed: bool, max: u64) -> (r: Result<i128, IntErrorKind>)
    ensures
        match r {
            Ok(v) => read_integer(s@, signed, max as int) == Ok::<int, IntErrorKind>(v as int),
            Err(e) => read_integer(s@, signed, max as int) == Err::<int, IntErrorKind>(e),
        },
        r matches Ok(v) ==> -(max as int) - 1 <= v <= max && (!signed ==> v >= 0),
{
    let a = chars_of(s);
    if a.len() == 0 {
        return Err(IntErrorKind::Empty);
    }
    let negative = signed && a[0] == '-';
    let start: usize = if negative || a[0] == '+' {
        1
    } else {
        0
    };
    let ghost body = a@.skip(start as int);
    proof {
        if start == 1 {
            assert(body =~= s@.drop_first());
        } else {
            assert(body =~= s@);
        }
        lemma_leading_digits(body);
        assert(body.take(0) =~= Seq::<char>::empty());
    }
    if start == a.len() {
        return Err(IntErrorKind::InvalidDigit);
    }
    let limit: u128 = if negative {
        max as u128 + 1
    } else {
        max as u128
    };
    let mut value: u128 = 0;
    let mut i: usize = start;
    while i < a.len()
        invariant
            start <= i <= a.len(),
            body == a@.skip(start as int),
            limit <= 0x1_0000_0000_0000_0000,
            value <= limit,
            i - start <= leading_digits(body),
            leading_digits(body) <= body.len(),
            forall|k: int| 0 <= k < leading_digits(body) ==> is_digit(#[trigger] body[k]),
            leading_digits(body) < body.len() ==> !is_digit(body[leading_digits(body) as int]),
            value == digits_value(body.take(i - start)),
            limit == if negative { max + 1 } else { max as int },
            body.len() > 0,
            s@.len() > 0,
            negative == (signed && s@[0] == '-'),
            body == if negative || s@[0] == '+' { s@.drop_first() } else { s@ },
        decreases a.len() - i,
    {
        let c = a[i];
        assert(c == body[i - start]);
        if !(('0' <= c) && (c <= '9')) {
            assert(leading_digits(body) == i - start);
            return Err(IntErrorKind::InvalidDigit);
        }
        let d: u128 = (c as u32 - 48) as u128;
        value = value * 10 + d;
        proof {
            assert(i - start < leading_digits(body)) by {
                if i - start == leading_digits(body) {
                    assert(!is_digit(body[i - start]));
                }
            }
            assert(body.take(i - start + 1).drop_last() =~= body.take(i - start));
            assert(value == digits_value(body.take(i - start + 1)));
        }
        if value > limit {
            proof {
                lemma_value_grows(body, i - start + 1, leading_digits(body) as int);
            }
            return Err(
                if negative {
                    IntErrorKind::NegOverflow
                } else {
                    IntErrorKind::PosOverflow
                },
            );
        }
        i = i + 1;
    }
    assert(leading_digits(body) == body.len());
    if negative {
        Ok(-(value as i128))
    } else {
        Ok(value as i128)
    }
}

/// Reads a 64-bit signed integer.
pub fn parse_i64(s: &str) -> (r: Result<i64, IntErrorKind>)
    ensures
        match r {
            Ok(v) => read_integer(s@, true, i64::MAX as int) == Ok::<int, IntErrorKind>(v as int),
            Err(e) => read_integer(s@, true, i64::MAX as int) == Err::<int, IntErrorKind>(e),
        },
{
    match parse_integer(s, true, i64::MAX as u64) {
        Ok(v) => Ok(v as i64),
        Err(e) => Err(e),
    }
}

/// Reads a 32-bit unsigned integer.
pub fn parse_u32(s: &str) -> (r: Result<u32, IntErrorKind>)
    ensures
        match r {
            Ok(v) => read_integer(s@, false, u32::MAX as int) == Ok::<int, IntErrorKind>(v as int),
            Err(e) => read_integer(s@, false, u32::MAX as int) == Err::<int, IntErrorKind>(e),
        },
{
    match parse_integer(s, false, u32::MAX as u64) {
        Ok(v) => Ok(v as u32),
        Err(e) => Err(e),
    }
}

/// Reads a machine-sized unsigned integer.
pub fn parse_usize(s: &str) -> (r: Result<usize, IntErrorKind>)
    ensures
        match r {
            Ok(v) => read_integer(s@, false, usize::MAX as int) == Ok::<int, IntErrorKind>(
                v as int,
            ),
            Err(e) => read_integer(s@, false, usize::MAX as int) == Err::<int, IntErrorKind>(e),
        },
{
    match parse_integer(s, false, usize::MAX as u64) {
        Ok(v) => Ok(v as usize),
        Err(e) => Err(e),
    }
}

/// The decimal form of a number has only digits, at least one, and stands for the
/// number.
pub proof fn lemma_decimal(n: nat)
    ensures
        text::decimal(n).len() > 0,
        forall|i: int|
            0 <= i < text::decimal(n).len() ==> is_digit(#[trigger] text::decimal(n)[i]),
        digits_value(text::decimal(n)) == n,
    decreases n,
{
    let s = text::decimal(n);
    if n < 10 {
        assert(s.drop_last() =~= seq![]);
        assert(digits_value(s.drop_last()) == 0);
        assert(s.last() as int == 48 + n);
    } else {
        lemma_decimal(n / 10);
        assert(s.drop_last() =~= text::decimal(n / 10));
        assert(s.last() as int == 48 + n % 10);
        assert forall|i: int| 0 <= i < s.len() implies is_digit(#[trigger] s[i]) by {
            if i < s.len() - 1 {
                assert(s[i] == text::decimal(n / 10)[i]);
            }
        }
    }
}

/// A number that is written in decimal reads back as itself.
pub proof fn law_decimal_reads_back(n: int, signed: bool, max: int)
    requires
        if n < 0 {
            signed && n >= -max - 1
        } else {
            n <= max
        },
    ensures
        read_integer(text::signed_decimal(n), signed, max) == Ok::<int, IntErrorKind>(n),
{
    let digits = text::decimal(if n < 0 {
        -n
    } else {
        n
    } as nat);
    lemma_decimal(if n < 0 {
        -n
    } else {
        n
    } as nat);
    lemma_leading_digits(digits);
    let k = leading_digits(digits) as int;
    if k < digits.len() {
        assert(is_digit(digits[k]));
    }
    assert(digits.take(k) =~= digits);
    let s = text::signed_decimal(n);
    if n < 0 {
        assert(s.drop_first() =~= digits);
    } else {
        assert(is_digit(digits[0]));
    }
}

/// Digits are the ten characters from `0` to `9`, and a row of them is read with ten as the
/// base: one more digit makes ten times as much and the digit.
pub proof fn law_rows_of_digits(s: Seq<char>, c: char)
    ensures
        is_digit(c) <==> 48 <= c as u32 <= 57,
        digits_value(Seq::<char>::empty()) == 0,
        is_digit(c) ==> digits_value(s.push(c)) == 10 * digits_value(s) + (c as u32 - 48),
{
    assert(s.push(c).drop_last() =~= s);
}

/// How a row of digits reads, with a sign or without. It stands for its number if that is
/// in the range. A plus sign makes no difference; a minus sign makes the number negative
/// where one is allowed, and is no digit where none is. A number out of the range is too
/// large, or too small where it is negative.
pub proof fn law_signs_and_range(digits: Seq<char>, max: int)
    requires
        max >= 0,
        digits.len() > 0,
        forall|i: int| 0 <= i < digits.len() ==> is_digit(#[trigger] digits[i]),
    ensures
        ({
            let v = digits_value(digits) as int;
            let plus = seq!['+'] + digits;
            let minus = seq!['-'] + digits;
            &&& forall|signed: bool|
                v <= max ==> #[trigger] read_integer(digits, signed, max) == Ok::<
                    int,
                    IntErrorKind,
                >(v)
            &&& forall|signed: bool|
                v > max ==> #[trigger] read_integer(digits, signed, max) == Err::<
                    int,
                    IntErrorKind,
                >(IntErrorKind::PosOverflow)
            &&& forall|signed: bool| #[trigger]
                read_integer(plus, signed, max) == read_integer(digits, signed, max)
            &&& v <= max + 1 ==> read_integer(minus, true, max) == Ok::<int, IntErrorKind>(-v)
            &&& v > max + 1 ==> read_integer(minus, true, max) == Err::<int, IntErrorKind>(
                IntErrorKind::NegOverflow,
            )
            &&& read_integer(minus, false, max) == Err::<int, IntErrorKind>(
                IntErrorKind::InvalidDigit,
            )
        }),
{
    let plus = seq!['+'] + digits;
    let minus = seq!['-'] + digits;
    lemma_all_digits(digits);
    assert(digits.take(digits.len() as int) =~= digits);
    assert(is_digit(digits[0]));
    assert(plus.drop_first() =~= digits);
    assert(minus.drop_first() =~= digits);
    assert(minus.take(0) =~= Seq::<char>::empty());
    assert(leading_digits(minus) == 0);
}

/// What is no number: nothing, a sign alone, and a row of digits with another character
/// behind it, whatever follows; unless the digits before that character are out of the
/// range already.
pub proof fn law_what_is_no_number(
    digits: Seq<char>,
    c: char,
    rest: Seq<char>,
    signed: bool,
    max: int,
)
    requires
        max >= 0,
        !is_digit(c),
        digits.len() > 0 || (c != '+' && c != '-'),
        forall|i: int| 0 <= i < digits.len() ==> is_digit(#[trigger] digits[i]),
    ensures
        read_integer(Seq::<char>::empty(), signed, max) == Err::<int, IntErrorKind>(
            IntErrorKind::Empty,
        ),
        read_integer(seq!['+'], signed, max) == Err::<int, IntErrorKind>(
            IntErrorKind::InvalidDigit,
        ),
        read_integer(seq!['-'], signed, max) == Err::<int, IntErrorKind>(
            IntErrorKind::InvalidDigit,
        ),
        digits_value(digits) <= max ==> read_integer(digits + seq![c] + rest, signed, max) == Err::<
            int,
            IntErrorKind,
        >(IntErrorKind::InvalidDigit),
        digits_value(digits) > max ==> read_integer(digits + seq![c] + rest, signed, max) == Err::<
            int,
            IntErrorKind,
        >(IntErrorKind::PosOverflow),
{
    let s = digits + seq![c] + rest;
    let n = digits.len() as int;
    lemma_leading_digits(s);
    let k = leading_digits(s) as int;
    assert(s[n] == c);
    if k < n {
        assert(s[k] == digits[k]);
        assert(is_digit(digits[k]));
    } else if k > n {
        assert(is_digit(s[n]));
    }
    assert(s.take(n) =~= digits);
    if n > 0 {
        assert(s[0] == digits[0]);
        assert(is_digit(digits[0]));
    }
    let minus = seq!['-'];
    let plus = seq!['+'];
    assert(minus.drop_first().len() == 0 && plus.drop_first().len() == 0);
    assert(leading_digits(minus) == 0);
    assert(minus.take(0) =~= Seq::<char>::empty());
}

proof fn lemma_all_digits(s: Seq<char>)
    requires
        forall|i: int| 0 <= i < s.len() ==> is_digit(#[trigger] s[i]),
    ensures
        leading_digits(s) == s.len(),
{
    lemma_leading_digits(s);
    let k = leading_digits(s) as int;
    if k < s.len() {
        assert(is_digit(s[k]));
    }
}

/// What is said of a text that is no number.
pub proof fn law_what_is_said_of_numbers()
    ensures
        IntErrorKind::Empty.text() == "cannot parse integer from empty string"@,
        IntErrorKind::InvalidDigit.text() == "invalid digit found in string"@,
        IntErrorKind::PosOverflow.text() == "number too large to fit in target type"@,
        IntErrorKind::NegOverflow.text() == "number too small to fit in target type"@,
{
}

/// The same behind a sign: the digits before a character that is none decide whether the
/// number is out of the range already.
pub proof fn law_what_is_no_number_behind_a_sign(
    digits: Seq<char>,
    c: char,
    rest: Seq<char>,
    signed: bool,
    max: int,
)
    requires
        max >= 0,
        !is_digit(c),
        forall|i: int| 0 <= i < digits.len() ==> is_digit(#[trigger] digits[i]),
    ensures
        ({
            let tail = digits + seq![c] + rest;
            let v = digits_value(digits);
            &&& read_integer(seq!['+'] + tail, signed, max) == Err::<int, IntErrorKind>(
                if v > max {
                    IntErrorKind::PosOverflow
                } else {
                    IntErrorKind::InvalidDigit
                },
            )
            &&& read_integer(seq!['-'] + tail, true, max) == Err::<int, IntErrorKind>(
                if v > max + 1 {
                    IntErrorKind::NegOverflow
                } else {
                    IntErrorKind::InvalidDigit
                },
            )
            &&& read_integer(seq!['-'] + tail, false, max) == Err::<int, IntErrorKind>(
                IntErrorKind::InvalidDigit,
            )
        }),
{
    let tail = digits + seq![c] + rest;
    let n = digits.len() as int;
    lemma_leading_digits(tail);
    let k = leading_digits(tail) as int;
    assert(tail[n] == c);
    if k < n {
        assert(tail[k] == digits[k]);
        assert(is_digit(digits[k]));
    } else if k > n {
        assert(is_digit(tail[n]));
    }
    assert(tail.take(n) =~= digits);
    let (plus, minus) = (seq!['+'] + tail, seq!['-'] + tail);
    assert(plus.drop_first() =~= tail);
    assert(minus.drop_first() =~= tail);
    assert(leading_digits(minus) == 0);
    assert(minus.take(0) =~= Seq::<char>::empty());
}

} // verus!
