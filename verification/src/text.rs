//! Text: decimal and hexadecimal rendering, quoting, splitting into words and
//! trimming.

use vstd::prelude::*;

verus! {

/// `String::push` appends one character.
pub assume_specification[ String::push ](s: &mut String, c: char)
    ensures
        final(s)@ == old(s)@.push(c),
;

/// The text of a string in the `{:?}` form of the standard library: between
/// double quotes, with the characters escaped that `str`'s `Debug` escapes.
pub uninterp spec fn debug_text(s: Seq<char>) -> Seq<char>;

/// Renders `s` with `{:?}`. `str`'s `Debug` output depends on the string alone;
/// it is named here and not described further.
#[verifier::external_body]
fn debug_quoted(s: &str) -> (r: String)
    ensures
        r@ == debug_text(s@),
{
    format!("{:?}", s)
}

/// The text that the standard library makes of bytes that may not be UTF-8, with
/// replacement characters for what is not.
pub uninterp spec fn lossy_text(bytes: Seq<u8>) -> Seq<char>;

/// Makes text of bytes with `String::from_utf8_lossy`. The text depends on the bytes
/// alone. Bytes that are valid UTF-8 stand for their characters; how many replacement
/// characters other bytes become is named here and not described further.
#[verifier::external_body]
pub(crate) fn lossy(bytes: &[u8]) -> (r: String)
    ensures
        r@ == lossy_text(bytes@),
        vstd::utf8::valid_utf8(bytes@) ==> r@ == vstd::utf8::decode_utf8(bytes@),
{
    String::from_utf8_lossy(bytes).into_owned()
}

/// Appends `s` in its `{:?}` form.
pub fn push_quoted(out: &mut String, s: &str)
    ensures
        final(out)@ == old(out)@ + debug_text(s@),
{
    let q = debug_quoted(s);
    out.append(q.as_str());
}

/// The decimal digit that stands for `d`.
pub open spec fn digit_char(d: int) -> char
    recommends
        0 <= d < 10,
{
    (48 + d) as char
}

/// The hexadecimal digit, in lower case, that stands for `d`.
pub open spec fn hex_char(d: int) -> char
    recommends
        0 <= d < 16,
{
    if d < 10 {
        (48 + d) as char
    } else {
        (87 + d) as char
    }
}

/// A natural number in decimal, without leading zeros.
pub open spec fn decimal(n: nat) -> Seq<char>
    decreases n,
{
    if n < 10 {
        seq![digit_char(n as int)]
    } else {
        decimal(n / 10).push(digit_char((n % 10) as int))
    }
}

/// An integer in decimal, with a minus sign where it is negative.
pub open spec fn signed_decimal(n: int) -> Seq<char> {
    if n < 0 {
        seq!['-'] + decimal((-n) as nat)
    } else {
        decimal(n as nat)
    }
}

/// A byte as two hexadecimal digits.
pub open spec fn hex_byte(b: u8) -> Seq<char> {
    seq![hex_char((b / 16) as int), hex_char((b % 16) as int)]
}

/// A 16-bit number as `0x` and four hexadecimal digits.
pub open spec fn hex_u16(v: u16) -> Seq<char> {
    seq!['0', 'x'] + hex_byte((v / 256) as u8) + hex_byte((v % 256) as u8)
}

/// Appends `n` in decimal.
pub fn push_decimal(out: &mut String, n: u128)
    ensures
        final(out)@ == old(out)@ + decimal(n as nat),
    decreases n,
{
    if n >= 10 {
        push_decimal(out, n / 10);
    }
    let d: u8 = (n % 10) as u8;
    out.push((48 + d) as char);
    assert(out@ =~= old(out)@ + decimal(n as nat));
}

/// Appends `n` in decimal, with a minus sign where it is negative.
pub fn push_signed(out: &mut String, n: i128)
    requires
        n > i128::MIN,
    ensures
        final(out)@ == old(out)@ + signed_decimal(n as int),
{
    if n < 0 {
        out.push('-');
        push_decimal(out, (-n) as u128);
        assert(out@ =~= old(out)@ + signed_decimal(n as int));
    } else {
        push_decimal(out, n as u128);
    }
}

/// The hexadecimal digit of `d`.
fn hex_digit(d: u8) -> (c: char)
    requires
        d < 16,
    ensures
        c == hex_char(d as int),
{
    if d < 10 {
        (48 + d) as char
    } else {
        (87 + d) as char
    }
}

/// Appends `b` as two hexadecimal digits.
pub fn push_hex_byte(out: &mut String, b: u8)
    ensures
        final(out)@ == old(out)@ + hex_byte(b),
{
    out.push(hex_digit(b / 16));
    out.push(hex_digit(b % 16));
    assert(out@ =~= old(out)@ + hex_byte(b));
}

/// Appends `v` as `0x` and four hexadecimal digits.
pub fn push_hex_u16(out: &mut String, v: u16)
    ensures
        final(out)@ == old(out)@ + hex_u16(v),
{
    out.push('0');
    out.push('x');
    push_hex_byte(out, (v / 256) as u8);
    push_hex_byte(out, (v % 256) as u8);
    assert(out@ =~= old(out)@ + hex_u16(v));
}

/// The characters of `s`.
pub fn chars_of(s: &str) -> (r: Vec<char>)
    ensures
        r@ == s@,
{
    let mut out: Vec<char> = Vec::new();
    for c in it: s.chars()
        invariant
            out@ =~= s@.take(it.index() as int),
            it.seq() == s@,
    {
        out.push(c);
    }
    out
}

/// Whether two strings hold the same characters.
pub fn same(a: &str, b: &str) -> (r: bool)
    ensures
        r == (a@ == b@),
{
    a.to_owned() == b.to_owned()
}

/// What follows `prefix` in `s`, where `s` begins with it.
pub fn after_prefix(s: &str, prefix: &str) -> (r: Option<String>)
    ensures
        match r {
            Some(rest) => s@ == prefix@ + rest@,
            None => !prefix@.is_prefix_of(s@),
        },
{
    let a = chars_of(s);
    let p = chars_of(prefix);
    if a.len() < p.len() {
        return None;
    }
    let mut i: usize = 0;
    while i < p.len()
        invariant
            i <= p.len() <= a.len(),
            a@ == s@,
            p@ == prefix@,
            forall|j: int| 0 <= j < i ==> a@[j] == p@[j],
        decreases p.len() - i,
    {
        if a[i] != p[i] {
            return None;
        }
        i = i + 1;
    }
    let mut rest = String::new();
    while i < a.len()
        invariant
            p.len() <= i <= a.len(),
            rest@ =~= a@.subrange(p.len() as int, i as int),
        decreases a.len() - i,
    {
        rest.push(a[i]);
        i = i + 1;
    }
    assert(s@ =~= prefix@ + rest@);
    Some(rest)
}

/// Whether `s` contains the character `c`.
pub fn contains_char(s: &str, c: char) -> (r: bool)
    ensures
        r == s@.contains(c),
{
    let a = chars_of(s);
    let mut i: usize = 0;
    while i < a.len()
        invariant
            i <= a.len(),
            a@ == s@,
            forall|j: int| 0 <= j < i ==> a@[j] != c,
        decreases a.len() - i,
    {
        if a[i] == c {
            return true;
        }
        i = i + 1;
    }
    false
}

/// ASCII white space: space, tab, line feed, form feed, carriage return.
pub open spec fn ascii_blank(c: char) -> bool {
    c == ' ' || c == '\t' || c == '\n' || c == '\u{c}' || c == '\r'
}

fn is_ascii_blank(c: char) -> (r: bool)
    ensures
        r == ascii_blank(c),
{
    c == ' ' || c == '\t' || c == '\n' || c == '\u{c}' || c == '\r'
}

/// How many characters at the front of `s` are blank, or are not.
pub open spec fn front_run(s: Seq<char>, blank: bool) -> nat
    decreases s.len(),
{
    if s.len() > 0 && ascii_blank(s[0]) == blank {
        1 + front_run(s.drop_first(), blank)
    } else {
        0
    }
}

/// The run lies inside `s`, holds only such characters, and ends before the first
/// one of the other sort.
pub proof fn lemma_front_run(s: Seq<char>, blank: bool)
    ensures
        front_run(s, blank) <= s.len(),
        forall|i: int| 0 <= i < front_run(s, blank) ==> ascii_blank(#[trigger] s[i]) == blank,
        front_run(s, blank) < s.len() ==> ascii_blank(s[front_run(s, blank) as int]) != blank,
    decreases s.len(),
{
    if s.len() > 0 && ascii_blank(s[0]) == blank {
        let t = s.drop_first();
        lemma_front_run(t, blank);
        assert forall|i: int| 0 <= i < front_run(s, blank) implies ascii_blank(#[trigger] s[i])
            == blank by {
            if i > 0 {
                assert(t[i - 1] == s[i]);
            }
        }
    }
}

/// The run at the front of `s` is `n` long when it is made of `n` such characters
/// and the next one, if any, is different.
proof fn lemma_front_run_is(s: Seq<char>, blank: bool, n: int)
    requires
        0 <= n <= s.len(),
        forall|i: int| 0 <= i < n ==> ascii_blank(#[trigger] s[i]) == blank,
        n < s.len() ==> ascii_blank(s[n]) != blank,
    ensures
        front_run(s, blank) == n,
{
    lemma_front_run(s, blank);
    let m = front_run(s, blank) as int;
    if m < n {
        assert(ascii_blank(s[m]) == blank);
    } else if n < m {
        assert(ascii_blank(s[n]) == blank);
    }
}

/// The words of `s`: its longest pieces without white space, in order.
pub open spec fn words(s: Seq<char>) -> Seq<Seq<char>>
    decreases s.len(),
{
    let t = s.skip(front_run(s, true) as int);
    if front_run(s, true) >= s.len() || front_run(t, false) == 0 {
        seq![]
    } else {
        proof {
            lemma_front_run(t, false);
        }
        seq![t.take(front_run(t, false) as int)] + words(t.skip(front_run(t, false) as int))
    }
}

/// A word, white space and more text are the word and the words of the text.
pub proof fn lemma_words_first(word: Seq<char>, space: char, rest: Seq<char>)
    requires
        word.len() > 0,
        forall|i: int| 0 <= i < word.len() ==> !ascii_blank(#[trigger] word[i]),
        ascii_blank(space),
    ensures
        words(word + seq![space] + rest) == seq![word] + words(rest),
{
    let s = word + seq![space] + rest;
    lemma_front_run_is(s, true, 0);
    assert(s.skip(0) =~= s);
    lemma_front_run_is(s, false, word.len() as int);
    assert(s.take(word.len() as int) =~= word);
    let tail = seq![space] + rest;
    assert(s.skip(word.len() as int) =~= tail);
    assert(words(tail) == words(rest)) by {
        assert(tail.drop_first() =~= rest);
        let n = front_run(rest, true) as int;
        assert(front_run(tail, true) == n + 1);
        lemma_front_run(rest, true);
        assert(tail.skip(n + 1) =~= rest.skip(n));
    }
}

/// Splits `s` into its words.
pub fn split_words(s: &str) -> (r: Vec<String>)
    ensures
        r@.len() == words(s@).len(),
        forall|i: int| 0 <= i < r@.len() ==> (#[trigger] r@[i])@ == words(s@)[i],
{
    let a = chars_of(s);
    let mut out: Vec<String> = Vec::new();
    let mut i: usize = 0;
    assert(a@.skip(0) =~= s@);
    while i < a.len()
        invariant
            i <= a.len(),
            words(s@) =~= Seq::new(out@.len(), |k: int| out@[k]@) + words(a@.skip(i as int)),
        decreases a.len() - i,
    {
        let ghost rest = a@.skip(i as int);
        let ghost done = Seq::new(out@.len(), |k: int| out@[k]@);
        let start: usize = i;
        while i < a.len() && is_ascii_blank(a[i])
            invariant
                start <= i <= a.len(),
                forall|k: int| start <= k < i ==> ascii_blank(#[trigger] a@[k]),
            decreases a.len() - i,
        {
            i = i + 1;
        }
        let first: usize = i;
        let ghost t = a@.skip(first as int);
        proof {
            assert forall|k: int| 0 <= k < first - start implies ascii_blank(#[trigger] rest[k]) by {
                assert(rest[k] == a@[start + k]);
            }
            lemma_front_run_is(rest, true, first - start);
            assert(rest.skip(first - start) =~= t);
        }
        let mut word = String::new();
        while i < a.len() && !is_ascii_blank(a[i])
            invariant
                first <= i <= a.len(),
                word@ =~= a@.subrange(first as int, i as int),
                forall|k: int| first <= k < i ==> !ascii_blank(#[trigger] a@[k]),
            decreases a.len() - i,
        {
            word.push(a[i]);
            i = i + 1;
        }
        proof {
            assert forall|k: int| 0 <= k < i - first implies !ascii_blank(#[trigger] t[k]) by {
                assert(t[k] == a@[first + k]);
            }
            lemma_front_run_is(t, false, i - first);
            assert(t.take(i - first) =~= word@);
            assert(t.skip(i - first) =~= a@.skip(i as int));
        }
        if i > first {
            out.push(word);
            proof {
                let now = Seq::new(out@.len(), |k: int| out@[k]@);
                assert(now =~= done.push(word@));
                assert(words(rest) =~= seq![word@] + words(a@.skip(i as int)));
            }
        } else {
            assert(words(rest) =~= seq![]);
            assert(words(a@.skip(i as int)) =~= seq![]);
        }
    }
    assert(words(a@.skip(i as int)) =~= seq![]);
    out
}

/// White space, as Unicode has it.
pub open spec fn blank(c: char) -> bool {
    ||| '\u{9}' <= c && c <= '\u{d}'
    ||| c == ' '
    ||| c == '\u{85}'
    ||| c == '\u{a0}'
    ||| c == '\u{1680}'
    ||| '\u{2000}' <= c && c <= '\u{200a}'
    ||| c == '\u{2028}'
    ||| c == '\u{2029}'
    ||| c == '\u{202f}'
    ||| c == '\u{205f}'
    ||| c == '\u{3000}'
}

fn is_blank(c: char) -> (r: bool)
    ensures
        r == blank(c),
{
    (('\u{9}' <= c) && (c <= '\u{d}')) || c == ' ' || c == '\u{85}' || c == '\u{a0}' || c
        == '\u{1680}' || (('\u{2000}' <= c) && (c <= '\u{200a}')) || c == '\u{2028}' || c
        == '\u{2029}' || c == '\u{202f}' || c == '\u{205f}' || c == '\u{3000}'
}

/// `s` without the white space at its front.
pub open spec fn trimmed_front(s: Seq<char>) -> Seq<char>
    decreases s.len(),
{
    if s.len() > 0 && blank(s[0]) {
        trimmed_front(s.drop_first())
    } else {
        s
    }
}

/// `s` without the white space at its back.
pub open spec fn trimmed_back(s: Seq<char>) -> Seq<char>
    decreases s.len(),
{
    if s.len() > 0 && blank(s.last()) {
        trimmed_back(s.drop_last())
    } else {
        s
    }
}

/// `s` without the white space at either end.
pub fn trim(s: &str) -> (r: String)
    ensures
        r@ == trimmed_back(trimmed_front(s@)),
{
    let a = chars_of(s);
    let mut from: usize = 0;
    let mut to: usize = a.len();
    assert(a@.skip(0) =~= s@);
    while from < to && is_blank(a[from])
        invariant
            from <= to == a.len(),
            trimmed_front(a@.skip(from as int)) == trimmed_front(s@),
        ensures
            from <= to == a.len(),
            a@.skip(from as int) == trimmed_front(s@),
        decreases to - from,
    {
        assert(a@.skip(from as int).drop_first() =~= a@.skip(from + 1));
        from = from + 1;
    }
    assert(a@.subrange(from as int, to as int) =~= a@.skip(from as int));
    while from < to && is_blank(a[to - 1])
        invariant
            from <= to <= a.len(),
            trimmed_back(a@.subrange(from as int, to as int)) == trimmed_back(trimmed_front(s@)),
        ensures
            from <= to <= a.len(),
            a@.subrange(from as int, to as int) == trimmed_back(trimmed_front(s@)),
        decreases to - from,
    {
        assert(a@.subrange(from as int, to as int).drop_last() =~= a@.subrange(
            from as int,
            to - 1,
        ));
        to = to - 1;
    }
    let mut out = String::new();
    let mut i: usize = from;
    while i < to
        invariant
            from <= i <= to <= a.len(),
            out@ =~= a@.subrange(from as int, i as int),
        decreases to - i,
    {
        out.push(a[i]);
        i = i + 1;
    }
    out
}

/// What a digit stands for, decimal or hexadecimal in lower case.
pub open spec fn digit_value(c: char) -> int {
    if '0' <= c && c <= '9' {
        c as int - '0' as int
    } else {
        c as int - 'a' as int + 10
    }
}

/// A byte is two hexadecimal digits, in lower case, the first of which counts sixteen
/// times.
pub proof fn law_hex_digits(b: u8)
    ensures
        hex_byte(b).len() == 2,
        forall|i: int|
            0 <= i < 2 ==> ('0' <= #[trigger] hex_byte(b)[i] && hex_byte(b)[i] <= '9') || ('a'
                <= hex_byte(b)[i] && hex_byte(b)[i] <= 'f'),
        digit_value(hex_byte(b)[0]) * 16 + digit_value(hex_byte(b)[1]) == b,
        b / 16 < 10 ==> hex_byte(b)[0] as u32 == 48 + b / 16,
        b / 16 >= 10 ==> hex_byte(b)[0] as u32 == 97 + (b / 16 - 10),
        b % 16 < 10 ==> hex_byte(b)[1] as u32 == 48 + b % 16,
        b % 16 >= 10 ==> hex_byte(b)[1] as u32 == 97 + (b % 16 - 10),
{
}

/// A 16-bit number is `0x` and four hexadecimal digits, of which the first counts most.
pub proof fn law_hex_numbers(v: u16)
    ensures
        hex_u16(v).len() == 6,
        hex_u16(v)[0] == '0',
        hex_u16(v)[1] == 'x',
        v == digit_value(hex_u16(v)[2]) * 0x1000 + digit_value(hex_u16(v)[3]) * 0x100 + digit_value(
            hex_u16(v)[4],
        ) * 0x10 + digit_value(hex_u16(v)[5]),
        forall|i: int|
            2 <= i < 6 ==> ('0' <= #[trigger] hex_u16(v)[i] && hex_u16(v)[i] <= '9') || ('a'
                <= hex_u16(v)[i] && hex_u16(v)[i] <= 'f'),
{
    law_hex_digits((v / 256) as u8);
    law_hex_digits((v % 256) as u8);
    let (a, b) = (hex_byte((v / 256) as u8), hex_byte((v % 256) as u8));
    assert(hex_u16(v)[2] == a[0] && hex_u16(v)[3] == a[1] && hex_u16(v)[4] == b[0] && hex_u16(v)[5]
        == b[1]);
}

/// A number in decimal has only decimal digits, none of them a leading zero unless it is
/// the only one; the last one is the number's last digit, and those before it are the
/// number without it. A negative number is a minus sign and the number without the sign.
pub proof fn law_decimal_digits(n: nat, m: int)
    ensures
        n < 10 ==> decimal(n).len() == 1,
        n >= 10 ==> decimal(n).len() > 1 && decimal(n).drop_last() == decimal(n / 10),
        n > 0 ==> decimal(n)[0] != '0',
        '0' <= decimal(n).last() && decimal(n).last() <= '9',
        digit_value(decimal(n).last()) == n % 10,
        decimal(n).last() as u32 == 48 + n % 10,
        m >= 0 ==> signed_decimal(m) == decimal(m as nat),
        m < 0 ==> signed_decimal(m)[0] == '-' && signed_decimal(m).drop_first() == decimal(
            (-m) as nat,
        ),
    decreases n,
{
    if n >= 10 {
        law_decimal_digits(n / 10, 0);
        assert(decimal(n).drop_last() =~= decimal(n / 10));
        assert(decimal(n)[0] == decimal(n / 10)[0]);
    }
    if m < 0 {
        assert(signed_decimal(m).drop_first() =~= decimal((-m) as nat));
    }
}

/// White space in ASCII is the space, the tab, the line feed, the form feed and the
/// carriage return, and nothing else.
pub proof fn law_ascii_white_space(c: char)
    ensures
        ascii_blank(c) <==> c as u32 == 32 || c as u32 == 9 || c as u32 == 10 || c as u32 == 12
            || c as u32 == 13,
{
}

/// White space in Unicode.
pub proof fn law_unicode_white_space(c: char)
    ensures
        blank(c) <==> 9 <= c as u32 <= 13 || c as u32 == 0x20 || c as u32 == 0x85 || c as u32
            == 0xa0 || c as u32 == 0x1680 || 0x2000 <= c as u32 <= 0x200a || c as u32 == 0x2028
            || c as u32 == 0x2029 || c as u32 == 0x202f || c as u32 == 0x205f || c as u32 == 0x3000,
{
}

/// Words have no white space in them and are not empty; white space alone has no words;
/// white space before a text adds no word; and a word that ends a text, or that white space
/// follows, is a word of it as it stands.
pub proof fn law_words(s: Seq<char>, space: char, word: Seq<char>, k: int, i: int)
    requires
        ascii_blank(space),
        word.len() > 0,
        forall|j: int| 0 <= j < word.len() ==> !ascii_blank(#[trigger] word[j]),
    ensures
        words(Seq::<char>::empty()).len() == 0,
        words(seq![space] + s) == words(s),
        words(word) == seq![word],
        words(word + seq![space] + s) == seq![word] + words(s),
        0 <= k < words(s).len() ==> words(s)[k].len() > 0,
        0 <= k < words(s).len() && 0 <= i < words(s)[k].len() ==> !ascii_blank(words(s)[k][i]),
{
    lemma_words_first(word, space, s);
    let spaced = seq![space] + s;
    assert(words(spaced) == words(s)) by {
        assert(spaced.drop_first() =~= s);
        let n = front_run(s, true) as int;
        assert(front_run(spaced, true) == n + 1);
        lemma_front_run(s, true);
        assert(spaced.skip(n + 1) =~= s.skip(n));
    }
    assert(words(word) == seq![word]) by {
        lemma_front_run_is(word, true, 0);
        assert(word.skip(0) =~= word);
        lemma_front_run_is(word, false, word.len() as int);
        assert(word.take(word.len() as int) =~= word);
        let none = word.skip(word.len() as int);
        assert(none.len() == 0);
        assert(words(none) =~= seq![]);
        assert(words(word) =~= seq![word]);
    }
    lemma_words_are_solid(s, k, i);
}

proof fn lemma_words_are_solid(s: Seq<char>, k: int, i: int)
    ensures
        0 <= k < words(s).len() ==> words(s)[k].len() > 0,
        0 <= k < words(s).len() && 0 <= i < words(s)[k].len() ==> !ascii_blank(words(s)[k][i]),
    decreases s.len(),
{
    let t = s.skip(front_run(s, true) as int);
    if !(front_run(s, true) >= s.len() || front_run(t, false) == 0) {
        lemma_front_run(t, false);
        let n = front_run(t, false) as int;
        if k > 0 {
            lemma_words_are_solid(t.skip(n), k - 1, i);
        } else if k == 0 && 0 <= i < n {
            assert(words(s)[0] == t.take(n));
            assert(!ascii_blank(t[i]));
        }
    }
}

/// What is trimmed off a text is white space only, and what is left neither begins nor ends
/// with any.
pub proof fn law_trimming(s: Seq<char>)
    ensures
        ({
            let r = trimmed_back(trimmed_front(s));
            &&& r.len() > 0 ==> !blank(r[0]) && !blank(r.last())
            &&& exists|a: int, b: int|
                0 <= a <= b <= s.len() && #[trigger] s.subrange(a, b) == r && (forall|i: int|
                    0 <= i < a ==> blank(#[trigger] s[i])) && (forall|i: int|
                    b <= i < s.len() ==> blank(#[trigger] s[i]))
        }),
{
    let front = trimmed_front(s);
    let a = lemma_trimmed_front(s);
    let n = lemma_trimmed_back(front);
    let b = a + n;
    let r = trimmed_back(front);
    assert(s.subrange(a, b) =~= r);
    assert forall|i: int| b <= i < s.len() implies blank(#[trigger] s[i]) by {
        assert(front[i - a] == s[i]);
    }
    if r.len() > 0 {
        assert(r[0] == front[0]);
    }
}

proof fn lemma_trimmed_front(s: Seq<char>) -> (a: int)
    ensures
        0 <= a <= s.len(),
        trimmed_front(s) == s.skip(a),
        forall|i: int| 0 <= i < a ==> blank(#[trigger] s[i]),
        a < s.len() ==> !blank(s[a]),
    decreases s.len(),
{
    if s.len() > 0 && blank(s[0]) {
        let t = s.drop_first();
        let a = lemma_trimmed_front(t);
        assert(t.skip(a) =~= s.skip(a + 1));
        assert forall|i: int| 0 <= i < a + 1 implies blank(#[trigger] s[i]) by {
            if i > 0 {
                assert(t[i - 1] == s[i]);
            }
        }
        a + 1
    } else {
        assert(s.skip(0) =~= s);
        0
    }
}

proof fn lemma_trimmed_back(s: Seq<char>) -> (n: int)
    ensures
        0 <= n <= s.len(),
        trimmed_back(s) == s.take(n),
        forall|i: int| n <= i < s.len() ==> blank(#[trigger] s[i]),
        n > 0 ==> !blank(s[n - 1]),
    decreases s.len(),
{
    if s.len() > 0 && blank(s.last()) {
        let t = s.drop_last();
        let n = lemma_trimmed_back(t);
        assert(t.take(n) =~= s.take(n));
        assert forall|i: int| n <= i < s.len() implies blank(#[trigger] s[i]) by {
            if i < t.len() {
                assert(t[i] == s[i]);
            }
        }
        n
    } else {
        assert(s.take(s.len() as int) =~= s);
        s.len() as int
    }
}

} // verus!
