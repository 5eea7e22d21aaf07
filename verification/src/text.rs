//! Character-level text helpers: conversion between strings and characters,
//! whitespace tokens, and decimal numbers written and read back.
use vstd::prelude::*;
use crate::deps::push_char;

verus! {

// ---------------------------------------------------------------------------
// Strings and characters
// ---------------------------------------------------------------------------
/// The characters of a string, in order.
pub fn chars_of(s: &str) -> (out: Vec<char>)
    ensures
        out@ == s@,
{
    let mut out: Vec<char> = Vec::new();
    for c in it: s.chars()
        invariant
            out@ == it.seq().take(it.index() as int),
            it.seq() == s@,
    {
        out.push(c);
    }
    out
}

/// Appends the characters `chars[start..end]` to `out`.
pub fn push_chars(out: &mut String, chars: &Vec<char>, start: usize, end: usize)
    requires
        start <= end <= chars@.len(),
    ensures
        final(out)@ == old(out)@ + chars@.subrange(start as int, end as int),
{
    let mut i: usize = start;
    while i < end
        invariant
            start <= i <= end <= chars@.len(),
            out@ == old(out)@ + chars@.subrange(start as int, i as int),
        decreases end - i,
    {
        push_char(out, chars[i]);
        i = i + 1;
        assert(chars@.subrange(start as int, i as int) =~= chars@.subrange(
            start as int,
            i - 1,
        ).push(chars@[i - 1]));
    }
}

/// A string holding exactly the given characters.
pub fn string_of(chars: &Vec<char>) -> (out: String)
    ensures
        out@ == chars@,
{
    let mut out = String::new();
    push_chars(&mut out, chars, 0, chars.len());
    assert(chars@.subrange(0, chars@.len() as int) =~= chars@);
    out
}

/// Appends a whole string to `out`.
pub fn push_str(out: &mut String, s: &str)
    ensures
        final(out)@ == old(out)@ + s@,
{
    let chars = chars_of(s);
    push_chars(out, &chars, 0, chars.len());
    assert(chars@.subrange(0, chars@.len() as int) =~= chars@);
}

/// Whether two character sequences are equal.
pub fn chars_equal(a: &Vec<char>, b: &Vec<char>) -> (eq: bool)
    ensures
        eq == (a@ == b@),
{
    if a.len() != b.len() {
        return false;
    }
    let mut i: usize = 0;
    while i < a.len()
        invariant
            a@.len() == b@.len(),
            i <= a@.len(),
            forall|j: int| 0 <= j < i ==> a@[j] == b@[j],
        decreases a.len() - i,
    {
        if a[i] != b[i] {
            return false;
        }
        i = i + 1;
    }
    assert(a@ =~= b@);
    true
}

// ---------------------------------------------------------------------------
// Whitespace and tokens
// ---------------------------------------------------------------------------
/// Unicode `White_Space`, the property that `char::is_whitespace` tests.
pub open spec fn is_white_space(c: char) -> bool {
    ||| '\u{9}' <= c <= '\u{d}'
    ||| c == ' '
    ||| c == '\u{85}'
    ||| c == '\u{a0}'
    ||| c == '\u{1680}'
    ||| '\u{2000}' <= c <= '\u{200a}'
    ||| c == '\u{2028}'
    ||| c == '\u{2029}'
    ||| c == '\u{202f}'
    ||| c == '\u{205f}'
    ||| c == '\u{3000}'
}

/// Whether `c` is a whitespace character.
pub fn white_space(c: char) -> (b: bool)
    ensures
        b == is_white_space(c),
{
    ('\u{9}' <= c && c <= '\u{d}') || c == ' ' || c == '\u{85}' || c == '\u{a0}' || c
        == '\u{1680}' || ('\u{2000}' <= c && c <= '\u{200a}') || c == '\u{2028}' || c
        == '\u{2029}' || c == '\u{202f}' || c == '\u{205f}' || c == '\u{3000}'
}

/// The first position at or after `i` that does not hold whitespace (or the end).
pub open spec fn skip_space(s: Seq<char>, i: int) -> int
    decreases s.len() - i,
{
    if 0 <= i < s.len() && is_white_space(s[i]) {
        skip_space(s, i + 1)
    } else {
        i
    }
}

/// The first position at or after `i` that holds whitespace (or the end).
pub open spec fn word_end(s: Seq<char>, i: int) -> int
    decreases s.len() - i,
{
    if 0 <= i < s.len() && !is_white_space(s[i]) {
        word_end(s, i + 1)
    } else {
        i
    }
}

/// The bounds of the first whitespace-separated word at or after `i`, as
/// `split_whitespace` finds it, or `None` when only whitespace is left.
pub open spec fn token_at(s: Seq<char>, i: int) -> Option<(int, int)> {
    let b = skip_space(s, i);
    if b >= s.len() {
        None
    } else {
        Some((b, word_end(s, b)))
    }
}

/// The first word of `s`.
pub open spec fn first_token(s: Seq<char>) -> Option<Seq<char>> {
    match token_at(s, 0) {
        Some((b, e)) => Some(s.subrange(b, e)),
        None => None,
    }
}

/// The second word of `s`.
pub open spec fn second_token(s: Seq<char>) -> Option<Seq<char>> {
    match token_at(s, 0) {
        Some((b, e)) => match token_at(s, e) {
            Some((b2, e2)) => Some(s.subrange(b2, e2)),
            None => None,
        },
        None => None,
    }
}

/// Finds the first word of `s` at or after `from`.
pub fn next_token(s: &Vec<char>, from: usize) -> (r: Option<(usize, usize)>)
    requires
        from <= s@.len(),
    ensures
        match r {
            Some((b, e)) => token_at(s@, from as int) == Some((b as int, e as int)) && from <= b
                < e <= s@.len(),
            None => token_at(s@, from as int) is None,
        },
{
    let mut b: usize = from;
    while b < s.len() && white_space(s[b])
        invariant
            from <= b <= s@.len(),
            skip_space(s@, from as int) == skip_space(s@, b as int),
        decreases s.len() - b,
    {
        b = b + 1;
    }
    if b >= s.len() {
        return None;
    }
    let mut e: usize = b;
    while e < s.len() && !white_space(s[e])
        invariant
            b <= e <= s@.len(),
            word_end(s@, b as int) == word_end(s@, e as int),
        decreases s.len() - e,
    {
        e = e + 1;
    }
    assert(!is_white_space(s@[b as int]));
    Some((b, e))
}

// ---------------------------------------------------------------------------
// Order
// ---------------------------------------------------------------------------
/// Lexicographic order of character sequences. Comparing `String`s compares
/// their UTF-8 bytes, and UTF-8 keeps the order of code points, so this is the
/// order `sort` puts strings in.
pub open spec fn lex_le(a: Seq<char>, b: Seq<char>) -> bool
    decreases a.len(),
{
    if a.len() == 0 {
        true
    } else if b.len() == 0 {
        false
    } else if a[0] != b[0] {
        a[0] < b[0]
    } else {
        lex_le(a.drop_first(), b.drop_first())
    }
}

/// Whether the sequences are in lexicographic order.
pub open spec fn lex_sorted(s: Seq<Seq<char>>) -> bool {
    forall|i: int, j: int| 0 <= i < j < s.len() ==> lex_le(#[trigger] s[i], #[trigger] s[j])
}

/// Any two sequences are ordered one way or the other.
pub proof fn lemma_lex_total(a: Seq<char>, b: Seq<char>)
    ensures
        lex_le(a, b) || lex_le(b, a),
    decreases a.len(),
{
    if a.len() > 0 && b.len() > 0 && a[0] == b[0] {
        lemma_lex_total(a.drop_first(), b.drop_first());
    }
}

/// The order is transitive.
pub proof fn lemma_lex_trans(a: Seq<char>, b: Seq<char>, c: Seq<char>)
    requires
        lex_le(a, b),
        lex_le(b, c),
    ensures
        lex_le(a, c),
    decreases a.len(),
{
    if a.len() > 0 && b.len() > 0 && c.len() > 0 && a[0] == b[0] && b[0] == c[0] {
        lemma_lex_trans(a.drop_first(), b.drop_first(), c.drop_first());
    }
}

/// A common prefix does not change the order.
pub proof fn lemma_lex_common_prefix(p: Seq<char>, x: Seq<char>, y: Seq<char>)
    ensures
        lex_le(p + x, p + y) == lex_le(x, y),
    decreases p.len(),
{
    if p.len() > 0 {
        assert((p + x).drop_first() =~= p.drop_first() + x);
        assert((p + y).drop_first() =~= p.drop_first() + y);
        lemma_lex_common_prefix(p.drop_first(), x, y);
    } else {
        assert(p + x =~= x);
        assert(p + y =~= y);
    }
}

// ---------------------------------------------------------------------------
// Decimal numbers
// ---------------------------------------------------------------------------
/// The character of decimal digit `d`.
pub open spec fn digit_char(d: nat) -> char {
    ((48 + d) as u8) as char
}

/// `n` written in decimal, without sign or leading zeros.
pub open spec fn decimal(n: nat) -> Seq<char>
    decreases n,
{
    if n < 10 {
        seq![digit_char(n)]
    } else {
        decimal(n / 10).push(digit_char(n % 10))
    }
}

/// `s` right-aligned in a field of `width` characters, filled with `fill`.
pub open spec fn pad_left(s: Seq<char>, width: nat, fill: char) -> Seq<char> {
    if s.len() >= width {
        s
    } else {
        Seq::new((width - s.len()) as nat, |i: int| fill) + s
    }
}

/// Whether `c` is an ASCII decimal digit.
pub open spec fn is_digit(c: char) -> bool {
    '0' <= c <= '9'
}

/// The value of a decimal digit character.
pub open spec fn digit_value(c: char) -> nat {
    (c as int - 48) as nat
}

/// The value of a string of decimal digits.
pub open spec fn digits_value(s: Seq<char>) -> nat
    decreases s.len(),
{
    if s.len() == 0 {
        0
    } else {
        digits_value(s.drop_last()) * 10 + digit_value(s.last())
    }
}

/// Whether every character of `s` is a decimal digit.
pub open spec fn all_digits(s: Seq<char>) -> bool {
    forall|i: int| 0 <= i < s.len() ==> is_digit(#[trigger] s[i])
}

/// The digits of an unsigned number as `str::parse` reads them: one optional
/// leading `+`, then at least one digit.
pub open spec fn unsigned_body(s: Seq<char>) -> Seq<char> {
    if s.len() > 0 && s[0] == '+' {
        s.drop_first()
    } else {
        s
    }
}

/// What `str::parse` gives for an unsigned integer type whose largest value
/// is `max`: the number, or `None` when the text is no number or too large.
pub open spec fn parse_unsigned(s: Seq<char>, max: nat) -> Option<nat> {
    let body = unsigned_body(s);
    if body.len() == 0 || !all_digits(body) || digits_value(body) > max {
        None
    } else {
        Some(digits_value(body))
    }
}

proof fn lemma_digits_value_prefix_grows(s: Seq<char>, i: int, j: int)
    requires
        0 <= i <= j <= s.len(),
    ensures
        digits_value(s.take(i)) <= digits_value(s.take(j)),
    decreases j - i,
{
    if i < j {
        lemma_digits_value_prefix_grows(s, i, j - 1);
        assert(s.take(j).drop_last() =~= s.take(j - 1));
    }
}

/// Reads an unsigned decimal number from `s[start..end]` as `str::parse`
/// does for a type whose largest value is `max`.
pub fn parse_unsigned_in(s: &Vec<char>, start: usize, end: usize, max: u64) -> (r: Option<u64>)
    requires
        start <= end <= s@.len(),
    ensures
        match parse_unsigned(s@.subrange(start as int, end as int), max as nat) {
            Some(v) => r == Some(v as u64),
            None => r is None,
        },
{
    let ghost text = s@.subrange(start as int, end as int);
    let mut i: usize = start;
    if i < end && s[i] == '+' {
        i = i + 1;
    }
    let ghost body = unsigned_body(text);
    assert(body =~= s@.subrange(i as int, end as int));
    if i == end {
        return None;
    }
    let first: usize = i;
    let mut v: u64 = 0;
    while i < end
        invariant
            start <= first <= i <= end <= s@.len(),
            body == s@.subrange(first as int, end as int),
            body == unsigned_body(text),
            text == s@.subrange(start as int, end as int),
            body.len() > 0,
            all_digits(body.take(i - first)),
            v as nat == digits_value(body.take(i - first)),
            v <= max,
        decreases end - i,
    {
        let c = s[i];
        if !('0' <= c && c <= '9') {
            assert(!all_digits(body)) by {
                assert(body[i - first] == c);
            }
            assert(parse_unsigned(text, max as nat) is None);
            return None;
        }
        let d: u64 = (c as u32 - 48) as u64;
        assert(d == digit_value(c));
        assert(body.take(i + 1 - first).drop_last() =~= body.take(i - first));
        assert(body.take(i + 1 - first).last() == c);
        if d > max || v > (max - d) / 10 {
            proof {
                assert(digits_value(body.take(i + 1 - first)) > max) by (nonlinear_arith)
                    requires
                        digits_value(body.take(i + 1 - first)) == v * 10 + d,
                        d > max || v > (max - d) / 10,
                        v >= 0,
                ;
                lemma_digits_value_prefix_grows(body, i + 1 - first, body.len() as int);
                assert(body.take(body.len() as int) =~= body);
                assert(parse_unsigned(text, max as nat) is None);
            }
            return None;
        }
        proof {
            assert(v * 10 + d <= max) by (nonlinear_arith)
                requires
                    v <= (max - d) / 10,
                    d <= max,
                    v >= 0,
            ;
        }
        v = v * 10 + d;
        i = i + 1;
        assert(all_digits(body.take(i - first)));
    }
    assert(body.take(i - first) =~= body);
    Some(v)
}

/// The character of digit `d`.
fn digit(d: u64) -> (c: char)
    requires
        d < 10,
    ensures
        c == digit_char(d as nat),
{
    (48u8 + d as u8) as char
}

/// Appends `n` in decimal.
pub fn push_decimal(out: &mut String, n: u64)
    ensures
        final(out)@ == old(out)@ + decimal(n as nat),
    decreases n,
{
    if n >= 10 {
        push_decimal(out, n / 10);
    }
    push_char(out, digit(n % 10));
    assert(old(out)@ + decimal(n as nat) =~= if n < 10 {
        old(out)@.push(digit_char(n as nat))
    } else {
        (old(out)@ + decimal((n / 10) as nat)).push(digit_char((n % 10) as nat))
    });
}

/// Appends `n` in decimal, right-aligned in `width` characters filled with `fill`.
pub fn push_padded_decimal(out: &mut String, n: u64, width: usize, fill: char)
    ensures
        final(out)@ == old(out)@ + pad_left(decimal(n as nat), width as nat, fill),
{
    let mut digits = String::new();
    push_decimal(&mut digits, n);
    let dchars = chars_of(digits.as_str());
    let len: usize = dchars.len();
    let mut k: usize = len;
    while k < width
        invariant
            len <= k,
            k > len ==> k <= width,
            out@ == old(out)@ + Seq::new((k - len) as nat, |i: int| fill),
        decreases width - k,
    {
        push_char(out, fill);
        k = k + 1;
        assert(Seq::new((k - len) as nat, |i: int| fill) =~= Seq::new(
            (k - 1 - len) as nat,
            |i: int| fill,
        ).push(fill));
    }
    push_chars(out, &dchars, 0, len);
    assert(dchars@.subrange(0, len as int) =~= dchars@);
    if len >= width {
        assert(out@ =~= old(out)@ + decimal(n as nat));
    } else {
        assert(out@ =~= old(out)@ + (Seq::new((width - len) as nat, |i: int| fill) + decimal(
            n as nat,
        )));
    }
}

// ---------------------------------------------------------------------------
// Reading back what was written
// ---------------------------------------------------------------------------
proof fn lemma_digit_char(d: nat)
    requires
        d < 10,
    ensures
        is_digit(digit_char(d)),
        digit_value(digit_char(d)) == d,
        digit_char(d) != '+',
{
    assert(digit_char(d) as int == 48 + d);
}

proof fn lemma_decimal_is_digits(n: nat)
    ensures
        all_digits(decimal(n)),
        digits_value(decimal(n)) == n,
        decimal(n).len() >= 1,
    decreases n,
{
    lemma_digit_char(n % 10);
    if n < 10 {
        assert(decimal(n).drop_last() =~= Seq::<char>::empty());
        assert(digits_value(Seq::<char>::empty()) == 0);
    } else {
        lemma_decimal_is_digits(n / 10);
        let s = decimal(n);
        assert(s.drop_last() =~= decimal(n / 10));
        assert(digits_value(s) == (n / 10) * 10 + n % 10);
        assert forall|i: int| 0 <= i < s.len() implies is_digit(#[trigger] s[i]) by {
            if i < s.len() - 1 {
                assert(s[i] == decimal(n / 10)[i]);
            }
        }
    }
}

proof fn lemma_zeros_value(k: nat)
    ensures
        digits_value(Seq::new(k, |i: int| '0')) == 0,
        all_digits(Seq::new(k, |i: int| '0')),
    decreases k,
{
    if k > 0 {
        lemma_zeros_value((k - 1) as nat);
        assert(Seq::new(k, |i: int| '0').drop_last() =~= Seq::new((k - 1) as nat, |i: int| '0'));
    }
}

proof fn lemma_leading_zeros(k: nat, t: Seq<char>)
    ensures
        digits_value(Seq::new(k, |i: int| '0') + t) == digits_value(t),
    decreases t.len(),
{
    let z = Seq::new(k, |i: int| '0');
    if t.len() == 0 {
        assert(z + t =~= z);
        lemma_zeros_value(k);
    } else {
        lemma_leading_zeros(k, t.drop_last());
        assert((z + t).drop_last() =~= z + t.drop_last());
        assert((z + t).last() == t.last());
    }
}

proof fn lemma_decimal_short(n: nat)
    ensures
        n < 10 ==> decimal(n).len() == 1,
        n < 100 ==> decimal(n).len() <= 2,
        n < 1000 ==> decimal(n).len() <= 3,
        n < 10000 ==> decimal(n).len() <= 4,
    decreases n,
{
    if n >= 10 {
        lemma_decimal_short(n / 10);
    }
}

/// A number below 10000 written in four digits, zero-padded, is four digit
/// characters whose value is the number.
pub proof fn four_digit_decimal(n: nat)
    requires
        n < 10000,
    ensures
        pad_left(decimal(n), 4, '0').len() == 4,
        all_digits(pad_left(decimal(n), 4, '0')),
        digits_value(pad_left(decimal(n), 4, '0')) == n,
{
    lemma_decimal_short(n);
    lemma_decimal_is_digits(n);
    let d = decimal(n);
    let p = pad_left(d, 4, '0');
    if d.len() < 4 {
        let k = (4 - d.len()) as nat;
        lemma_leading_zeros(k, d);
        lemma_zeros_value(k);
        let z = Seq::new(k, |i: int| '0');
        assert forall|i: int| 0 <= i < p.len() implies is_digit(#[trigger] p[i]) by {
            if i < k {
                assert(p[i] == z[i]);
            } else {
                assert(p[i] == d[i - k]);
            }
        }
    }
}

/// The value of four digits.
pub proof fn four_digit_value(a: Seq<char>)
    requires
        a.len() == 4,
    ensures
        digits_value(a) == 1000 * digit_value(a[0]) + 100 * digit_value(a[1]) + 10 * digit_value(
            a[2],
        ) + digit_value(a[3]),
{
    let a3 = a.drop_last();
    let a2 = a3.drop_last();
    let a1 = a2.drop_last();
    let a0 = a1.drop_last();
    assert(a0.len() == 0);
    assert(digits_value(a0) == 0);
    assert(a1.last() == a[0] && a2.last() == a[1] && a3.last() == a[2] && a.last() == a[3]);
    assert(digits_value(a1) == digit_value(a[0]));
    assert(digits_value(a2) == digits_value(a1) * 10 + digit_value(a[1]));
    assert(digits_value(a3) == digits_value(a2) * 10 + digit_value(a[2]));
    assert(digits_value(a) == digits_value(a3) * 10 + digit_value(a[3]));
}

/// Four digits in numeric order are in lexicographic order, and differ.
pub proof fn four_digit_order(a: Seq<char>, b: Seq<char>)
    requires
        a.len() == 4,
        b.len() == 4,
        all_digits(a),
        all_digits(b),
        digits_value(a) < digits_value(b),
    ensures
        lex_le(a, b),
        a != b,
{
    four_digit_value(a);
    four_digit_value(b);
    assert(is_digit(a[0]) && is_digit(a[1]) && is_digit(a[2]) && is_digit(a[3]));
    assert(is_digit(b[0]) && is_digit(b[1]) && is_digit(b[2]) && is_digit(b[3]));
    let a1 = a.drop_first();
    let b1 = b.drop_first();
    let a2 = a1.drop_first();
    let b2 = b1.drop_first();
    let a3 = a2.drop_first();
    let b3 = b2.drop_first();
    let a4 = a3.drop_first();
    assert(a1[0] == a[1] && a2[0] == a[2] && a3[0] == a[3]);
    assert(b1[0] == b[1] && b2[0] == b[2] && b3[0] == b[3]);
    assert(a4.len() == 0);
    assert(lex_le(a4, b3.drop_first()));
    assert(lex_le(a3, b3) == (if a[3] != b[3] { a[3] < b[3] } else { lex_le(a4, b3.drop_first()) }));
    assert(lex_le(a2, b2) == (if a[2] != b[2] { a[2] < b[2] } else { lex_le(a3, b3) }));
    assert(lex_le(a1, b1) == (if a[1] != b[1] { a[1] < b[1] } else { lex_le(a2, b2) }));
    assert(lex_le(a, b) == (if a[0] != b[0] { a[0] < b[0] } else { lex_le(a1, b1) }));
    if a[0] == b[0] && a[1] == b[1] && a[2] == b[2] {
        assert(a[3] < b[3]);
    }
    assert(a[0] != b[0] || a[1] != b[1] || a[2] != b[2] || a[3] != b[3]);
}

/// Reading back a number written in decimal, right-aligned with zeros in any
/// width, gives the number itself, whenever it fits the type read into.
pub proof fn decimal_reads_back(n: nat, width: nat, max: nat)
    requires
        n <= max,
    ensures
        parse_unsigned(pad_left(decimal(n), width, '0'), max) == Some(n),
{
    lemma_decimal_is_digits(n);
    let d = decimal(n);
    let p = pad_left(d, width, '0');
    if d.len() < width {
        let k = (width - d.len()) as nat;
        lemma_leading_zeros(k, d);
        lemma_zeros_value(k);
        let z = Seq::new(k, |i: int| '0');
        assert forall|i: int| 0 <= i < p.len() implies is_digit(#[trigger] p[i]) by {
            if i < k {
                assert(p[i] == z[i]);
            } else {
                assert(p[i] == d[i - k]);
            }
        }
        assert(p[0] != '+');
    } else {
        assert(p[0] != '+') by {
            assert(is_digit(d[0]));
        }
    }
    assert(unsigned_body(p) == p);
}

} // verus!
