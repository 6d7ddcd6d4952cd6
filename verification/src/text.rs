//! Character-level text helpers: trimming, splitting, decimal numbers.
//!
//! A string is modelled by the sequence of its characters.

use vstd::arithmetic::div_mod::lemma_div_denominator;
use vstd::arithmetic::power::{lemma_pow0, lemma_pow1, lemma_pow_positive, pow};
use vstd::prelude::*;
use vstd::slice::slice_subrange;

verus! {

/// `String::push` appends one character at the end of the string.
pub assume_specification[ String::push ](s: &mut String, c: char)
    ensures
        final(s)@ == old(s)@.push(c),
;

/// The Unicode `White_Space` property, which decides what trimming removes.
pub open spec fn is_white_space(c: char) -> bool {
    ||| '\u{9}' <= c <= '\u{d}'
    ||| c == ' '
    ||| c == '\u{85}'
    ||| c == '\u{a0}'
    ||| c == '\u{1680}'
    ||| '\u{2000}' <= c <= '\u{200a}'
    ||| c == '\u{2028}'
    ||| c == '\u{2029}'
    ||| c == '\u{202f}'
    ||| c == '\u{205f}'
    ||| c == '\u{3000}'
}

/// `s` without its leading white space.
pub open spec fn trimmed_start(s: Seq<char>) -> Seq<char>
    decreases s.len(),
{
    if s.len() > 0 && is_white_space(s[0]) {
        trimmed_start(s.drop_first())
    } else {
        s
    }
}

/// `s` without its trailing white space.
pub open spec fn trimmed_end(s: Seq<char>) -> Seq<char>
    decreases s.len(),
{
    if s.len() > 0 && is_white_space(s.last()) {
        trimmed_end(s.drop_last())
    } else {
        s
    }
}

/// `s` without leading and trailing white space.
pub open spec fn trimmed(s: Seq<char>) -> Seq<char> {
    trimmed_end(trimmed_start(s))
}

/// Position of the first `c` in `s`, or `s.len()` when there is none.
pub open spec fn first_index(s: Seq<char>, c: char) -> int
    decreases s.len(),
{
    if s.len() == 0 || s[0] == c {
        0
    } else {
        1 + first_index(s.drop_first(), c)
    }
}

/// Position of the last `c` in `s`, or `-1` when there is none.
pub open spec fn last_index(s: Seq<char>, c: char) -> int
    decreases s.len(),
{
    if s.len() == 0 || s.last() == c {
        s.len() - 1
    } else {
        last_index(s.drop_last(), c)
    }
}

/// What stands before and after the first `c`, if `c` occurs.
pub open spec fn split_first(s: Seq<char>, c: char) -> Option<(Seq<char>, Seq<char>)> {
    let i = first_index(s, c);
    if i < s.len() {
        Some((s.take(i), s.skip(i + 1)))
    } else {
        None
    }
}

/// What stands before and after the last `c`, if `c` occurs.
pub open spec fn split_last(s: Seq<char>, c: char) -> Option<(Seq<char>, Seq<char>)> {
    let i = last_index(s, c);
    if i >= 0 {
        Some((s.take(i), s.skip(i + 1)))
    } else {
        None
    }
}

/// A line without the carriage return that ended it together with its line feed.
pub open spec fn without_cr(line: Seq<char>) -> Seq<char> {
    if line.len() > 0 && line.last() == '\r' {
        line.drop_last()
    } else {
        line
    }
}

/// The lines of a text. A line ends with `\n` or `\r\n`, which does not belong
/// to it; the ending of the last line is optional.
pub open spec fn lines_of(s: Seq<char>) -> Seq<Seq<char>>
    decreases s.len(),
{
    if s.len() == 0 {
        Seq::empty()
    } else {
        let i = first_index(s, '\n');
        if 0 <= i < s.len() {
            seq![without_cr(s.take(i))] + lines_of(s.skip(i + 1))
        } else {
            seq![s]
        }
    }
}

/// The character of a decimal digit.
pub open spec fn digit_char(d: nat) -> char {
    (48 + d) as char
}

/// The value of a decimal digit character.
pub open spec fn digit_value(c: char) -> nat {
    (c as int - 48) as nat
}

/// Whether `c` is one of `0` to `9`.
pub open spec fn is_digit(c: char) -> bool {
    '0' <= c <= '9'
}

/// `n` in decimal notation.
pub open spec fn decimal(n: nat) -> Seq<char>
    decreases n,
{
    if n < 10 {
        seq![digit_char(n)]
    } else {
        decimal(n / 10).push(digit_char(n % 10))
    }
}

/// The number that a sequence of decimal digits denotes.
pub open spec fn digits_value(s: Seq<char>) -> nat
    decreases s.len(),
{
    if s.len() == 0 {
        0
    } else {
        digits_value(s.drop_last()) * 10 + digit_value(s.last())
    }
}

/// Whether all characters of `s` are decimal digits.
pub open spec fn all_digits(s: Seq<char>) -> bool {
    forall|i: int| 0 <= i < s.len() ==> is_digit(#[trigger] s[i])
}

/// `s` without one leading plus sign.
pub open spec fn without_plus(s: Seq<char>) -> Seq<char> {
    if s.len() > 0 && s[0] == '+' {
        s.skip(1)
    } else {
        s
    }
}

/// The 16-bit number that `s` denotes: an optional `+`, then one or more
/// decimal digits whose value fits.
pub open spec fn u16_of(s: Seq<char>) -> Option<u16> {
    let d = without_plus(s);
    if d.len() > 0 && all_digits(d) && digits_value(d) <= u16::MAX {
        Some(digits_value(d) as u16)
    } else {
        None
    }
}

/// `c` with `a` to `z` replaced by `A` to `Z`.
pub open spec fn ascii_upper(c: char) -> char {
    if 'a' <= c <= 'z' {
        (c as int - 32) as char
    } else {
        c
    }
}

/// `s` with `a` to `z` replaced by `A` to `Z`.
pub open spec fn ascii_uppercase(s: Seq<char>) -> Seq<char> {
    s.map_values(|c: char| ascii_upper(c))
}

/// The characters of a string, in order.
pub fn to_chars(s: &str) -> (r: Vec<char>)
    ensures
        r@ == s@,
{
    let mut out: Vec<char> = Vec::new();
    for c in it: s.chars()
        invariant
            out@ == it.seq().take(it.index()),
            it.seq() == s@,
    {
        out.push(c);
    }
    out
}

/// The string with the given characters.
pub fn from_chars(v: &[char]) -> (r: String)
    ensures
        r@ == v@,
{
    let mut out = String::new();
    for i in 0..v.len()
        invariant
            out@ == v@.take(i as int),
    {
        out.push(v[i]);
    }
    out
}

/// Whether two strings have the same characters.
pub fn same_text(a: &str, b: &str) -> (r: bool)
    ensures
        r == (a@ == b@),
{
    a.to_string() == b.to_string()
}

/// Whether `c` is white space.
pub fn white_space(c: char) -> (r: bool)
    ensures
        r == is_white_space(c),
{
    ('\u{9}' <= c && c <= '\u{d}') || c == ' ' || c == '\u{85}' || c == '\u{a0}' || c == '\u{1680}'
        || ('\u{2000}' <= c && c <= '\u{200a}') || c == '\u{2028}' || c == '\u{2029}'
        || c == '\u{202f}' || c == '\u{205f}' || c == '\u{3000}'
}

/// The part of `s` between its leading and its trailing white space.
pub fn trim(s: &[char]) -> (r: &[char])
    ensures
        r@ == trimmed(s@),
{
    let mut from: usize = 0;
    assert(s@.skip(0) == s@);
    while from < s.len() && white_space(s[from])
        invariant
            from <= s.len(),
            trimmed_start(s@) == trimmed_start(s@.skip(from as int)),
        decreases s.len() - from,
    {
        assert(s@.skip(from as int).drop_first() == s@.skip(from + 1));
        from += 1;
    }
    assert(trimmed_start(s@) == s@.subrange(from as int, s@.len() as int));
    let mut to: usize = s.len();
    while to > from && white_space(s[to - 1])
        invariant
            from <= to <= s.len(),
            trimmed_end(trimmed_start(s@)) == trimmed_end(s@.subrange(from as int, to as int)),
        decreases to,
    {
        assert(s@.subrange(from as int, to as int).drop_last() == s@.subrange(
            from as int,
            to - 1,
        ));
        to -= 1;
    }
    slice_subrange(s, from, to)
}

/// `first_index` finds an occurrence, and the first one.
pub proof fn lemma_first_index(s: Seq<char>, c: char)
    ensures
        0 <= first_index(s, c) <= s.len(),
        first_index(s, c) < s.len() ==> s[first_index(s, c)] == c,
        forall|j: int| 0 <= j < first_index(s, c) ==> s[j] != c,
    decreases s.len(),
{
    if s.len() > 0 && s[0] != c {
        lemma_first_index(s.drop_first(), c);
        assert forall|j: int| 0 <= j < first_index(s, c) implies s[j] != c by {
            if j > 0 {
                assert(s.drop_first()[j - 1] == s[j]);
            }
        }
    }
}

/// A position with `c` and no earlier `c` is the first index.
pub proof fn lemma_first_index_is(s: Seq<char>, c: char, i: int)
    requires
        0 <= i <= s.len(),
        i < s.len() ==> s[i] == c,
        forall|j: int| 0 <= j < i ==> s[j] != c,
    ensures
        first_index(s, c) == i,
{
    lemma_first_index(s, c);
    let k = first_index(s, c);
    if k < i {
        assert(s[k] != c);
    } else if i < k {
        assert(s[i] != c);
    }
}

/// `last_index` finds an occurrence, and the last one.
pub proof fn lemma_last_index(s: Seq<char>, c: char)
    ensures
        -1 <= last_index(s, c) < s.len(),
        0 <= last_index(s, c) ==> s[last_index(s, c)] == c,
        forall|j: int| last_index(s, c) < j < s.len() ==> s[j] != c,
    decreases s.len(),
{
    if s.len() > 0 && s.last() != c {
        lemma_last_index(s.drop_last(), c);
        assert forall|j: int| last_index(s, c) < j < s.len() implies s[j] != c by {
            if j < s.len() - 1 {
                assert(s.drop_last()[j] == s[j]);
            }
        }
    }
}

/// A position with `c` and no later `c` is the last index.
pub proof fn lemma_last_index_is(s: Seq<char>, c: char, i: int)
    requires
        -1 <= i < s.len(),
        0 <= i ==> s[i] == c,
        forall|j: int| i < j < s.len() ==> s[j] != c,
    ensures
        last_index(s, c) == i,
{
    lemma_last_index(s, c);
    let k = last_index(s, c);
    if k < i {
        assert(s[i] != c);
    } else if i < k {
        assert(s[k] != c);
    }
}

/// Position of the first `c`, or the length when there is none.
pub fn find_first(s: &[char], c: char) -> (r: usize)
    ensures
        r == first_index(s@, c),
{
    let mut i: usize = 0;
    while i < s.len() && s[i] != c
        invariant
            i <= s.len(),
            forall|j: int| 0 <= j < i ==> s@[j] != c,
        decreases s.len() - i,
    {
        i += 1;
    }
    proof {
        lemma_first_index_is(s@, c, i as int);
    }
    i
}

/// The parts before and after the first `c`, if `c` occurs.
pub fn split_once(s: &[char], c: char) -> (r: Option<(&[char], &[char])>)
    ensures
        match split_first(s@, c) {
            Some((a, b)) => r matches Some((x, y)) && x@ == a && y@ == b,
            None => r is None,
        },
{
    let i: usize = find_first(s, c);
    proof {
        lemma_first_index(s@, c);
    }
    if i < s.len() {
        assert(s@.subrange(0, i as int) == s@.take(i as int));
        assert(s@.subrange(i + 1, s@.len() as int) == s@.skip(i + 1));
        Some((slice_subrange(s, 0, i), slice_subrange(s, i + 1, s.len())))
    } else {
        None
    }
}

/// The parts before and after the last `c`, if `c` occurs.
pub fn rsplit_once(s: &[char], c: char) -> (r: Option<(&[char], &[char])>)
    ensures
        match split_last(s@, c) {
            Some((a, b)) => r matches Some((x, y)) && x@ == a && y@ == b,
            None => r is None,
        },
{
    let mut i: usize = s.len();
    while i > 0
        invariant
            i <= s.len(),
            forall|j: int| i <= j < s.len() ==> s@[j] != c,
        decreases i,
    {
        if s[i - 1] == c {
            proof {
                lemma_last_index_is(s@, c, i - 1);
            }
            assert(s@.subrange(0, i - 1) == s@.take(i - 1));
            assert(s@.subrange(i as int, s@.len() as int) == s@.skip(i as int));
            return Some((slice_subrange(s, 0, i - 1), slice_subrange(s, i, s.len())));
        }
        i -= 1;
    }
    proof {
        lemma_last_index_is(s@, c, -1);
    }
    None
}

/// The decimal digits of a number are digits, and denote it.
pub proof fn lemma_decimal(n: nat)
    ensures
        decimal(n).len() > 0,
        all_digits(decimal(n)),
        digits_value(decimal(n)) == n,
    decreases n,
{
    if n < 10 {
        assert(decimal(n).drop_last() == Seq::<char>::empty());
        assert(digits_value(decimal(n).drop_last()) == 0);
    } else {
        lemma_decimal(n / 10);
        assert(decimal(n).drop_last() == decimal(n / 10));
        assert forall|i: int| 0 <= i < decimal(n).len() implies is_digit(
            #[trigger] decimal(n)[i],
        ) by {
            if i < decimal(n).len() - 1 {
                assert(decimal(n)[i] == decimal(n / 10)[i]);
            }
        }
    }
}

/// `n` in decimal notation.
pub fn decimal_string(n: u64) -> (r: String)
    ensures
        r@ == decimal(n as nat),
{
    let mut rest: u64 = n;
    let mut rev: Vec<char> = Vec::new();
    while rest >= 10
        invariant
            decimal(n as nat) == decimal(rest as nat) + rev@.reverse(),
        decreases rest,
    {
        let d: u8 = (rest % 10) as u8;
        let c: char = (48u8 + d) as char;
        let ghost before = rev@;
        rev.push(c);
        assert(rev@.reverse() == seq![c] + before.reverse());
        assert(decimal(rest as nat) == decimal((rest / 10) as nat).push(c));
        rest = rest / 10;
    }
    let mut out = String::new();
    let first: char = (48u8 + rest as u8) as char;
    out.push(first);
    let mut i: usize = rev.len();
    assert(rev@.reverse().take(0) == Seq::<char>::empty());
    while i > 0
        invariant
            i <= rev.len(),
            out@ == seq![first] + rev@.reverse().take(rev.len() - i),
        decreases i,
    {
        i -= 1;
        out.push(rev[i]);
        assert(rev@.reverse().take(rev.len() - i) == rev@.reverse().take(rev.len() - i - 1).push(
            rev@[i as int],
        ));
    }
    assert(rev@.reverse().take(rev.len() as int) == rev@.reverse());
    out
}

/// The 16-bit number that a text denotes, if it denotes one.
pub fn parse_u16(s: &[char]) -> (r: Option<u16>)
    ensures
        r == u16_of(s@),
{
    let start: usize = if s.len() > 0 && s[0] == '+' {
        1
    } else {
        0
    };
    let ghost d = without_plus(s@);
    assert(d == s@.skip(start as int));
    if start == s.len() {
        return None;
    }
    let mut i: usize = start;
    let mut value: u32 = 0;
    let mut fits: bool = true;
    assert(digits_value(d.take(0)) == 0);
    while i < s.len()
        invariant
            start <= i <= s.len(),
            d == without_plus(s@),
            d == s@.skip(start as int),
            all_digits(d.take(i - start)),
            fits ==> value == digits_value(d.take(i - start)) && value <= 65535,
            !fits ==> digits_value(d.take(i - start)) > 65535,
        decreases s.len() - i,
    {
        let c: char = s[i];
        assert(d[i - start] == c);
        if !('0' <= c && c <= '9') {
            assert(!all_digits(d));
            return None;
        }
        let ghost part = d.take(i - start);
        let ghost next = d.take(i - start + 1);
        assert(next.drop_last() == part);
        assert(next.last() == c);
        assert(all_digits(next)) by {
            assert forall|j: int| 0 <= j < next.len() implies is_digit(#[trigger] next[j]) by {
                if j < part.len() {
                    assert(next[j] == part[j]);
                }
            }
        }
        if fits {
            value = value * 10 + (c as u32 - 48);
            if value > 65535 {
                fits = false;
            }
        }
        i += 1;
    }
    assert(d.take(d.len() as int) == d);
    if fits {
        Some(value as u16)
    } else {
        None
    }
}

/// `s` with `a` to `z` replaced by `A` to `Z`.
pub fn to_ascii_uppercase(s: &[char]) -> (r: String)
    ensures
        r@ == ascii_uppercase(s@),
{
    let mut out = String::new();
    for i in 0..s.len()
        invariant
            out@ == ascii_uppercase(s@).take(i as int),
    {
        let c: char = s[i];
        let u: char = if 'a' <= c && c <= 'z' {
            (c as u8 - 32) as char
        } else {
            c
        };
        out.push(u);
        assert(ascii_uppercase(s@).take(i + 1) == ascii_uppercase(s@).take(i as int).push(u));
    }
    assert(ascii_uppercase(s@).take(s@.len() as int) == ascii_uppercase(s@));
    out
}

/// The first line of a text that starts with `a`, then a line feed, is `a`.
pub proof fn lemma_lines_step(a: Seq<char>, rest: Seq<char>)
    requires
        forall|i: int| 0 <= i < a.len() ==> a[i] != '\n',
    ensures
        lines_of(a + seq!['\n'] + rest) == seq![without_cr(a)] + lines_of(rest),
{
    let s = a + seq!['\n'] + rest;
    lemma_first_index_is(s, '\n', a.len() as int);
    assert(s.take(a.len() as int) == a);
    assert(s.skip(a.len() as int + 1) == rest);
}

/// The lines of a text, in order.
pub fn lines<'a>(s: &'a [char]) -> (r: Vec<&'a [char]>)
    ensures
        r@.len() == lines_of(s@).len(),
        forall|i: int| 0 <= i < r@.len() ==> (#[trigger] r@[i])@ == lines_of(s@)[i],
{
    let mut out: Vec<&'a [char]> = Vec::new();
    let mut rest: &'a [char] = s;
    while rest.len() > 0
        invariant
            lines_of(s@) == lines_of(s@).take(out@.len() as int) + lines_of(rest@),
            out@.len() <= lines_of(s@).len(),
            forall|i: int| 0 <= i < out@.len() ==> (#[trigger] out@[i])@ == lines_of(s@)[i],
        decreases rest@.len(),
    {
        let ghost all = lines_of(s@);
        let ghost n = out@.len() as int;
        let ghost before = rest@;
        let i: usize = find_first(rest, '\n');
        proof {
            lemma_first_index(rest@, '\n');
        }
        if i < rest.len() {
            let to: usize = if i > 0 && rest[i - 1] == '\r' {
                i - 1
            } else {
                i
            };
            let line: &'a [char] = slice_subrange(rest, 0, to);
            assert(line@ == without_cr(rest@.take(i as int)));
            rest = slice_subrange(rest, i + 1, rest.len());
            assert(rest@ == before.skip(i + 1));
            assert(lines_of(before)[0] == line@);
            assert(all[n] == (all.take(n) + lines_of(before))[n]);
            out.push(line);
            assert(all.take(n + 1) + lines_of(rest@) == all) by {
                assert(all.take(n + 1) == all.take(n).push(line@));
                assert(all == all.take(n) + (seq![line@] + lines_of(rest@)));
            }
        } else {
            assert(lines_of(before) == seq![before]);
            assert(all[n] == (all.take(n) + lines_of(before))[n]);
            out.push(rest);
            rest = slice_subrange(rest, rest.len(), rest.len());
            assert(lines_of(rest@) == Seq::<Seq<char>>::empty());
            assert(all.take(n + 1) + lines_of(rest@) == all);
        }
    }
    assert(lines_of(rest@).len() == 0);
    out
}

/// A text that is kept as it is by trimming and stands on one line.
pub open spec fn is_clean(s: Seq<char>) -> bool {
    &&& s.len() > 0
    &&& trimmed(s) == s
    &&& forall|i: int| 0 <= i < s.len() ==> s[i] != '\n'
}

/// What trimming leaves at the start is a suffix that begins with no white
/// space.
proof fn lemma_trimmed_start(s: Seq<char>)
    ensures
        exists|a: int| 0 <= a <= s.len() && trimmed_start(s) == #[trigger] s.skip(a),
        trimmed_start(s).len() > 0 ==> !is_white_space(trimmed_start(s)[0]),
    decreases s.len(),
{
    if s.len() > 0 && is_white_space(s[0]) {
        lemma_trimmed_start(s.drop_first());
        let t = s.drop_first();
        let a = choose|a: int| 0 <= a <= t.len() && trimmed_start(t) == #[trigger] t.skip(a);
        assert(t.skip(a) == s.skip(a + 1));
    } else {
        assert(s.skip(0) == s);
    }
}

/// What trimming leaves at the end is a prefix that ends with no white space.
proof fn lemma_trimmed_end(s: Seq<char>)
    ensures
        exists|b: int| 0 <= b <= s.len() && trimmed_end(s) == #[trigger] s.take(b),
        trimmed_end(s).len() > 0 ==> !is_white_space(trimmed_end(s).last()),
    decreases s.len(),
{
    if s.len() > 0 && is_white_space(s.last()) {
        lemma_trimmed_end(s.drop_last());
        let t = s.drop_last();
        let b = choose|b: int| 0 <= b <= t.len() && trimmed_end(t) == #[trigger] t.take(b);
        assert(t.take(b) == s.take(b));
    } else {
        assert(s.take(s.len() as int) == s);
    }
}

/// Trimming leaves a contiguous part of the text, and trimming it again changes
/// nothing.
pub proof fn lemma_trimmed(s: Seq<char>)
    ensures
        exists|a: int, b: int| 0 <= a <= b <= s.len() && trimmed(s) == #[trigger] s.subrange(a, b),
        trimmed(trimmed(s)) == trimmed(s),
{
    lemma_trimmed_start(s);
    let u = trimmed_start(s);
    lemma_trimmed_end(u);
    let a = choose|a: int| 0 <= a <= s.len() && u == #[trigger] s.skip(a);
    let b = choose|b: int| 0 <= b <= u.len() && trimmed_end(u) == #[trigger] u.take(b);
    assert(u.take(b) == s.subrange(a, a + b));
    let t = trimmed(s);
    if t.len() > 0 {
        assert(t[0] == u[0]);
        assert(trimmed_start(t) == t);
    }
}

/// A text without any white space is clean.
pub proof fn lemma_solid_is_clean(s: Seq<char>)
    requires
        s.len() > 0,
        forall|i: int| 0 <= i < s.len() ==> !is_white_space(#[trigger] s[i]),
    ensures
        is_clean(s),
{
    assert(!is_white_space(s[0]));
    assert(!is_white_space(s.last()));
    assert forall|i: int| 0 <= i < s.len() implies s[i] != '\n' by {
        assert(!is_white_space(s[i]));
    }
}

/// No line holds a line feed.
pub proof fn lemma_lines_hold_no_line_feed(s: Seq<char>)
    ensures
        forall|i: int, j: int|
            0 <= i < lines_of(s).len() && 0 <= j < lines_of(s)[i].len()
                ==> #[trigger] lines_of(s)[i][j] != '\n',
    decreases s.len(),
{
    if s.len() > 0 {
        let n = first_index(s, '\n');
        lemma_first_index(s, '\n');
        if n < s.len() {
            let rest = s.skip(n + 1);
            lemma_lines_hold_no_line_feed(rest);
            assert forall|i: int, j: int|
                0 <= i < lines_of(s).len() && 0 <= j < lines_of(s)[i].len() implies #[trigger] lines_of(
                s,
            )[i][j] != '\n' by {
                if i == 0 {
                    assert(lines_of(s)[0][j] == s[j]);
                } else {
                    assert(lines_of(s)[i] == lines_of(rest)[i - 1]);
                }
            }
        }
    }
}

/// A line feed separates the lines before it from the lines after it.
pub proof fn lemma_lines_join(a: Seq<char>, rest: Seq<char>)
    ensures
        lines_of(a + seq!['\n'] + rest) == lines_of(a + seq!['\n']) + lines_of(rest),
    decreases a.len(),
{
    let s = a + seq!['\n'] + rest;
    let t = a + seq!['\n'];
    lemma_first_index(a, '\n');
    let i = first_index(a, '\n');
    assert(forall|j: int| 0 <= j < i ==> s[j] == a[j] && t[j] == a[j]);
    lemma_first_index_is(s, '\n', i);
    lemma_first_index_is(t, '\n', i);
    assert(s.take(i) == t.take(i));
    if i < a.len() {
        let b = a.skip(i + 1);
        lemma_lines_join(b, rest);
        assert(s.skip(i + 1) == b + seq!['\n'] + rest);
        assert(t.skip(i + 1) == b + seq!['\n']);
        assert(lines_of(s) == seq![without_cr(s.take(i))] + lines_of(b + seq!['\n'] + rest));
        assert(lines_of(t) == seq![without_cr(s.take(i))] + lines_of(b + seq!['\n']));
    } else {
        assert(s.skip(i + 1) == rest);
        assert(t.skip(i + 1) == Seq::<char>::empty());
        assert(lines_of(Seq::<char>::empty()) == Seq::<Seq<char>>::empty());
        assert(lines_of(s) == seq![without_cr(s.take(i))] + lines_of(rest));
        assert(lines_of(t) == seq![without_cr(s.take(i))] + lines_of(Seq::<char>::empty()));
    }
    assert(lines_of(s) == lines_of(t) + lines_of(rest));
}

/// White space is what Unicode calls so, by code point.
pub proof fn law_white_space(c: char)
    ensures
        is_white_space(c) <==> ({
            let n = c as u32;
            ||| n == 9 || n == 10 || n == 11 || n == 12 || n == 13 || n == 32
            ||| n == 133 || n == 160 || n == 5760
            ||| n >= 8192 && n <= 8202
            ||| n == 8232 || n == 8233 || n == 8239 || n == 8287 || n == 12288
        }),
{
}

/// Where trimming cuts at the start.
proof fn lemma_start_cut(s: Seq<char>) -> (a: int)
    ensures
        0 <= a <= s.len(),
        trimmed_start(s) == s.skip(a),
        forall|i: int| 0 <= i < a ==> is_white_space(#[trigger] s[i]),
        a < s.len() ==> !is_white_space(s[a]),
    decreases s.len(),
{
    if s.len() > 0 && is_white_space(s[0]) {
        let t = s.drop_first();
        let b = lemma_start_cut(t);
        assert(t.skip(b) == s.skip(b + 1));
        assert forall|i: int| 0 <= i < b + 1 implies is_white_space(#[trigger] s[i]) by {
            if i > 0 {
                assert(t[i - 1] == s[i]);
            }
        }
        if b < t.len() {
            assert(t[b] == s[b + 1]);
        }
        b + 1
    } else {
        assert(s.skip(0) == s);
        0
    }
}

/// Where trimming cuts at the end.
proof fn lemma_end_cut(s: Seq<char>) -> (b: int)
    ensures
        0 <= b <= s.len(),
        trimmed_end(s) == s.take(b),
        forall|i: int| b <= i < s.len() ==> is_white_space(#[trigger] s[i]),
        b > 0 ==> !is_white_space(s[b - 1]),
    decreases s.len(),
{
    if s.len() > 0 && is_white_space(s.last()) {
        let t = s.drop_last();
        let b = lemma_end_cut(t);
        assert(t.take(b) == s.take(b));
        assert forall|i: int| b <= i < s.len() implies is_white_space(#[trigger] s[i]) by {
            if i < t.len() {
                assert(t[i] == s[i]);
            }
        }
        if b > 0 {
            assert(t[b - 1] == s[b - 1]);
        }
        b
    } else {
        assert(s.take(s.len() as int) == s);
        s.len() as int
    }
}

/// Trimming takes away white space at both ends and nothing else, and leaves none
/// there.
pub proof fn law_trimming(s: Seq<char>)
    ensures
        exists|a: int, b: int|
            {
                &&& 0 <= a <= b <= s.len()
                &&& trimmed(s) == #[trigger] s.subrange(a, b)
                &&& forall|i: int| 0 <= i < a ==> is_white_space(#[trigger] s[i])
                &&& forall|i: int| b <= i < s.len() ==> is_white_space(#[trigger] s[i])
                &&& a < b ==> !is_white_space(s[a]) && !is_white_space(s[b - 1])
            },
{
    let a = lemma_start_cut(s);
    let t = s.skip(a);
    let c = lemma_end_cut(t);
    let b = a + c;
    assert(t.take(c) == s.subrange(a, b));
    assert forall|i: int| b <= i < s.len() implies is_white_space(#[trigger] s[i]) by {
        assert(t[i - a] == s[i]);
    }
    if c > 0 {
        assert(t[c - 1] == s[b - 1]);
    }
}

/// Splitting at the first separator: the two parts and the separator between them
/// make the text, and the part before it holds no separator. A text that is not
/// split holds none.
pub proof fn law_split_first(s: Seq<char>, c: char)
    ensures
        match split_first(s, c) {
            Some((a, b)) => s == a + seq![c] + b && !a.contains(c),
            None => !s.contains(c),
        },
{
    lemma_first_index(s, c);
    let i = first_index(s, c);
    if i < s.len() {
        assert(s == s.take(i) + seq![c] + s.skip(i + 1));
    }
}

/// Splitting at the last separator: the two parts and the separator between them
/// make the text, and the part after it holds no separator. A text that is not
/// split holds none.
pub proof fn law_split_last(s: Seq<char>, c: char)
    ensures
        match split_last(s, c) {
            Some((a, b)) => s == a + seq![c] + b && !b.contains(c),
            None => !s.contains(c),
        },
{
    lemma_last_index(s, c);
    let i = last_index(s, c);
    if i >= 0 {
        assert(s == s.take(i) + seq![c] + s.skip(i + 1));
        let b = s.skip(i + 1);
        assert forall|j: int| 0 <= j < b.len() implies b[j] != c by {
            assert(b[j] == s[i + 1 + j]);
        }
    }
}

/// The lines of a text, one at a time. What stands before the first line feed is
/// the first line, without a carriage return at its end; the rest follows. A text
/// without a line feed is one line, as it is, and an empty text has no lines.
pub proof fn law_lines(a: Seq<char>, rest: Seq<char>)
    requires
        !a.contains('\n'),
    ensures
        a.len() > 0 && a.last() == '\r' ==> lines_of(a + seq!['\n'] + rest) == seq![
            a.drop_last(),
        ] + lines_of(rest),
        a.len() == 0 || a.last() != '\r' ==> lines_of(a + seq!['\n'] + rest) == seq![a]
            + lines_of(rest),
        a.len() > 0 ==> lines_of(a) == seq![a],
        lines_of(Seq::<char>::empty()).len() == 0,
{
    assert forall|i: int| 0 <= i < a.len() implies a[i] != '\n' by {
        assert(a.contains(a[i]));
    }
    lemma_lines_step(a, rest);
    lemma_first_index_is(a, '\n', a.len() as int);
}

/// The digits of a number, each from the number itself: the one at place `i` is
/// what is left of the number above that place, modulo ten. There are as many as
/// the number needs.
pub proof fn law_decimal(n: nat)
    ensures
        decimal(n).len() > 0,
        n < pow(10, decimal(n).len()),
        n >= 10 ==> pow(10, (decimal(n).len() - 1) as nat) <= n,
        n < 10 ==> decimal(n).len() == 1,
        forall|i: int|
            0 <= i < decimal(n).len() ==> (#[trigger] decimal(n)[i]) as int == 48 + (n as int / pow(
                10,
                (decimal(n).len() - 1 - i) as nat,
            )) % 10,
    decreases n,
{
    let d = decimal(n);
    if n < 10 {
        lemma_pow0(10);
        lemma_pow1(10);
        assert(d.len() == 1);
        assert(n as int / 1 == n);
    } else {
        let m = n / 10;
        law_decimal(m);
        let e = decimal(m);
        let k = e.len();
        assert(d == e.push(digit_char(n % 10)));
        reveal(pow);
        assert(pow(10, k + 1) == 10 * pow(10, k));
        if m >= 10 {
            assert(pow(10, k) == 10 * pow(10, (k - 1) as nat));
        } else {
            lemma_pow0(10);
            lemma_pow1(10);
        }
        assert forall|i: int| 0 <= i < d.len() implies (#[trigger] d[i]) as int == 48 + (n as int
            / pow(10, (d.len() - 1 - i) as nat)) % 10 by {
            if i < k {
                let p = pow(10, (k - 1 - i) as nat);
                assert(pow(10, (k - i) as nat) == 10 * p);
                lemma_pow_positive(10, (k - 1 - i) as nat);
                lemma_div_denominator(n as int, 10, p);
                assert(d[i] == e[i]);
            } else {
                lemma_pow0(10);
                assert(n as int / 1 == n);
            }
        }
    }
}

/// `k` zeros.
pub open spec fn zeros(k: nat) -> Seq<char> {
    Seq::new(k, |i: int| '0')
}

/// Whether `s` spells a number: an optional `+`, `k` zeros, then the number in
/// decimal notation.
pub open spec fn spells(s: Seq<char>, n: nat, plus: bool, k: nat) -> bool {
    s == (if plus {
        seq!['+']
    } else {
        Seq::empty()
    }) + zeros(k) + decimal(n)
}

proof fn lemma_zeros(k: nat, d: Seq<char>)
    requires
        all_digits(d),
    ensures
        all_digits(zeros(k) + d),
        digits_value(zeros(k) + d) == digits_value(d),
    decreases k + d.len(),
{
    let z = zeros(k);
    let s = z + d;
    if d.len() > 0 {
        lemma_zeros(k, d.drop_last());
        assert(s.drop_last() == z + d.drop_last());
        assert(s.last() == d.last());
    } else if k > 0 {
        let y = zeros((k - 1) as nat);
        lemma_zeros((k - 1) as nat, d);
        assert(s.drop_last() == y + d);
    }
}

proof fn lemma_digits_are_zeros_and_decimal(d: Seq<char>) -> (k: nat)
    requires
        d.len() > 0,
        all_digits(d),
    ensures
        d == zeros(k) + decimal(digits_value(d)),
    decreases d.len(),
{
    let c = d.last();
    let e = d.drop_last();
    assert(is_digit(d[d.len() - 1]));
    let v = digit_value(c);
    assert(v < 10 && digit_char(v) == c);
    if e.len() == 0 {
        assert(digits_value(e) == 0);
        assert(d == zeros(0) + decimal(v));
        0
    } else {
        assert forall|i: int| 0 <= i < e.len() implies is_digit(#[trigger] e[i]) by {
            assert(e[i] == d[i]);
        }
        let k = lemma_digits_are_zeros_and_decimal(e);
        let w = digits_value(e);
        assert(digits_value(d) == w * 10 + v);
        assert(d == e.push(c));
        if w > 0 {
            assert((w * 10 + v) / 10 == w && (w * 10 + v) % 10 == v);
            assert(decimal(w * 10 + v) == decimal(w).push(c));
            assert(d == zeros(k) + decimal(digits_value(d)));
            k
        } else {
            assert(decimal(0) == seq!['0']);
            assert(d == zeros(k + 1) + decimal(digits_value(d)));
            k + 1
        }
    }
}

/// A text denotes a 16-bit number exactly if it spells it: an optional `+`, any
/// number of zeros, and the number in decimal notation.
pub proof fn law_port_numbers(s: Seq<char>, p: u16)
    ensures
        u16_of(s) == Some(p) <==> exists|plus: bool, k: nat| #[trigger]
            spells(s, p as nat, plus, k),
{
    if u16_of(s) == Some(p) {
        let d = without_plus(s);
        let k = lemma_digits_are_zeros_and_decimal(d);
        let plus = s[0] == '+';
        if plus {
            assert(s == seq!['+'] + d);
            assert(s == seq!['+'] + zeros(k) + decimal(p as nat));
        } else {
            assert(s == Seq::empty() + zeros(k) + decimal(p as nat));
        }
        assert(spells(s, p as nat, plus, k));
    }
    if exists|plus: bool, k: nat| #[trigger] spells(s, p as nat, plus, k) {
        let (plus, k) = choose|plus: bool, k: nat| #[trigger]
            spells(s, p as nat, plus, k);
        lemma_decimal(p as nat);
        lemma_zeros(k, decimal(p as nat));
        let d = zeros(k) + decimal(p as nat);
        if plus {
            assert(s == seq!['+'] + d);
            assert(s.skip(1) == d);
        } else {
            assert(s == d);
            assert(is_digit(d[0]));
        }
        assert(without_plus(s) == d);
    }
}

/// Upper case changes the letters from `a` to `z`, each to the letter 32 places
/// before it, and nothing else.
pub proof fn law_upper_case(s: Seq<char>)
    ensures
        ascii_uppercase(s).len() == s.len(),
        forall|i: int|
            0 <= i < s.len() ==> ({
                let c = s[i] as int;
                (#[trigger] ascii_uppercase(s)[i]) as int == if 97 <= c <= 122 {
                    c - 32
                } else {
                    c
                }
            }),
{
}

} // verus!
