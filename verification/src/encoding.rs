//! Hexadecimal text and the textual forms of a UUID.

use vstd::prelude::*;

verus! {

/// The lower-case hexadecimal digit of a number below sixteen.
pub open spec fn hex_digit(n: int) -> char {
    if n < 10 {
        (48 + n) as char
    } else {
        (87 + n) as char
    }
}

/// Whether `c` is a hexadecimal digit, of either case.
pub open spec fn is_hex_digit(c: char) -> bool {
    '0' <= c <= '9' || 'a' <= c <= 'f' || 'A' <= c <= 'F'
}

/// The value of a hexadecimal digit.
pub open spec fn hex_value(c: char) -> int {
    if '0' <= c <= '9' {
        c as int - 48
    } else if 'a' <= c <= 'f' {
        c as int - 87
    } else {
        c as int - 55
    }
}

/// Two lower-case hexadecimal digits for each byte, the higher half first.
pub open spec fn hex_of(data: Seq<u8>) -> Seq<char> {
    Seq::new(
        data.len() * 2,
        |i: int|
            if i % 2 == 0 {
                hex_digit(data[i / 2] as int / 16)
            } else {
                hex_digit(data[i / 2] as int % 16)
            },
    )
}

/// Whether all characters of `s` are hexadecimal digits.
pub open spec fn all_hex(s: Seq<char>) -> bool {
    forall|i: int| 0 <= i < s.len() ==> is_hex_digit(#[trigger] s[i])
}

/// The bytes that `s` spells with two hexadecimal digits each, if it does.
pub open spec fn unhex(s: Seq<char>) -> Option<Seq<u8>> {
    if s.len() % 2 == 0 && all_hex(s) {
        Some(
            Seq::new(
                s.len() / 2,
                |i: int| (hex_value(s[2 * i]) * 16 + hex_value(s[2 * i + 1])) as u8,
            ),
        )
    } else {
        None
    }
}

/// Whether `s` has the hyphenated layout of a UUID: groups of 8, 4, 4, 4 and
/// 12 characters with hyphens between them.
pub open spec fn has_uuid_hyphens(s: Seq<char>) -> bool {
    s.len() == 36 && s[8] == '-' && s[13] == '-' && s[18] == '-' && s[23] == '-'
}

/// The characters of the five groups of a hyphenated UUID, joined.
pub open spec fn uuid_groups(s: Seq<char>) -> Seq<char> {
    s.subrange(0, 8) + s.subrange(9, 13) + s.subrange(14, 18) + s.subrange(19, 23) + s.subrange(
        24,
        36,
    )
}

/// Whether `s` is `urn:uuid:` in any mixture of upper and lower case.
pub open spec fn is_urn_prefix(s: Seq<char>) -> bool {
    let lower = "urn:uuid:"@;
    let upper = "URN:UUID:"@;
    s.len() == 9 && forall|i: int| 0 <= i < 9 ==> (#[trigger] s[i] == lower[i] || s[i] == upper[i])
}

/// The sixteen bytes that `s` spells as a UUID: 32 hexadecimal digits, or the
/// hyphenated form, bare, in braces or behind `urn:uuid:`.
pub open spec fn uuid_of(s: Seq<char>) -> Option<Seq<u8>> {
    let bare = if s.len() == 38 && s[0] == '{' && s[37] == '}' {
        s.subrange(1, 37)
    } else if s.len() == 45 && is_urn_prefix(s.take(9)) {
        s.skip(9)
    } else {
        s
    };
    if s.len() == 32 {
        unhex(s)
    } else if has_uuid_hyphens(bare) {
        unhex(uuid_groups(bare))
    } else {
        None
    }
}

/// Whether `s` is a random (version 4) UUID in lower-case hyphenated form.
pub open spec fn is_uuid_v4(s: Seq<char>) -> bool {
    &&& has_uuid_hyphens(s)
    &&& forall|i: int|
        0 <= i < 36 && i != 8 && i != 13 && i != 18 && i != 23 ==> ('0' <= #[trigger] s[i] <= '9'
            || 'a' <= s[i] <= 'f')
    &&& s[14] == '4'
    &&& (s[19] == '8' || s[19] == '9' || s[19] == 'a' || s[19] == 'b')
}

/// Encoding and then decoding gives the bytes back.
pub proof fn lemma_hex_round_trip(data: Seq<u8>)
    ensures
        unhex(hex_of(data)) == Some(data),
        hex_of(data).len() == 2 * data.len(),
{
    let s = hex_of(data);
    assert forall|i: int| 0 <= i < s.len() implies is_hex_digit(#[trigger] s[i]) by {
        let b = data[i / 2] as int;
        assert(0 <= b / 16 < 16 && 0 <= b % 16 < 16);
    }
    let back = unhex(s)->0;
    assert forall|i: int| 0 <= i < data.len() implies back[i] == data[i] by {
        let b = data[i] as int;
        assert(0 <= b / 16 < 16 && 0 <= b % 16 < 16);
        assert((2 * i) / 2 == i && (2 * i) % 2 == 0);
        assert((2 * i + 1) / 2 == i && (2 * i + 1) % 2 == 1);
        assert(s[2 * i] == hex_digit(b / 16));
        assert(s[2 * i + 1] == hex_digit(b % 16));
        assert(hex_value(s[2 * i]) * 16 + hex_value(s[2 * i + 1]) == b);
    }
    assert(back == data);
}

/// The lower-case hexadecimal digit of a number below sixteen.
fn hex_char(n: u8) -> (r: char)
    requires
        n < 16,
    ensures
        r == hex_digit(n as int),
{
    if n < 10 {
        (48u8 + n) as char
    } else {
        (87u8 + n) as char
    }
}

/// Two lower-case hexadecimal digits for each byte.
pub fn hex_text(data: &[u8]) -> (r: String)
    ensures
        r@ == hex_of(data@),
{
    let mut out = String::new();
    for i in 0..data.len()
        invariant
            out@ == hex_of(data@).take(2 * i),
    {
        let b: u8 = data[i];
        let ghost before = out@;
        out.push(hex_char(b / 16));
        out.push(hex_char(b % 16));
        proof {
            let all = hex_of(data@);
            assert((2 * i) / 2 == i as int && (2 * i) % 2 == 0);
            assert((2 * i + 1) / 2 == i as int && (2 * i + 1) % 2 == 1);
            assert(all.take(2 * (i + 1)) == before.push(hex_digit(b as int / 16)).push(
                hex_digit(b as int % 16),
            ));
        }
    }
    assert(hex_of(data@).take(2 * data@.len() as int) == hex_of(data@));
    out
}

/// Hexadecimal text has two digits for each byte: the one for its higher half, and
/// the one for its lower half.
pub proof fn law_hex_digits(data: Seq<u8>, i: int)
    requires
        0 <= i < data.len(),
    ensures
        hex_of(data).len() == 2 * data.len(),
        hex_of(data)[2 * i] == "0123456789abcdef"@[data[i] as int / 16],
        hex_of(data)[2 * i + 1] == "0123456789abcdef"@[data[i] as int % 16],
{
    reveal_strlit("0123456789abcdef");
    let b = data[i] as int;
    assert((2 * i) / 2 == i && (2 * i) % 2 == 0);
    assert((2 * i + 1) / 2 == i && (2 * i + 1) % 2 == 1);
    assert(0 <= b / 16 < 16 && 0 <= b % 16 < 16);
}

/// A text spells bytes in hexadecimal exactly if, in lower case, it is their
/// hexadecimal text.
pub proof fn law_hex_reading(s: Seq<char>, data: Seq<u8>)
    ensures
        unhex(s) == Some(data) <==> s.len() == 2 * data.len() && forall|i: int|
            0 <= i < s.len() ==> {
                ||| #[trigger] s[i] == hex_of(data)[i]
                ||| 'A' <= s[i] <= 'F' && s[i] as int + 32 == hex_of(data)[i] as int
            },
{
    let h = hex_of(data);
    assert forall|i: int| 0 <= i < h.len() implies 0 <= data[i / 2] as int / 16 < 16 && 0
        <= data[i / 2] as int % 16 < 16 && ('0' <= #[trigger] h[i] <= '9' || 'a' <= h[i] <= 'f')
        by {}
    if unhex(s) == Some(data) {
        assert(s.len() == 2 * data.len());
        assert forall|i: int| 0 <= i < s.len() implies {
            ||| #[trigger] s[i] == h[i]
            ||| 'A' <= s[i] <= 'F' && s[i] as int + 32 == h[i] as int
        } by {
            let k = i / 2;
            assert(is_hex_digit(s[2 * k]) && is_hex_digit(s[2 * k + 1]));
            let hi = hex_value(s[2 * k]);
            let lo = hex_value(s[2 * k + 1]);
            assert(data[k] == (hi * 16 + lo) as u8);
            assert(data[k] as int / 16 == hi && data[k] as int % 16 == lo);
        }
    }
    if s.len() == 2 * data.len() && forall|i: int|
        0 <= i < s.len() ==> {
            ||| #[trigger] s[i] == h[i]
            ||| 'A' <= s[i] <= 'F' && s[i] as int + 32 == h[i] as int
        } {
        assert forall|i: int| 0 <= i < s.len() implies is_hex_digit(#[trigger] s[i]) by {
            assert('0' <= h[i] <= '9' || 'a' <= h[i] <= 'f');
        }
        let back = unhex(s)->0;
        assert forall|k: int| 0 <= k < data.len() implies back[k] == data[k] by {
            assert((2 * k) / 2 == k && (2 * k) % 2 == 0);
            assert((2 * k + 1) / 2 == k && (2 * k + 1) % 2 == 1);
            let b = data[k] as int;
            assert(0 <= b / 16 < 16 && 0 <= b % 16 < 16);
            assert(h[2 * k] == hex_digit(b / 16));
            assert(h[2 * k + 1] == hex_digit(b % 16));
            assert(s[2 * k] == h[2 * k] || s[2 * k] as int + 32 == h[2 * k] as int);
            assert(s[2 * k + 1] == h[2 * k + 1] || s[2 * k + 1] as int + 32 == h[2 * k
                + 1] as int);
            assert(hex_value(s[2 * k]) == b / 16);
            assert(hex_value(s[2 * k + 1]) == b % 16);
        }
        assert(back == data);
    }
}

/// The text of 32 characters with hyphens behind the first 8, 12, 16 and 20.
pub open spec fn hyphenated(s: Seq<char>) -> Seq<char> {
    s.subrange(0, 8) + seq!['-'] + s.subrange(8, 12) + seq!['-'] + s.subrange(12, 16) + seq!['-']
        + s.subrange(16, 20) + seq!['-'] + s.subrange(20, 32)
}

/// The forms in which a UUID can be written all give the same bytes: 32
/// hexadecimal digits, with hyphens, in braces, or behind `urn:uuid:`.
pub proof fn law_uuid_forms(s: Seq<char>)
    requires
        s.len() == 32,
    ensures
        uuid_of(s) == unhex(s),
        uuid_of(hyphenated(s)) == unhex(s),
        uuid_of(seq!['{'] + hyphenated(s) + seq!['}']) == unhex(s),
        uuid_of("urn:uuid:"@ + hyphenated(s)) == unhex(s),
        uuid_of("URN:UUID:"@ + hyphenated(s)) == unhex(s),
{
    reveal_strlit("urn:uuid:");
    reveal_strlit("URN:UUID:");
    let h = hyphenated(s);
    assert(h.len() == 36);
    assert(has_uuid_hyphens(h));
    assert(uuid_groups(h) == s);
    let braced = seq!['{'] + h + seq!['}'];
    assert(braced.subrange(1, 37) == h);
    let lower = "urn:uuid:"@ + h;
    assert(lower.take(9) == "urn:uuid:"@);
    assert(lower.skip(9) == h);
    let upper = "URN:UUID:"@ + h;
    assert(upper.take(9) == "URN:UUID:"@);
    assert(upper.skip(9) == h);
}

/// What a random UUID looks like: lower-case digits in the five groups, with the
/// version and the variant in their places.
pub proof fn law_random_uuid(s: Seq<char>)
    requires
        is_uuid_v4(s),
    ensures
        s.len() == 36,
        s[8] == '-' && s[13] == '-' && s[18] == '-' && s[23] == '-',
        s[14] == '4',
        s[19] == '8' || s[19] == '9' || s[19] == 'a' || s[19] == 'b',
        forall|i: int|
            0 <= i < 36 && i != 8 && i != 13 && i != 18 && i != 23 ==> "0123456789abcdef"@.contains(
                #[trigger] s[i],
            ),
        uuid_of(s) is Some,
{
    reveal_strlit("0123456789abcdef");
    let hex = "0123456789abcdef"@;
    assert forall|i: int|
        0 <= i < 36 && i != 8 && i != 13 && i != 18 && i != 23 implies hex.contains(
        #[trigger] s[i],
    ) by {
        let n = if s[i] <= '9' {
            s[i] as int - 48
        } else {
            s[i] as int - 87
        };
        assert(hex[n] == s[i]);
    }
    let g = uuid_groups(s);
    assert forall|i: int| 0 <= i < g.len() implies is_hex_digit(#[trigger] g[i]) by {
        let k = if i < 8 {
            i
        } else if i < 12 {
            i + 1
        } else if i < 16 {
            i + 2
        } else if i < 20 {
            i + 3
        } else {
            i + 4
        };
        assert(g[i] == s[k]);
        assert('0' <= s[k] <= '9' || 'a' <= s[k] <= 'f');
    }
}

} // verus!
