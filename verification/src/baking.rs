//! Settings that a build script bakes into the binary: read from an `.env`
//! file, overridden by the environment of the build.

use crate::config::{string_of, text_of};
use crate::text::{
    from_chars, lemma_first_index_is, lines, lines_of, same_text, split_first, split_once, to_chars,
    trim, trimmed,
};
use vstd::prelude::*;
use vstd::slice::slice_subrange;
use vstd::string::StringExecFns;

verus! {

/// The names of the settings.
pub const BAKED_KEYS: [&'static str; 7] = [
    "RUSTDESK_SERVER",
    "RUSTDESK_KEY",
    "RUSTDESK_SOCKS5",
    "RUSTDESK_ID",
    "RUSTDESK_PASSWORD",
    "RUSTDESK_DIRECT",
    "RUSTDESK_DIRECT_PORT",
];

/// `s` without leading `c`s.
pub open spec fn stripped_start(s: Seq<char>, c: char) -> Seq<char>
    decreases s.len(),
{
    if s.len() > 0 && s[0] == c {
        stripped_start(s.drop_first(), c)
    } else {
        s
    }
}

/// `s` without trailing `c`s.
pub open spec fn stripped_end(s: Seq<char>, c: char) -> Seq<char>
    decreases s.len(),
{
    if s.len() > 0 && s.last() == c {
        stripped_end(s.drop_last(), c)
    } else {
        s
    }
}

/// `s` without leading and trailing `c`s.
pub open spec fn stripped(s: Seq<char>, c: char) -> Seq<char> {
    stripped_end(stripped_start(s, c), c)
}

/// A value without white space, then double quotes, then single quotes around
/// it.
pub open spec fn unquoted(v: Seq<char>) -> Seq<char> {
    stripped(stripped(trimmed(v), '"'), '\'')
}

/// Key and value of a line of an `.env` file; none for a blank line, a comment
/// or a line without `=`.
pub open spec fn env_entry(line: Seq<char>) -> Option<(Seq<char>, Seq<char>)> {
    let l = trimmed(line);
    if l.len() == 0 || l[0] == '#' {
        None
    } else {
        match split_first(l, '=') {
            Some((k, v)) => Some((trimmed(k), unquoted(v))),
            None => None,
        }
    }
}

/// The value of the last line with the given key, if there is one.
pub open spec fn env_field(lines: Seq<Seq<char>>, key: Seq<char>) -> Option<Seq<char>>
    decreases lines.len(),
{
    if lines.len() == 0 {
        None
    } else {
        match env_entry(lines.last()) {
            Some((k, v)) => if k == key {
                Some(v)
            } else {
                env_field(lines.drop_last(), key)
            },
            None => env_field(lines.drop_last(), key),
        }
    }
}

/// The value to bake in for a key: what the environment of the build says,
/// unless that is empty, else what the `.env` file says, if there is one.
pub open spec fn baked_of(
    key: Seq<char>,
    env_file: Option<Seq<char>>,
    process: Option<Seq<char>>,
) -> Option<Seq<char>> {
    match process {
        Some(v) => if v.len() > 0 {
            Some(v)
        } else {
            file_value(key, env_file)
        },
        None => file_value(key, env_file),
    }
}

/// The value of a key in an `.env` file, if there is a file.
pub open spec fn file_value(key: Seq<char>, env_file: Option<Seq<char>>) -> Option<Seq<char>> {
    match env_file {
        Some(text) => env_field(lines_of(text), key),
        None => None,
    }
}

/// `s` without leading and trailing `c`s.
fn strip(s: &[char], c: char) -> (r: &[char])
    ensures
        r@ == stripped(s@, c),
{
    let mut from: usize = 0;
    assert(s@.skip(0) == s@);
    while from < s.len() && s[from] == c
        invariant
            from <= s.len(),
            stripped_start(s@, c) == stripped_start(s@.skip(from as int), c),
        decreases s.len() - from,
    {
        assert(s@.skip(from as int).drop_first() == s@.skip(from + 1));
        from += 1;
    }
    assert(stripped_start(s@, c) == s@.subrange(from as int, s@.len() as int));
    let mut to: usize = s.len();
    while to > from && s[to - 1] == c
        invariant
            from <= to <= s.len(),
            stripped_end(stripped_start(s@, c), c) == stripped_end(
                s@.subrange(from as int, to as int),
                c,
            ),
        decreases to,
    {
        assert(s@.subrange(from as int, to as int).drop_last() == s@.subrange(
            from as int,
            to - 1,
        ));
        to -= 1;
    }
    slice_subrange(s, from, to)
}

/// The value of a line of an `.env` file, if the line has the given key.
fn value_in_line(line: &[char], key: &str) -> (r: Option<String>)
    ensures
        string_of(r) == match env_entry(line@) {
            Some((k, v)) => if k == key@ {
                Some(v)
            } else {
                None
            },
            None => None,
        },
{
    let l: &[char] = trim(line);
    if l.len() == 0 || l[0] == '#' {
        return None;
    }
    match split_once(l, '=') {
        Some((k, v)) => {
            let name: String = from_chars(trim(k));
            if same_text(&name, key) {
                Some(from_chars(strip(strip(trim(v), '"'), '\'')))
            } else {
                None
            }
        },
        None => None,
    }
}

/// The value to bake in for a key, given the text of the `.env` file, if there
/// is one, and the value in the environment of the build. The environment wins
/// unless its value is empty; of several lines with the key the last counts.
pub fn baked_value(key: &str, env_file: Option<&str>, process: Option<&str>) -> (r: Option<String>)
    ensures
        string_of(r) == baked_of(key@, text_of(env_file), text_of(process)),
{
    if let Some(v) = process {
        if !v.is_empty() {
            return Some(v.to_string());
        }
    }
    let mut found: Option<String> = None;
    if let Some(text) = env_file {
        let chars: Vec<char> = to_chars(text);
        let all: Vec<&[char]> = lines(&chars);
        let ghost model = lines_of(text@);
        for n in 0..all.len()
            invariant
                model == lines_of(text@),
                all@.len() == model.len(),
                forall|i: int| 0 <= i < all@.len() ==> (#[trigger] all@[i])@ == model[i],
                string_of(found) == env_field(model.take(n as int), key@),
        {
            proof {
                assert(model.take(n + 1).drop_last() == model.take(n as int));
                assert(model.take(n + 1).last() == all@[n as int]@);
            }
            let value: Option<String> = value_in_line(all[n], key);
            if value.is_some() {
                found = value;
            }
        }
        assert(model.take(model.len() as int) == model);
    }
    found
}

/// The line by which a build script bakes a value in.
pub fn bake_line(key: &str, value: &str) -> (r: String)
    ensures
        r@ == "cargo:rustc-env="@ + key@ + "="@ + value@,
{
    let mut out: String = "cargo:rustc-env=".to_string();
    out.append(key);
    out.append("=");
    out.append(value);
    out
}

/// The lines by which a build script bakes the settings in, given the `.env`
/// file, if there is one, and the value of each of [`BAKED_KEYS`] in the
/// environment of the build: one line for each setting that has a value.
pub fn bake_env_config(env_file: Option<&str>, process: &[Option<&str>; 7]) -> (r: Vec<String>)
    ensures
        r@.map_values(|s: String| s@) == bake_lines(
            text_of(env_file),
            process@.map_values(|v: Option<&str>| text_of(v)),
            7,
        ),
{
    let mut out: Vec<String> = Vec::new();
    let ghost env = process@.map_values(|v: Option<&str>| text_of(v));
    assert(out@.map_values(|s: String| s@) == Seq::<Seq<char>>::empty());
    for i in 0..7usize
        invariant
            env == process@.map_values(|v: Option<&str>| text_of(v)),
            process@.len() == 7,
            out@.map_values(|s: String| s@) == bake_lines(text_of(env_file), env, i as nat),
    {
        let key: &'static str = BAKED_KEYS[i];
        assert(env[i as int] == text_of(process@[i as int]));
        if let Some(v) = baked_value(key, env_file, process[i]) {
            let ghost before = out@;
            let line: String = bake_line(key, &v);
            out.push(line);
            assert(out@.map_values(|s: String| s@) == before.map_values(|s: String| s@).push(
                line@,
            ));
        }
    }
    out
}

/// The lines that bake the first `n` settings in.
pub open spec fn bake_lines(
    env_file: Option<Seq<char>>,
    process: Seq<Option<Seq<char>>>,
    n: nat,
) -> Seq<Seq<char>>
    decreases n,
{
    if n == 0 {
        Seq::empty()
    } else {
        let before = bake_lines(env_file, process, (n - 1) as nat);
        let key = BAKED_KEYS@[n - 1]@;
        match baked_of(key, env_file, process[n - 1]) {
            Some(v) => before.push("cargo:rustc-env="@ + key + "="@ + v),
            None => before,
        }
    }
}

/// The environment of the build wins: with a value there that is not empty, the
/// `.env` file has no say.
pub proof fn law_environment_overrides_the_file(
    key: Seq<char>,
    env_file: Option<Seq<char>>,
    other_file: Option<Seq<char>>,
    value: Seq<char>,
)
    requires
        value.len() > 0,
    ensures
        baked_of(key, env_file, Some(value)) == Some(value),
        baked_of(key, env_file, Some(value)) == baked_of(key, other_file, Some(value)),
        baked_of(key, env_file, Some(Seq::empty())) == baked_of(key, env_file, None),
{
}

/// The names of the settings.
pub proof fn law_setting_names()
    ensures
        BAKED_KEYS@[0]@ == "RUSTDESK_SERVER"@,
        BAKED_KEYS@[1]@ == "RUSTDESK_KEY"@,
        BAKED_KEYS@[2]@ == "RUSTDESK_SOCKS5"@,
        BAKED_KEYS@[3]@ == "RUSTDESK_ID"@,
        BAKED_KEYS@[4]@ == "RUSTDESK_PASSWORD"@,
        BAKED_KEYS@[5]@ == "RUSTDESK_DIRECT"@,
        BAKED_KEYS@[6]@ == "RUSTDESK_DIRECT_PORT"@,
{
}

proof fn lemma_strip_start(s: Seq<char>, c: char) -> (a: int)
    ensures
        0 <= a <= s.len(),
        stripped_start(s, c) == s.skip(a),
        forall|i: int| 0 <= i < a ==> #[trigger] s[i] == c,
        a < s.len() ==> s[a] != c,
    decreases s.len(),
{
    if s.len() > 0 && s[0] == c {
        let t = s.drop_first();
        let b = lemma_strip_start(t, c);
        assert(t.skip(b) == s.skip(b + 1));
        assert forall|i: int| 0 <= i < b + 1 implies #[trigger] s[i] == c by {
            if i > 0 {
                assert(t[i - 1] == s[i]);
            }
        }
        if b < t.len() {
            assert(t[b] == s[b + 1]);
        }
        b + 1
    } else {
        assert(s.skip(0) == s);
        0
    }
}

proof fn lemma_strip_end(s: Seq<char>, c: char) -> (b: int)
    ensures
        0 <= b <= s.len(),
        stripped_end(s, c) == s.take(b),
        forall|i: int| b <= i < s.len() ==> #[trigger] s[i] == c,
        b > 0 ==> s[b - 1] != c,
    decreases s.len(),
{
    if s.len() > 0 && s.last() == c {
        let t = s.drop_last();
        let b = lemma_strip_end(t, c);
        assert(t.take(b) == s.take(b));
        assert forall|i: int| b <= i < s.len() implies #[trigger] s[i] == c by {
            if i < t.len() {
                assert(t[i] == s[i]);
            }
        }
        if b > 0 {
            assert(t[b - 1] == s[b - 1]);
        }
        b
    } else {
        assert(s.take(s.len() as int) == s);
        s.len() as int
    }
}

/// Stripping takes a character away at both ends, as often as it stands there, and
/// nothing else.
pub proof fn law_stripping(s: Seq<char>, c: char)
    ensures
        exists|a: int, b: int|
            {
                &&& 0 <= a <= b <= s.len()
                &&& stripped(s, c) == #[trigger] s.subrange(a, b)
                &&& forall|i: int| 0 <= i < a ==> #[trigger] s[i] == c
                &&& forall|i: int| b <= i < s.len() ==> #[trigger] s[i] == c
                &&& a < b ==> s[a] != c && s[b - 1] != c
            },
{
    let a = lemma_strip_start(s, c);
    let t = s.skip(a);
    let k = lemma_strip_end(t, c);
    let b = a + k;
    assert(t.take(k) == s.subrange(a, b));
    assert forall|i: int| b <= i < s.len() implies #[trigger] s[i] == c by {
        assert(t[i - a] == s[i]);
    }
    if k > 0 {
        assert(t[k - 1] == s[b - 1]);
    }
}

/// How a line of an `.env` file is read. A blank line and a comment set nothing,
/// nor does a line without `=`. Of any other line, key and value are what stands
/// before and after the first `=`: the key without white space around it, the value
/// without white space, then double quotes, then single quotes around it.
pub proof fn law_env_line(line: Seq<char>, key: Seq<char>, value: Seq<char>)
    requires
        !key.contains('='),
    ensures
        trimmed(line).len() == 0 ==> env_entry(line) is None,
        trimmed(line).len() > 0 && trimmed(line)[0] == '#' ==> env_entry(line) is None,
        trimmed(line) == key ==> env_entry(line) is None,
        trimmed(line) == key + seq!['='] + value && trimmed(line)[0] != '#' ==> env_entry(line)
            == Some((trimmed(key), stripped(stripped(trimmed(value), '"'), '\''))),
{
    let l = key + seq!['='] + value;
    assert forall|j: int| 0 <= j < key.len() implies key[j] != '=' by {
        assert(key.contains(key[j]));
    }
    lemma_first_index_is(l, '=', key.len() as int);
    assert(l.take(key.len() as int) == key);
    assert(l.skip(key.len() as int + 1) == value);
    lemma_first_index_is(key, '=', key.len() as int);
}

/// Whether the line at `i` is the last one with the key.
pub open spec fn is_last_setting(lines: Seq<Seq<char>>, key: Seq<char>, i: int) -> bool {
    &&& 0 <= i < lines.len()
    &&& env_entry(lines[i]) matches Some((k, v)) && k == key
    &&& forall|j: int|
        i < j < lines.len() ==> !(env_entry(#[trigger] lines[j]) matches Some((k, v)) && k == key)
}

/// Of several lines with one key the last counts; without one there is no value.
pub proof fn law_last_setting_counts(lines: Seq<Seq<char>>, key: Seq<char>)
    ensures
        forall|i: int| #[trigger]
            is_last_setting(lines, key, i) ==> env_field(lines, key) is Some && env_entry(lines[i])
                == Some((key, env_field(lines, key)->0)),
        (forall|i: int| !#[trigger] is_last_setting(lines, key, i)) ==> env_field(
            lines,
            key,
        ) is None,
    decreases lines.len(),
{
    if lines.len() > 0 {
        let rest = lines.drop_last();
        let n = lines.len() - 1;
        law_last_setting_counts(rest, key);
        let found = env_entry(lines.last()) matches Some((k, v)) && k == key;
        if found {
            assert(is_last_setting(lines, key, n));
            assert forall|i: int| #[trigger] is_last_setting(lines, key, i) implies env_field(
                lines,
                key,
            ) is Some && env_entry(lines[i]) == Some((key, env_field(lines, key)->0)) by {
                if i < n {
                    assert(env_entry(lines[n]) is Some);
                }
            }
        } else {
            assert forall|i: int| true implies #[trigger] is_last_setting(lines, key, i)
                == is_last_setting(rest, key, i) by {
                if is_last_setting(lines, key, i) {
                    assert forall|j: int| i < j < rest.len() implies !(env_entry(
                        #[trigger] rest[j],
                    ) matches Some((k, v)) && k == key) by {
                        assert(rest[j] == lines[j]);
                    }
                }
                if is_last_setting(rest, key, i) {
                    assert forall|j: int| i < j < lines.len() implies !(env_entry(
                        #[trigger] lines[j],
                    ) matches Some((k, v)) && k == key) by {
                        if j < n {
                            assert(rest[j] == lines[j]);
                        }
                    }
                }
            }
            if forall|i: int| !#[trigger] is_last_setting(lines, key, i) {
                assert forall|i: int| !#[trigger] is_last_setting(rest, key, i) by {
                    assert(!is_last_setting(lines, key, i));
                }
            }
        }
    }
}

/// Without a value in the environment of the build, the lines of the `.env` file
/// decide, if there is a file.
pub proof fn law_file_decides(key: Seq<char>, text: Seq<char>)
    ensures
        baked_of(key, Some(text), None) == env_field(lines_of(text), key),
        baked_of(key, Some(text), Some(Seq::empty())) == env_field(lines_of(text), key),
        baked_of(key, None, None) is None,
{
}

/// The settings are baked in one after the other, each with a line of its own if it
/// has a value.
pub proof fn law_bake_lines(
    env_file: Option<Seq<char>>,
    process: Seq<Option<Seq<char>>>,
    n: nat,
)
    requires
        n < 7,
    ensures
        bake_lines(env_file, process, 0).len() == 0,
        ({
            let key = BAKED_KEYS@[n as int]@;
            let before = bake_lines(env_file, process, n);
            let after = bake_lines(env_file, process, n + 1);
            match baked_of(key, env_file, process[n as int]) {
                Some(v) => after == before.push("cargo:rustc-env="@ + key + "="@ + v),
                None => after == before,
            }
        }),
{
}

} // verus!
