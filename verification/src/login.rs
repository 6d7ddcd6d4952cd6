//! Password login by challenge and response.

use crate::config::{ConfigView, DeviceConfig};
use crate::outside::{random_between, sha256, sha256_digest};
use vstd::prelude::*;
use vstd::utf8::encode_utf8;

verus! {

/// Number of characters of a login challenge.
pub const CHALLENGE_CHARS: usize = 6;

/// What a controller remembers of a password: `SHA256(plain + salt)`.
pub open spec fn remembered_password(password: Seq<char>, salt: Seq<char>) -> Seq<u8> {
    sha256(encode_utf8(password) + encode_utf8(salt))
}

/// The response to a challenge of someone who remembers the password.
pub open spec fn response_to(remembered: Seq<u8>, challenge: Seq<char>) -> Seq<u8> {
    sha256(remembered + encode_utf8(challenge))
}

/// The response that a login is expected to give.
pub open spec fn expected_response(
    password: Seq<char>,
    salt: Seq<char>,
    challenge: Seq<char>,
) -> Seq<u8> {
    response_to(remembered_password(password, salt), challenge)
}

/// Whether two byte strings are equal, found out without stopping at the first
/// difference.
pub fn constant_eq(a: &[u8], b: &[u8]) -> (r: bool)
    ensures
        r == (a@ == b@),
{
    if a.len() != b.len() {
        return false;
    }
    let mut diff: u8 = 0;
    for i in 0..a.len()
        invariant
            a@.len() == b@.len(),
            diff == 0 <==> forall|j: int| 0 <= j < i ==> a@[j] == b@[j],
    {
        let x: u8 = a[i];
        let y: u8 = b[i];
        let ghost before = diff;
        diff = diff | (x ^ y);
        assert((before | (x ^ y)) == 0 <==> before == 0 && x == y) by (bit_vector);
    }
    assert(diff == 0 ==> a@ =~= b@);
    diff == 0
}

/// Whether a response is accepted when `expected` is the right one. An empty
/// response never is.
pub fn response_matches(expected: &[u8], got: &[u8]) -> (r: bool)
    ensures
        r == (got@.len() > 0 && got@ == expected@),
{
    if got.len() == 0 {
        return false;
    }
    constant_eq(expected, got)
}

/// Whether `got` answers the challenge with the password of the device.
pub open spec fn login_accepted(
    config: ConfigView,
    salt: Seq<char>,
    challenge: Seq<char>,
    got: Seq<u8>,
) -> bool {
    got == expected_response(config.password, salt, challenge)
}

/// Checks a controller's response to a challenge. A response that has not the
/// length of a digest is never accepted, an empty one among them.
pub fn verify_login(config: &DeviceConfig, salt: &str, challenge: &str, got: &[u8]) -> (r: bool)
    ensures
        r == login_accepted(config@, salt@, challenge@, got@),
        r <==> got@ == sha256(
            sha256(encode_utf8(config@.password) + encode_utf8(salt@)) + encode_utf8(challenge@),
        ),
        got@.len() != 32 ==> !r,
{
    let h1: Vec<u8> = sha256_digest(config.password.as_str().as_bytes(), salt.as_bytes());
    let h2: Vec<u8> = sha256_digest(&h1, challenge.as_bytes());
    response_matches(&h2, got)
}

/// Whether `c` is a digit or a lower-case letter.
pub open spec fn is_alnum(c: char) -> bool {
    '0' <= c <= '9' || 'a' <= c <= 'z'
}

/// The character that a draw below 36 selects: a digit, then a letter.
pub open spec fn alnum_char(draw: u8) -> char {
    if draw < 10 {
        (48 + draw) as char
    } else {
        (87 + draw) as char
    }
}

/// The text that a sequence of draws below 36 selects.
pub fn alnum_from_draws(draws: &[u8]) -> (r: String)
    requires
        forall|i: int| 0 <= i < draws@.len() ==> #[trigger] draws@[i] < 36,
    ensures
        r@ == Seq::new(draws@.len(), |i: int| alnum_char(draws@[i])),
{
    let mut out = String::new();
    for i in 0..draws.len()
        invariant
            forall|j: int| 0 <= j < draws@.len() ==> #[trigger] draws@[j] < 36,
            out@ == Seq::new(i as nat, |j: int| alnum_char(draws@[j])),
    {
        let b: u8 = draws[i];
        out.push(
            if b < 10 {
                (48u8 + b) as char
            } else {
                (87u8 + b) as char
            },
        );
    }
    out
}

/// Whether `s` is a text of `n` digits and lower-case letters.
pub open spec fn is_alnum_of_len(s: Seq<char>, n: nat) -> bool {
    s.len() == n && forall|i: int| 0 <= i < s.len() ==> is_alnum(#[trigger] s[i])
}

/// `n` random digits and lower-case letters.
pub fn random_alnum(n: usize) -> (r: String)
    ensures
        is_alnum_of_len(r@, n as nat),
{
    let mut draws: Vec<u8> = Vec::new();
    while draws.len() < n
        invariant
            draws@.len() <= n,
            forall|j: int| 0 <= j < draws@.len() ==> #[trigger] draws@[j] < 36,
        decreases n - draws@.len(),
    {
        let draw: u8 = random_between(0, 35) as u8;
        draws.push(draw);
    }
    let r: String = alnum_from_draws(&draws);
    assert forall|i: int| 0 <= i < r@.len() implies is_alnum(#[trigger] r@[i]) by {
        assert(r@[i] == alnum_char(draws@[i]));
        assert(draws@[i] < 36);
    }
    r
}

/// A controller that remembers a password as `SHA256(plain + salt)` is let in
/// with every challenge, as long as password and salt are the device's.
pub proof fn law_remembered_password_validates(config: ConfigView, challenge: Seq<char>)
    ensures
        login_accepted(
            config,
            config.password_salt,
            challenge,
            response_to(
                remembered_password(config.password, config.password_salt),
                challenge,
            ),
        ),
{
}

/// A response is accepted exactly if it is the digest of two parts: the digest of
/// password and then salt, and after it the challenge. The lengths of password,
/// salt and challenge do not matter.
pub proof fn law_accepted_response(
    config: ConfigView,
    salt: Seq<char>,
    challenge: Seq<char>,
    got: Seq<u8>,
)
    ensures
        login_accepted(config, salt, challenge, got) <==> got == sha256(
            sha256(encode_utf8(config.password) + encode_utf8(salt)) + encode_utf8(challenge),
        ),
{
}

/// Two passwords with the same digest over the salt answer a challenge alike, and
/// nothing but that digest and the challenge has a say in the response.
pub proof fn law_response_depends_on_the_remembered(
    config: ConfigView,
    other: ConfigView,
    salt: Seq<char>,
    other_salt: Seq<char>,
    challenge: Seq<char>,
    got: Seq<u8>,
)
    ensures
        sha256(encode_utf8(config.password) + encode_utf8(salt)) == sha256(
            encode_utf8(other.password) + encode_utf8(other_salt),
        ) ==> login_accepted(config, salt, challenge, got) == login_accepted(
            other,
            other_salt,
            challenge,
            got,
        ),
{
}

/// The draws below 36 select the digits in order, then the letters in order.
pub proof fn law_challenge_alphabet(draw: u8)
    requires
        draw < 36,
    ensures
        alnum_char(draw) == "0123456789abcdefghijklmnopqrstuvwxyz"@[draw as int],
        is_alnum(alnum_char(draw)),
{
    reveal_strlit("0123456789abcdefghijklmnopqrstuvwxyz");
}

/// A digit or a lower-case letter is one that some draw selects.
pub proof fn law_every_challenge_character_is_drawn(c: char)
    ensures
        is_alnum(c) <==> exists|draw: u8| draw < 36 && #[trigger] alnum_char(draw) == c,
{
    if is_alnum(c) {
        let n = if c <= '9' {
            (c as int - 48) as u8
        } else {
            (c as int - 87) as u8
        };
        assert(alnum_char(n) == c);
    }
}

/// What a challenge of `n` characters is.
pub proof fn law_challenge(s: Seq<char>, n: nat)
    ensures
        is_alnum_of_len(s, n) <==> s.len() == n && forall|i: int|
            0 <= i < s.len() ==> ('0' <= #[trigger] s[i] <= '9' || 'a' <= s[i] <= 'z'),
{
    if is_alnum_of_len(s, n) {
        assert forall|i: int| 0 <= i < s.len() implies ('0' <= #[trigger] s[i] <= '9' || 'a' <= s[i]
            <= 'z') by {
            assert(is_alnum(s[i]));
        }
    }
}

} // verus!
