//! Identity assertions of Cloudflare Access.
//!
//! A request that came through Cloudflare Access carries a JWT in the
//! `CF-Access-JWT-Assertion` header. This module frames the token, decodes
//! its payload from base64, and judges the claims that were read from it.

use vstd::prelude::*;
use vstd::string::StringExecFns;

use crate::text::{
    chars_of,
    lemma_span_exists,
    lemma_span_is,
    push_char,
    span_before,
    stops_at,
    text_of_chars,
};

verus! {

/// Header name for CF Access JWT assertion
pub const CF_ACCESS_JWT_HEADER: &'static str = "CF-Access-JWT-Assertion";

/// Header name for CF Access client ID (service token auth)
pub const CF_ACCESS_CLIENT_ID_HEADER: &'static str = "CF-Access-Client-Id";

/// Header name for CF Access client secret (service token auth)
pub const CF_ACCESS_CLIENT_SECRET_HEADER: &'static str = "CF-Access-Client-Secret";

/// Why an assertion was not accepted.
#[derive(Debug, Clone)]
pub enum CfAccessError {
    MissingJwt,
    InvalidJwtFormat,
    JwtDecode(String),
    JwtExpired,
    Database(String),
    Configuration(String),
}

/// The byte that a character is read as: the low eight bits of its code.
pub open spec fn low_byte(c: char) -> u8 {
    (c as u32 % 256) as u8
}

/// The value of a base64 digit, for a byte of the standard alphabet.
pub open spec fn digit_value(b: u8) -> Option<u8> {
    if 0x41 <= b <= 0x5a {
        Some((b - 0x41) as u8)
    } else if 0x61 <= b <= 0x7a {
        Some((b - 0x61 + 26) as u8)
    } else if 0x30 <= b <= 0x39 {
        Some((b - 0x30 + 52) as u8)
    } else if b == 0x2b {
        Some(62u8)
    } else if b == 0x2f {
        Some(63u8)
    } else {
        None
    }
}

/// The number of characters before the padding: before the first `=`.
pub open spec fn digit_count(text: Seq<char>) -> int {
    span_before(text, '=')
}

/// Whether `i` is the first character before the padding that is no digit.
pub open spec fn is_first_stray(text: Seq<char>, i: int) -> bool {
    &&& 0 <= i < digit_count(text)
    &&& digit_value(low_byte(text[i])) is None
    &&& forall|j: int| 0 <= j < i ==> digit_value(low_byte(#[trigger] text[j])) is Some
}

/// Whether every character before the padding is a digit.
pub open spec fn is_base64(text: Seq<char>) -> bool {
    forall|i: int| 0 <= i < digit_count(text) ==> digit_value(low_byte(#[trigger] text[i])) is Some
}

/// The values of the digits before the padding.
pub open spec fn digits_of(text: Seq<char>) -> Seq<u8> {
    Seq::new(digit_count(text) as nat, |i: int| digit_value(low_byte(text[i]))->0)
}

/// The `k`-th byte that a run of six-bit digits spells: the digits are read
/// as one run of bits, the first digit's highest bit first, and cut into
/// bytes.
pub open spec fn byte_at(digits: Seq<u8>, k: int) -> int {
    let q = k / 3;
    if k % 3 == 0 {
        digits[4 * q] * 4 + digits[4 * q + 1] / 16
    } else if k % 3 == 1 {
        (digits[4 * q + 1] % 16) * 16 + digits[4 * q + 2] / 4
    } else {
        (digits[4 * q + 2] % 4) * 64 + digits[4 * q + 3]
    }
}

/// The bytes that a run of six-bit digits spells. Bits that do not fill a
/// byte are dropped.
pub open spec fn bytes_of_digits(digits: Seq<u8>) -> Seq<u8> {
    Seq::new((digits.len() * 6 / 8) as nat, |k: int| byte_at(digits, k) as u8)
}

/// The message that tells of a stray character.
pub open spec fn stray_message(c: char) -> Seq<char> {
    "Invalid base64 character: "@.push(c)
}

/// What decoding a text comes to: the bytes that its digits spell, or the
/// message that tells of its first stray character.
pub open spec fn decoded(text: Seq<char>, r: Result<Vec<u8>, String>) -> bool {
    match r {
        Ok(bytes) => is_base64(text) && bytes@ == bytes_of_digits(digits_of(text)),
        Err(message) => exists|i: int|
            #[trigger] is_first_stray(text, i) && message@ == stray_message(text[i]),
    }
}

fn digit(c: char) -> (value: Option<u8>)
    ensures
        value == digit_value(low_byte(c)),
        value matches Some(v) ==> v < 64,
{
    let b: u8 = ((c as u32) % 256) as u8;
    if 0x41 <= b && b <= 0x5a {
        Some(b - 0x41)
    } else if 0x61 <= b && b <= 0x7a {
        Some(b - 0x61 + 26)
    } else if 0x30 <= b && b <= 0x39 {
        Some(b - 0x30 + 52)
    } else if b == 0x2b {
        Some(62)
    } else if b == 0x2f {
        Some(63)
    } else {
        None
    }
}

fn spell(digits: &Vec<u8>) -> (bytes: Vec<u8>)
    requires
        forall|i: int| 0 <= i < digits@.len() ==> digits@[i] < 64,
    ensures
        bytes@ == bytes_of_digits(digits@),
{
    let n = digits.len();
    let mut bytes: Vec<u8> = Vec::new();
    let mut j: usize = 0;
    // Every four digits spell three bytes.
    while n - j >= 4
        invariant
            n == digits@.len(),
            j <= n,
            j % 4 == 0,
            forall|i: int| 0 <= i < digits@.len() ==> digits@[i] < 64,
            bytes@.len() == 3 * (j / 4),
            forall|k: int| 0 <= k < bytes@.len() ==> bytes@[k] == byte_at(digits@, k) as u8,
        decreases n - j,
    {
        let a = digits[j] as u16;
        let b = digits[j + 1] as u16;
        let c = digits[j + 2] as u16;
        let d = digits[j + 3] as u16;
        let ghost before = bytes@;
        let ghost q = (j / 4) as int;
        bytes.push((a * 4 + b / 16) as u8);
        bytes.push(((b % 16) * 16 + c / 4) as u8);
        bytes.push(((c % 4) * 64 + d) as u8);
        proof {
            assert(j == 4 * q);
            assert(bytes@[3 * q] == byte_at(digits@, 3 * q) as u8);
            assert(bytes@[3 * q + 1] == byte_at(digits@, 3 * q + 1) as u8);
            assert(bytes@[3 * q + 2] == byte_at(digits@, 3 * q + 2) as u8);
            assert forall|k: int| 0 <= k < bytes@.len() implies bytes@[k] == byte_at(digits@, k) as u8 by {
                if k < before.len() {
                    assert(bytes@[k] == before[k]);
                }
            }
        }
        j = j + 4;
    }
    // What is left spells one byte, or two, or none.
    let ghost q = (j / 4) as int;
    let ghost before = bytes@;
    if n - j >= 2 {
        let a = digits[j] as u16;
        let b = digits[j + 1] as u16;
        bytes.push((a * 4 + b / 16) as u8);
        assert(bytes@[3 * q] == byte_at(digits@, 3 * q) as u8);
        if n - j >= 3 {
            let c = digits[j + 2] as u16;
            bytes.push(((b % 16) * 16 + c / 4) as u8);
            assert(bytes@[3 * q + 1] == byte_at(digits@, 3 * q + 1) as u8);
        }
    }
    proof {
        assert(j == 4 * q);
        assert forall|k: int| 0 <= k < bytes@.len() implies bytes@[k] == byte_at(digits@, k) as u8 by {
            if k < before.len() {
                assert(bytes@[k] == before[k]);
            }
        }
        assert(bytes@.len() == n * 6 / 8);
        assert(bytes@ =~= bytes_of_digits(digits@));
    }
    bytes
}

fn decode_chars(chars: &Vec<char>) -> (r: Result<Vec<u8>, String>)
    ensures
        decoded(chars@, r),
{
    let mut digits: Vec<u8> = Vec::new();
    let mut i: usize = 0;
    while i < chars.len() && chars[i] != '='
        invariant
            i <= chars@.len(),
            digits@.len() == i,
            forall|j: int| 0 <= j < i ==> chars@[j] != '=',
            forall|j: int|
                0 <= j < i ==> digit_value(low_byte(#[trigger] chars@[j])) == Some(digits@[j]),
            forall|j: int| 0 <= j < i ==> #[trigger] digits@[j] < 64,
        decreases chars@.len() - i,
    {
        match digit(chars[i]) {
            Some(value) => {
                digits.push(value);
            },
            None => {
                let mut message = String::from_str("Invalid base64 character: ");
                push_char(&mut message, chars[i]);
                proof {
                    // The digits end at or after this character.
                    lemma_span_exists(chars@, '=');
                    let n = digit_count(chars@);
                    if n <= i {
                        if n < chars@.len() {
                            assert(chars@[n] == '=');
                        }
                    }
                    assert(is_first_stray(chars@, i as int));
                }
                return Err(message);
            },
        }
        i = i + 1;
    }
    proof {
        assert(stops_at(chars@, '=', i as int));
        lemma_span_is(chars@, '=', i as int);
        assert(digits@ =~= digits_of(chars@));
    }
    Ok(spell(&digits))
}

/// Simple base64 decode implementation
pub fn base64_decode(input: &str) -> (r: Result<Vec<u8>, String>)
    ensures
        decoded(input@, r),
{
    let chars = chars_of(input);
    decode_chars(&chars)
}

/// The character of the standard alphabet that a character of the URL-safe
/// alphabet stands for.
pub open spec fn standard_char(c: char) -> char {
    if c == '-' {
        '+'
    } else if c == '_' {
        '/'
    } else {
        c
    }
}

/// A text of the URL-safe alphabet, in the standard alphabet.
pub open spec fn standard_of(text: Seq<char>) -> Seq<char> {
    Seq::new(text.len(), |i: int| standard_char(text[i]))
}

/// What decoding a text of the URL-safe alphabet comes to: what decoding
/// its standard form comes to, a failure being told as a decode error.
pub open spec fn url_decoded(text: Seq<char>, r: Result<Vec<u8>, CfAccessError>) -> bool {
    match r {
        Ok(bytes) => decoded(standard_of(text), Ok(bytes)),
        Err(CfAccessError::JwtDecode(message)) => decoded(standard_of(text), Err(message)),
        Err(_) => false,
    }
}

fn decode_url_chars(chars: &Vec<char>, from: usize, to: usize) -> (r: Result<Vec<u8>, CfAccessError>)
    requires
        from <= to <= chars@.len(),
    ensures
        url_decoded(chars@.subrange(from as int, to as int), r),
{
    let mut standard: Vec<char> = Vec::new();
    let mut i: usize = from;
    while i < to
        invariant
            from <= i <= to,
            to <= chars@.len(),
            standard@.len() == i - from,
            forall|j: int| 0 <= j < i - from ==> standard@[j] == standard_char(chars@[from + j]),
        decreases to - i,
    {
        let c = chars[i];
        let mapped = if c == '-' {
            '+'
        } else if c == '_' {
            '/'
        } else {
            c
        };
        standard.push(mapped);
        i = i + 1;
    }
    assert(standard@ =~= standard_of(chars@.subrange(from as int, to as int)));
    match decode_chars(&standard) {
        Ok(bytes) => Ok(bytes),
        Err(message) => Err(CfAccessError::JwtDecode(message)),
    }
}

/// Decode base64url-encoded data
pub fn base64_url_decode(input: &str) -> (r: Result<Vec<u8>, CfAccessError>)
    ensures
        url_decoded(input@, r),
{
    let chars = chars_of(input);
    assert(chars@.subrange(0, chars@.len() as int) == chars@);
    decode_url_chars(&chars, 0, chars.len())
}

/// Whether the token has three parts, parted by the dots at `a` and `b`.
pub open spec fn is_framed(token: Seq<char>, a: int, b: int) -> bool {
    &&& 0 <= a < b < token.len()
    &&& token[a] == '.'
    &&& token[b] == '.'
    &&& forall|i: int| 0 <= i < token.len() && i != a && i != b ==> token[i] != '.'
}

/// Whether the token has three parts.
pub open spec fn has_three_parts(token: Seq<char>) -> bool {
    exists|a: int, b: int| is_framed(token, a, b)
}

/// The second of a token's three parts.
pub open spec fn payload_part(token: Seq<char>) -> Seq<char> {
    let (a, b) = choose|a: int, b: int| is_framed(token, a, b);
    token.subrange(a + 1, b)
}

/// Claims from a Cloudflare Access JWT
#[derive(Debug, Clone)]
pub struct CfAccessClaims {
    /// Subject (user identifier from identity provider)
    pub sub: String,
    /// Email address
    pub email: String,
    /// Token type (usually "app")
    pub token_type: Option<String>,
    /// Issued at (Unix timestamp)
    pub iat: i64,
    /// Expiration time (Unix timestamp)
    pub exp: i64,
    /// Issuer (Cloudflare Access team domain)
    pub iss: Option<String>,
    /// User's name (if available)
    pub name: Option<String>,
    /// Identity nonce
    pub identity_nonce: Option<String>,
}

impl CfAccessClaims {
    /// The bytes of a token's payload: the token must have three parts, and
    /// its second part must be base64 of the URL-safe alphabet.
    pub fn payload_of(token: &str) -> (r: Result<Vec<u8>, CfAccessError>)
        ensures
            has_three_parts(token@) ==> url_decoded(payload_part(token@), r),
            !has_three_parts(token@) ==> r matches Err(CfAccessError::InvalidJwtFormat),
    {
        let chars = chars_of(token);
        let mut dots: Vec<usize> = Vec::new();
        let mut i: usize = 0;
        while i < chars.len()
            invariant
                i <= chars@.len(),
                forall|k: int| 0 <= k < dots@.len() ==> #[trigger] dots@[k] < i && chars@[dots@[k] as int] == '.',
                forall|k: int, m: int| 0 <= k < m < dots@.len() ==> #[trigger] dots@[k] < #[trigger] dots@[m],
                forall|j: int|
                    0 <= j < i && chars@[j] == '.' ==> exists|k: int|
                        0 <= k < dots@.len() && #[trigger] dots@[k] == j,
            decreases chars@.len() - i,
        {
            if chars[i] == '.' {
                let ghost before = dots@;
                dots.push(i);
                proof {
                    assert(dots@[dots@.len() - 1] == i);
                    assert forall|j: int| 0 <= j < i + 1 && chars@[j] == '.' implies exists|k: int|
                        0 <= k < dots@.len() && #[trigger] dots@[k] == j by {
                        if j < i {
                            let k = choose|k: int| 0 <= k < before.len() && #[trigger] before[k] == j;
                            assert(dots@[k] == j);
                        }
                    }
                }
            }
            i = i + 1;
        }
        if dots.len() != 2 {
            proof {
                if has_three_parts(token@) {
                    let (a, b) = choose|a: int, b: int| is_framed(token@, a, b);
                    let ka = choose|k: int| 0 <= k < dots@.len() && #[trigger] dots@[k] == a;
                    let kb = choose|k: int| 0 <= k < dots@.len() && #[trigger] dots@[k] == b;
                    assert(ka != kb);
                    let kc: int = if ka != 0 && kb != 0 {
                        0
                    } else if ka != 1 && kb != 1 {
                        1
                    } else {
                        2
                    };
                    assert(dots@[kc] != a && dots@[kc] != b) by {
                        if kc < ka {
                            assert(dots@[kc] < dots@[ka]);
                        } else {
                            assert(dots@[ka] < dots@[kc]);
                        }
                        if kc < kb {
                            assert(dots@[kc] < dots@[kb]);
                        } else {
                            assert(dots@[kb] < dots@[kc]);
                        }
                    }
                    assert(chars@[dots@[kc] as int] == '.');
                }
            }
            return Err(CfAccessError::InvalidJwtFormat);
        }
        let first = dots[0];
        let second = dots[1];
        proof {
            assert(dots@[0] < dots@[1]);
            assert forall|j: int|
                0 <= j < token@.len() && j != first && j != second implies token@[j] != '.' by {
                if token@[j] == '.' {
                    let k = choose|k: int| 0 <= k < dots@.len() && #[trigger] dots@[k] == j;
                }
            }
            assert(is_framed(token@, first as int, second as int));
            let (a, b) = choose|a: int, b: int| is_framed(token@, a, b);
            assert(a == first && b == second);
        }
        decode_url_chars(&chars, first + 1, second)
    }

    /// Whether the claims have run out at `now`, a Unix time in seconds.
    pub open spec fn is_expired_at(self, now: i64) -> bool {
        self.exp < now
    }

    /// Judges claims that were read from a token: claims that have run out
    /// are refused.
    pub fn validate(self, now: i64) -> (r: Result<CfAccessClaims, CfAccessError>)
        ensures
            r is Ok <==> !self.is_expired_at(now),
            r matches Ok(claims) ==> claims == self,
            r matches Err(e) ==> e == CfAccessError::JwtExpired,
    {
        if self.exp < now {
            return Err(CfAccessError::JwtExpired);
        }
        Ok(self)
    }

    /// The part of an address before its first `@`.
    pub open spec fn local_part(email: Seq<char>) -> Seq<char> {
        email.take(span_before(email, '@'))
    }

    /// Get display name (falls back to email prefix if name not available)
    pub fn display_name(&self) -> (name: String)
        ensures
            name@ == match self.name {
                Some(given) => given@,
                None => Self::local_part(self.email@),
            },
    {
        match &self.name {
            Some(given) => given.clone(),
            None => {
                let chars = chars_of(self.email.as_str());
                let mut n: usize = 0;
                while n < chars.len() && chars[n] != '@'
                    invariant
                        n <= chars@.len(),
                        forall|i: int| 0 <= i < n ==> chars@[i] != '@',
                    decreases chars@.len() - n,
                {
                    n = n + 1;
                }
                proof {
                    assert(stops_at(chars@, '@', n as int));
                    lemma_span_is(chars@, '@', n as int);
                }
                text_of_chars(&chars, 0, n)
            },
        }
    }

    /// The time at which the claims run out, in microseconds since the
    /// epoch.
    pub fn expires_at(&self) -> (at: i64)
        requires
            i64::MIN <= self.exp * 1_000_000 <= i64::MAX,
        ensures
            at == self.exp * 1_000_000,
    {
        self.exp * 1_000_000
    }

    /// The time at which the claims were issued, in microseconds since the
    /// epoch.
    pub fn issued_at(&self) -> (at: i64)
        requires
            i64::MIN <= self.iat * 1_000_000 <= i64::MAX,
        ensures
            at == self.iat * 1_000_000,
    {
        self.iat * 1_000_000
    }
}

} // verus!
