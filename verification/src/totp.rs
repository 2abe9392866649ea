//! One-time codes for the second sign-in factor: cleaning up the base32
//! secret a user pastes, decoding it, and computing the current code.

use vstd::prelude::*;
use vstd::utf8::{encode_scalar, encode_utf8};
use crate::text::{chars_of, is_space, is_space_char, push_char};

verus! {

/// A character that survives the clean-up: neither whitespace nor padding.
pub open spec fn kept_in_secret(c: char) -> bool {
    !is_space(c) && c != '='
}

/// ASCII lower-case letters made upper-case; every other character as is.
pub open spec fn ascii_upper(c: char) -> char {
    if 'a' <= c && c <= 'z' {
        ((c as u32) - 32) as char
    } else {
        c
    }
}

/// The kept characters of a secret, upper-cased, in order.
pub open spec fn cleaned_secret(s: Seq<char>) -> Seq<char>
    decreases s.len(),
{
    if s.len() == 0 {
        seq![]
    } else if kept_in_secret(s.last()) {
        cleaned_secret(s.drop_last()).push(ascii_upper(s.last()))
    } else {
        cleaned_secret(s.drop_last())
    }
}

/// How many `=` bring a length of `n` bytes up to a multiple of eight.
pub open spec fn padding_for(n: nat) -> nat {
    ((8 - (n % 8) as int) % 8) as nat
}

/// `n` padding characters.
pub open spec fn padding(n: nat) -> Seq<char> {
    Seq::new(n, |i: int| '=')
}

/// The secret in the form it is decoded from: whitespace and `=` removed,
/// ASCII letters upper-cased, then `=` appended until its UTF-8 length is
/// a multiple of eight.
pub open spec fn normalized_secret(s: Seq<char>) -> Seq<char> {
    cleaned_secret(s) + padding(padding_for(encode_utf8(cleaned_secret(s)).len()))
}

fn upper_ascii(c: char) -> (u: char)
    ensures
        u == ascii_upper(c),
{
    if 'a' <= c && c <= 'z' {
        let v = ((c as u32) - 32) as u8;
        v as char
    } else {
        c
    }
}

/// The UTF-8 encoding of a sequence grows by a character's encoding when
/// the character is appended.
proof fn lemma_encode_push(s: Seq<char>, c: char)
    ensures
        encode_utf8(s.push(c)) == encode_utf8(s) + encode_scalar(c as u32),
    decreases s.len(),
{
    if s.len() == 0 {
        assert(s.push(c).drop_first() =~= Seq::<char>::empty());
        assert(encode_utf8(s.push(c)) =~= encode_scalar(c as u32) + encode_utf8(Seq::<char>::empty()));
        assert(encode_utf8(s) + encode_scalar(c as u32) =~= encode_scalar(c as u32));
    } else {
        lemma_encode_push(s.drop_first(), c);
        assert(s.push(c).drop_first() =~= s.drop_first().push(c));
        assert(encode_utf8(s.push(c)) =~= encode_scalar(s[0] as u32) + (encode_utf8(s.drop_first())
            + encode_scalar(c as u32)));
    }
}

/// The number of bytes of a character's UTF-8 encoding.
fn utf8_width(c: char) -> (n: usize)
    ensures
        n == encode_scalar(c as u32).len(),
{
    let v = c as u32;
    if v <= 0x7F {
        1
    } else if v <= 0x7FF {
        2
    } else if v <= 0xFFFF {
        3
    } else {
        4
    }
}

/// Every ASCII lower-case letter `a`..=`z` becomes its upper-case letter,
/// 32 code points lower; every other character stays as it is; and no
/// result is an ASCII lower-case letter.
pub proof fn lemma_ascii_upper(c: char)
    ensures
        'a' <= c <= 'z' ==> ascii_upper(c) as u32 == c as u32 - 32,
        !('a' <= c <= 'z') ==> ascii_upper(c) == c,
        !('a' <= ascii_upper(c) <= 'z'),
{
    if 'a' <= c && c <= 'z' {
        assert(ascii_upper(c) as u32 == c as u32 - 32);
    }
}

/// A normalised secret holds no ASCII lower-case letter and no whitespace:
/// the decoder, which takes upper-case base32 only, sees every letter the
/// user typed in upper case.
pub proof fn lemma_normalized_has_no_lower_case(s: Seq<char>)
    ensures
        forall|i: int| 0 <= i < normalized_secret(s).len() ==> !('a' <= #[trigger] normalized_secret(s)[i] <= 'z')
            && !is_space(normalized_secret(s)[i]),
{
    let c = cleaned_secret(s);
    let n = padding_for(encode_utf8(c).len());
    lemma_cleaned_is_clean(s);
    assert forall|i: int| 0 <= i < normalized_secret(s).len() implies !('a' <= #[trigger] normalized_secret(s)[i] <= 'z')
        && !is_space(normalized_secret(s)[i]) by {
        if i < c.len() {
            assert(normalized_secret(s)[i] == c[i]);
            lemma_ascii_upper(c[i]);
        } else {
            assert(normalized_secret(s)[i] == padding(n)[i - c.len()]);
        }
    }
}

/// Cleans up a base32 secret as typed or pasted by the user.
pub fn normalize_base32_secret(secret: &str) -> (res: String)
    ensures
        res@ == normalized_secret(secret@),
        forall|i: int| 0 <= i < res@.len() ==> !('a' <= #[trigger] res@[i] <= 'z'),
{
    proof {
        lemma_normalized_has_no_lower_case(secret@);
    }
    let chars = chars_of(secret);
    let mut cleaned = String::new();
    let mut bytes_mod_8: usize = 0;
    let mut i: usize = 0;
    while i < chars.len()
        invariant
            i <= chars@.len(),
            chars@ == secret@,
            cleaned@ == cleaned_secret(chars@.take(i as int)),
            bytes_mod_8 == encode_utf8(cleaned@).len() % 8,
        decreases chars.len() - i,
    {
        assert(chars@.take(i + 1).drop_last() =~= chars@.take(i as int));
        let c = chars[i];
        if !is_space_char(c) && c != '=' {
            let u = upper_ascii(c);
            proof {
                lemma_encode_push(cleaned@, u);
            }
            bytes_mod_8 = (bytes_mod_8 + utf8_width(u)) % 8;
            push_char(&mut cleaned, u);
        }
        i = i + 1;
    }
    assert(chars@.take(chars@.len() as int) =~= chars@);
    let ghost clean = cleaned@;
    let needed = (8 - bytes_mod_8) % 8;
    assert(needed == padding_for(encode_utf8(clean).len()));
    let mut k: usize = 0;
    while k < needed
        invariant
            k <= needed,
            needed == padding_for(encode_utf8(clean).len()),
            cleaned@ == clean + padding(k as nat),
        decreases needed - k,
    {
        push_char(&mut cleaned, '=');
        k = k + 1;
        assert(cleaned@ =~= clean + padding(k as nat));
    }
    cleaned
}

/// The bytes a base32 text decodes to, with the standard alphabet and no
/// padding expected; `None` where it is not such a text.
pub uninterp spec fn base32_secret_bytes(encoded: Seq<char>) -> Option<Seq<u8>>;

/// `totp_rs::Secret::Encoded(text).to_bytes()`: decodes base32 (RFC 4648
/// alphabet, no padding expected). Its only error, `ParseBase32`, becomes
/// `None`. The result is a function of the text alone and is given a name.
#[verifier::external_body]
fn decode_base32(encoded: &str) -> (r: Option<Vec<u8>>)
    ensures
        match r {
            Some(v) => base32_secret_bytes(encoded@) == Some(v@),
            None => base32_secret_bytes(encoded@) is None,
        },
{
    totp_rs::Secret::Encoded(encoded.to_string()).to_bytes().ok()
}

/// The HMAC hash that one-time codes are made with.
#[derive(Debug, Clone, Copy, PartialEq, Eq, Structural)]
pub enum TotpAlgorithm {
    Sha1,
}

/// What makes the one-time codes: the hash, the key, the number of digits,
/// the tolerated clock skew in steps, and the step length in seconds.
pub struct Totp {
    pub algorithm: TotpAlgorithm,
    pub secret: Vec<u8>,
    pub digits: usize,
    pub skew: u8,
    pub step: u64,
}

pub const INVALID_SECRET_MESSAGE: &'static str = "Invalid TOTP secret: ParseBase32";

/// The generator for a user's secret: HMAC-SHA1, six digits, one step of
/// skew, thirty second steps, the key decoded from the normalised secret. A secret that
/// does not decode is refused.
pub fn build_totp(secret: &str) -> (r: Result<Totp, String>)
    ensures
        match base32_secret_bytes(normalized_secret(secret@)) {
            Some(key) => r matches Ok(t) && t.algorithm == TotpAlgorithm::Sha1 && t.secret@ == key
                && t.digits == 6 && t.skew == 1 && t.step == 30,
            None => r matches Err(e) && e@ == INVALID_SECRET_MESSAGE@,
        },
{
    let normalized = normalize_base32_secret(secret);
    match decode_base32(normalized.as_str()) {
        Some(key) => Ok(Totp { algorithm: TotpAlgorithm::Sha1, secret: key, digits: 6, skew: 1, step: 30 }),
        None => Err(String::from_str(INVALID_SECRET_MESSAGE)),
    }
}

/// A one-time code: `digits` ASCII decimal digits.
pub open spec fn is_code(code: Seq<char>, digits: nat) -> bool {
    code.len() == digits && forall|i: int| 0 <= i < code.len() ==> '0' <= #[trigger] code[i] <= '9'
}

/// The code `totp_rs::TOTP::generate` prints for an HMAC-SHA1 generator
/// with this key, digit count and step, at this Unix time in seconds.
pub uninterp spec fn totp_sha1_code(secret: Seq<u8>, digits: nat, step: nat, time: nat) -> Seq<char>;

/// The code for a time, by the generator's hash.
pub open spec fn totp_code(algorithm: TotpAlgorithm, secret: Seq<u8>, digits: nat, step: nat, time: nat) -> Seq<char> {
    match algorithm {
        TotpAlgorithm::Sha1 => totp_sha1_code(secret, digits, step, time),
    }
}

/// `totp_rs::TOTP::new_unchecked(..).generate(time)`: the code for a
/// given time. `generate` prints the HMAC-derived number modulo
/// 10^digits, zero-padded to `digits` characters; the code is a function
/// of the key, digit count, step and time (the skew plays no part) and is
/// given a name. The digit count is at most nine (10^digits must fit 32
/// bits) and the step is not zero (the time is divided by it).
#[verifier::external_body]
fn code_for(algorithm: TotpAlgorithm, secret: &Vec<u8>, digits: usize, skew: u8, step: u64, time: u64) -> (r: String)
    requires
        1 <= digits <= 9,
        step > 0,
    ensures
        match algorithm {
            TotpAlgorithm::Sha1 => r@ == totp_sha1_code(secret@, digits as nat, step as nat, time as nat),
        },
        is_code(r@, digits as nat),
{
    let algorithm = match algorithm {
        TotpAlgorithm::Sha1 => totp_rs::Algorithm::SHA1,
    };
    totp_rs::TOTP::new_unchecked(algorithm, digits, skew, step, secret.clone()).generate(time)
}

/// The system clock in whole seconds since 1970, as totp-rs reads it for
/// the current code, or the clock error as text when it reads earlier.
/// The time is the machine's, so nothing is stated of it.
#[verifier::external_body]
fn unix_time_now() -> Result<u64, String> {
    std::time::SystemTime::now()
        .duration_since(std::time::UNIX_EPOCH)
        .map(|d| d.as_secs())
        .map_err(|e| e.to_string())
}

impl Totp {
    /// The code for a Unix time in seconds.
    pub fn code_at(&self, time: u64) -> (code: String)
        requires
            1 <= self.digits <= 9,
            self.step > 0,
        ensures
            code@ == totp_code(self.algorithm, self.secret@, self.digits as nat, self.step as nat, time as nat),
            is_code(code@, self.digits as nat),
    {
        code_for(self.algorithm, &self.secret, self.digits, self.skew, self.step, time)
    }

    /// The code for the current time, or why the clock could not be read.
    pub fn generate_current(&self) -> (r: Result<String, String>)
        requires
            1 <= self.digits <= 9,
            self.step > 0,
        ensures
            r matches Ok(code) ==> is_code(code@, self.digits as nat) && exists|t: u64|
                code@ == #[trigger] totp_code(self.algorithm, self.secret@, self.digits as nat, self.step as nat, t as nat),
    {
        match unix_time_now() {
            Ok(t) => {
                let code = self.code_at(t);
                assert(code@ == totp_code(self.algorithm, self.secret@, self.digits as nat, self.step as nat, t as nat));
                Ok(code)
            },
            Err(e) => Err(e),
        }
    }
}

/// The characters of a cleaned secret are kept ones, already upper-case.
proof fn lemma_cleaned_is_clean(s: Seq<char>)
    ensures
        forall|i: int| 0 <= i < cleaned_secret(s).len() ==> kept_in_secret(#[trigger] cleaned_secret(s)[i])
            && ascii_upper(cleaned_secret(s)[i]) == cleaned_secret(s)[i],
    decreases s.len(),
{
    if s.len() > 0 {
        lemma_cleaned_is_clean(s.drop_last());
        let c = s.last();
        let u = ascii_upper(c);
        if 'a' <= c && c <= 'z' {
            assert(u as u32 == c as u32 - 32);
            assert('A' <= u && u <= 'Z');
        }
        if !kept_in_secret(c) {
            assert(cleaned_secret(s) == cleaned_secret(s.drop_last()));
        } else {
            assert(kept_in_secret(u) && ascii_upper(u) == u);
            let r = cleaned_secret(s.drop_last());
            assert(cleaned_secret(s) == r.push(u));
            assert forall|i: int| 0 <= i < r.push(u).len() implies kept_in_secret(#[trigger] r.push(u)[i])
                && ascii_upper(r.push(u)[i]) == r.push(u)[i] by {
                if i < r.len() {
                    assert(r.push(u)[i] == r[i]);
                }
            }
        }
    }
}

/// Cleaning text that is already clean leaves it as it is.
proof fn lemma_clean_fixed(s: Seq<char>)
    requires
        forall|i: int| 0 <= i < s.len() ==> kept_in_secret(#[trigger] s[i]) && ascii_upper(s[i]) == s[i],
    ensures
        cleaned_secret(s) == s,
    decreases s.len(),
{
    if s.len() > 0 {
        lemma_clean_fixed(s.drop_last());
        assert(s.drop_last().push(s.last()) =~= s);
    }
}

/// Cleaning text followed by padding cleans the text and drops the padding.
proof fn lemma_clean_drops_padding(s: Seq<char>, n: nat)
    ensures
        cleaned_secret(s + padding(n)) == cleaned_secret(s),
    decreases n,
{
    if n > 0 {
        let t = s + padding(n);
        assert(t.drop_last() =~= s + padding((n - 1) as nat));
        lemma_clean_drops_padding(s, (n - 1) as nat);
    } else {
        assert(s + padding(0) =~= s);
    }
}

/// Padding adds one byte per `=`.
proof fn lemma_padding_bytes(c: Seq<char>, n: nat)
    ensures
        encode_utf8(c + padding(n)).len() == encode_utf8(c).len() + n,
    decreases n,
{
    if n == 0 {
        assert(c + padding(0) =~= c);
    } else {
        lemma_padding_bytes(c, (n - 1) as nat);
        assert(c + padding(n) =~= (c + padding((n - 1) as nat)).push('='));
        lemma_encode_push(c + padding((n - 1) as nat), '=');
    }
}

/// Normalising a secret twice gives what normalising it once gave, and a
/// normalised secret's UTF-8 length is a multiple of eight.
pub proof fn lemma_normalize_idempotent(s: Seq<char>)
    ensures
        normalized_secret(normalized_secret(s)) == normalized_secret(s),
        encode_utf8(normalized_secret(s)).len() % 8 == 0,
{
    lemma_padding_bytes(cleaned_secret(s), padding_for(encode_utf8(cleaned_secret(s)).len()));
    let c = cleaned_secret(s);
    let n = padding_for(encode_utf8(c).len());
    lemma_clean_drops_padding(c, n);
    lemma_cleaned_is_clean(s);
    lemma_clean_fixed(c);
}

} // verus!
