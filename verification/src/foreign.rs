//! The calls that leave this crate. Nothing here is proved: each contract
//! says what the called function is documented to do, and the rest of the
//! crate is verified against these statements.

use vstd::prelude::*;
use vstd::utf8::encode_utf8;
use rand::Rng;
use crate::validate::is_alphanumeric;

verus! {

/// Whether a text has a match of a regular expression, as `regex` decides
/// it: none if the expression does not compile.
pub uninterp spec fn regex_is_match(pattern: Seq<char>, text: Seq<char>) -> Option<bool>;

/// What the first capture group holds in each match of a regular
/// expression in a text, match by match from the left, as `regex` finds
/// them: none if the expression does not compile; for a match in which
/// the group took no part, an empty entry.
pub uninterp spec fn regex_first_groups(pattern: Seq<char>, text: Seq<char>) -> Option<
    Seq<Option<Seq<char>>>,
>;

/// The texts behind a list of optional strings.
pub open spec fn group_texts(v: Seq<Option<String>>) -> Seq<Option<Seq<char>>> {
    Seq::new(
        v.len(),
        |i: int|
            match v[i] {
                Some(s) => Some(s@),
                None => None,
            },
    )
}

/// Calls `regex::Regex::new` and then `Regex::is_match`. The contract
/// only names the answer: the same expression and text always give the
/// same answer.
#[verifier::external_body]
pub(crate) fn pattern_matches(pattern: &str, text: &str) -> (r: Option<bool>)
    ensures
        r == regex_is_match(pattern@, text@),
{
    match regex::Regex::new(pattern) {
        Ok(re) => Some(re.is_match(text)),
        Err(_) => None,
    }
}

/// Calls `regex::Regex::new` and then `Regex::captures_iter`, and takes
/// group 1 of each match with `Captures::get`. The contract only names
/// the list that comes back.
#[verifier::external_body]
pub(crate) fn pattern_first_groups(pattern: &str, text: &str) -> (r: Option<Vec<Option<String>>>)
    ensures
        match r {
            Some(v) => regex_first_groups(pattern@, text@) == Some(group_texts(v@)),
            None => regex_first_groups(pattern@, text@).is_none(),
        },
{
    match regex::Regex::new(pattern) {
        Ok(re) => Some(
            re.captures_iter(text).map(|c| c.get(1).map(|m| m.as_str().to_owned())).collect(),
        ),
        Err(_) => None,
    }
}

/// Draws `len` characters from `rand::distributions::Alphanumeric` with
/// the thread's generator. The draw is random, so the contract states
/// only what holds of every outcome: the length, and that each character
/// is an ASCII letter or digit, which is the set that the distribution
/// samples from.
#[verifier::external_body]
pub(crate) fn random_alphanumeric(len: usize) -> (r: String)
    ensures
        r@.len() == len,
        forall|i: int| 0 <= i < r@.len() ==> is_alphanumeric(#[trigger] r@[i]),
{
    rand::thread_rng().sample_iter(&rand::distributions::Alphanumeric).take(len).map(
        char::from,
    ).collect()
}

/// A text in which each occurrence of one character is replaced by a
/// text.
pub open spec fn replaced(s: Seq<char>, from: char, to: Seq<char>) -> Seq<char>
    decreases s.len(),
{
    if s.len() == 0 {
        Seq::empty()
    } else {
        replaced(s.drop_last(), from, to) + (if s.last() == from {
            to
        } else {
            seq![s.last()]
        })
    }
}

/// Calls `str::replace` with a character as the pattern: every
/// occurrence of the character is replaced, everything else is kept.
#[verifier::external_body]
pub(crate) fn replace_char(s: &str, from: char, to: &str) -> (r: String)
    ensures
        r@ == replaced(s@, from, to@),
{
    s.replace(from, to)
}

/// The lower-case form of an ASCII capital; any other character is itself.
pub open spec fn ascii_lower(c: char) -> char {
    if 'A' <= c <= 'Z' {
        ((c as u8) + 32) as char
    } else {
        c
    }
}

/// Calls `str::to_ascii_lowercase`: the ASCII capitals become their
/// lower-case letters, every other character stays.
#[verifier::external_body]
pub(crate) fn ascii_lowercase(s: &str) -> (r: String)
    ensures
        r@ == s@.map_values(|c: char| ascii_lower(c)),
{
    s.to_ascii_lowercase()
}

/// The upper-case hexadecimal digit of a number from 0 to 15.
pub open spec fn hex_digit(n: int) -> char {
    if n < 10 {
        (48 + n) as char
    } else {
        (55 + n) as char
    }
}

/// A byte as it stands in a percent-encoded text: the byte of an ASCII
/// letter or digit as that character, any other byte as `%` and its two
/// hexadecimal digits.
pub open spec fn percent_encoded_byte(b: u8) -> Seq<char> {
    if (48 <= b <= 57) || (65 <= b <= 90) || (97 <= b <= 122) {
        seq![b as char]
    } else {
        seq!['%', hex_digit(b as int / 16), hex_digit(b as int % 16)]
    }
}

/// A run of bytes, percent-encoded byte by byte.
pub open spec fn percent_encoded_bytes(bytes: Seq<u8>) -> Seq<char>
    decreases bytes.len(),
{
    if bytes.len() == 0 {
        Seq::empty()
    } else {
        percent_encoded_bytes(bytes.drop_last()) + percent_encoded_byte(bytes.last())
    }
}

/// A text, percent-encoded over its bytes in UTF-8.
pub open spec fn percent_encoded(text: Seq<char>) -> Seq<char> {
    percent_encoded_bytes(encode_utf8(text))
}

/// Calls `percent_encoding::utf8_percent_encode` with the set
/// `NON_ALPHANUMERIC` and collects what it yields. That set holds every
/// ASCII byte that is no letter or digit, and a byte outside ASCII is
/// always encoded, as `%` and two upper-case hexadecimal digits.
#[verifier::external_body]
pub(crate) fn percent_encode_text(text: &str) -> (r: String)
    ensures
        r@ == percent_encoded(text@),
{
    percent_encoding::utf8_percent_encode(text, percent_encoding::NON_ALPHANUMERIC).to_string()
}

/// The SeaHash of a run of bytes, with the seed that `seahash` has
/// chosen.
pub uninterp spec fn seahash_of(bytes: Seq<u8>) -> u64;

/// Calls `seahash::hash`. The contract only names the number that comes
/// back.
#[verifier::external_body]
pub(crate) fn seahash_bytes(bytes: &[u8]) -> (h: u64)
    ensures
        h == seahash_of(bytes@),
{
    seahash::hash(bytes)
}

/// The MD5 digest of a run of bytes, written in lower-case hexadecimal
/// digits.
pub uninterp spec fn md5_hex_of(bytes: Seq<u8>) -> Seq<char>;

/// Calls `md5::compute` and formats the digest with `{:x}`. The contract
/// only names the text that comes back.
#[verifier::external_body]
pub(crate) fn md5_hex(bytes: &[u8]) -> (r: String)
    ensures
        r@ == md5_hex_of(bytes@),
{
    format!("{:x}", md5::compute(bytes))
}

} // verus!
