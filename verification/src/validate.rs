//! Input constraints: lengths in bytes, the shape of a token, the shape of
//! an e-mail address.

use vstd::prelude::*;
use vstd::utf8::encode_utf8;
use vstd::utf8::is_ascii_chars;
use vstd::utf8::is_ascii_chars_encode_utf8;
use crate::codes::ErrorCode;
use crate::foreign::ascii_lower;
use crate::foreign::ascii_lowercase;
use crate::foreign::pattern_matches;
use crate::foreign::random_alphanumeric;
use crate::foreign::regex_is_match;
use crate::foreign::replace_char;
use crate::foreign::replaced;

verus! {

pub const MAX_PAGE_NAME_BYTES: usize = 1024;
pub const MIN_PAGE_NAME_BYTES: usize = 1;
pub const TOKEN_LENGTH: usize = 32;
pub const MAX_USER_NAME_BYTES: usize = 64;
pub const MIN_USER_NAME_BYTES: usize = 3;
pub const MAX_EMAIL_BYTES: usize = 128;
pub const MAX_COMMENT_BYTES: usize = 4096;
pub const MIN_COMMENT_BYTES: usize = 1;

/// The number of bytes that a text takes in UTF-8.
pub open spec fn byte_len(s: Seq<char>) -> nat {
    encode_utf8(s).len()
}

/// The length of a text in bytes, as a machine integer.
pub fn str_byte_len(s: &str) -> (n: usize)
    ensures
        n == byte_len(s@),
{
    s.as_bytes().len()
}

/// A chapter path is 1 to 1024 bytes long.
pub open spec fn is_page_name_spec(s: Seq<char>) -> bool {
    1 <= byte_len(s) <= 1024
}

pub fn is_page_name(page_name: &str) -> (r: bool)
    ensures
        r == is_page_name_spec(page_name@),
{
    let n: usize = str_byte_len(page_name);
    n <= MAX_PAGE_NAME_BYTES && n >= MIN_PAGE_NAME_BYTES
}

/// An ASCII letter or digit.
pub open spec fn is_alphanumeric(c: char) -> bool {
    ('0' <= c <= '9') || ('a' <= c <= 'z') || ('A' <= c <= 'Z')
}

/// A token is exactly 32 characters, each an ASCII letter or digit.
pub open spec fn is_token_spec(s: Seq<char>) -> bool {
    s.len() == 32 && forall|i: int| 0 <= i < s.len() ==> is_alphanumeric(#[trigger] s[i])
}

pub fn is_token(token: &str) -> (r: bool)
    ensures
        r == is_token_spec(token@),
{
    proof {
        if is_token_spec(token@) {
            assert(is_ascii_chars(token@));
            is_ascii_chars_encode_utf8(token@);
        }
    }
    if str_byte_len(token) != TOKEN_LENGTH {
        return false;
    }
    if !token.is_ascii() {
        return false;
    }
    proof {
        is_ascii_chars_encode_utf8(token@);
    }
    let mut i: usize = 0;
    while i < TOKEN_LENGTH
        invariant
            i <= 32,
            token@.len() == 32,
            is_ascii_chars(token@),
            forall|j: int| 0 <= j < i ==> is_alphanumeric(#[trigger] token@[j]),
        decreases 32 - i,
    {
        let b: u8 = token.get_ascii(i);
        let ok = (48 <= b && b <= 57) || (97 <= b && b <= 122) || (65 <= b && b <= 90);
        if !ok {
            assert(!is_alphanumeric(token@[i as int]));
            return false;
        }
        assert(is_alphanumeric(token@[i as int]));
        i += 1;
    }
    true
}

/// What is wrong with a display name, by its length in bytes.
pub open spec fn display_name_verdict(s: Seq<char>) -> Option<ErrorCode> {
    if byte_len(s) > 64 {
        Some(ErrorCode::NameTooLong)
    } else if byte_len(s) < 3 {
        Some(ErrorCode::NameTooShort)
    } else {
        None
    }
}

pub fn validate_display_name(user_name: &str) -> (r: Option<ErrorCode>)
    ensures
        r == display_name_verdict(user_name@),
{
    let n: usize = str_byte_len(user_name);
    if n > MAX_USER_NAME_BYTES {
        return Some(ErrorCode::NameTooLong);
    }
    if n < MIN_USER_NAME_BYTES {
        return Some(ErrorCode::NameTooShort);
    }
    None
}

/// What is wrong with a comment's text, by its length in bytes.
pub open spec fn comment_verdict(s: Seq<char>) -> Option<ErrorCode> {
    if byte_len(s) > 4096 {
        Some(ErrorCode::CommentTooLong)
    } else if byte_len(s) < 1 {
        Some(ErrorCode::CommentTooShort)
    } else {
        None
    }
}

pub fn validate_comment(content: &str) -> (r: Option<ErrorCode>)
    ensures
        r == comment_verdict(content@),
{
    let n: usize = str_byte_len(content);
    if n > MAX_COMMENT_BYTES {
        return Some(ErrorCode::CommentTooLong);
    }
    if n < MIN_COMMENT_BYTES {
        return Some(ErrorCode::CommentTooShort);
    }
    None
}

/// The regular expression that an e-mail address has to match. It is a
/// loose check of the shape: something, an `@`, and something more.
pub open spec fn email_pattern_text() -> Seq<char> {
    "^[a-zA-Z0-9_.+-]+@[a-zA-Z0-9-]+.[a-zA-Z0-9-.]+$"@
}

pub fn email_pattern() -> (r: &'static str)
    ensures
        r@ == email_pattern_text(),
{
    "^[a-zA-Z0-9_.+-]+@[a-zA-Z0-9-]+.[a-zA-Z0-9-.]+$"
}

/// What is wrong with an e-mail address of `len` bytes, given what the
/// pattern said of it. The length is looked at first; an address passes
/// only if the pattern was found to match.
pub open spec fn email_verdict(len: nat, matched: Option<bool>) -> Option<ErrorCode> {
    if len > 128 {
        Some(ErrorCode::EmailTooLong)
    } else if matched != Some(true) {
        Some(ErrorCode::EmailInvalid)
    } else {
        None
    }
}

/// Judges an e-mail address by its length in bytes and the answer of the
/// pattern.
pub fn judge_email(len: usize, matched: Option<bool>) -> (r: Option<ErrorCode>)
    ensures
        r == email_verdict(len as nat, matched),
{
    if len > MAX_EMAIL_BYTES {
        return Some(ErrorCode::EmailTooLong);
    }
    match matched {
        Some(true) => None,
        _ => Some(ErrorCode::EmailInvalid),
    }
}

/// Checks an e-mail address: at most 128 bytes, and of the shape that the
/// pattern asks for.
pub fn validate_email(email: &str) -> (r: Option<ErrorCode>)
    ensures
        r == email_verdict(byte_len(email@), regex_is_match(email_pattern_text(), email@)),
        byte_len(email@) > 128 ==> r == Some(ErrorCode::EmailTooLong),
{
    let matched = pattern_matches(email_pattern(), email);
    judge_email(str_byte_len(email), matched)
}

/// The user name that belongs to a display name: spaces become
/// underscores, ASCII capitals become lower case.
pub open spec fn user_name_of(display_name: Seq<char>) -> Seq<char> {
    replaced(display_name, ' ', seq!['_']).map_values(|c: char| ascii_lower(c))
}

pub fn derive_user_name(display_name: &str) -> (r: String)
    ensures
        r@ == user_name_of(display_name@),
{
    proof {
        reveal_strlit("_");
        assert("_"@ =~= seq!['_']);
    }
    let underscored = replace_char(display_name, ' ', "_");
    ascii_lowercase(underscored.as_str())
}

/// A fresh random token.
pub fn generate_token() -> (r: String)
    ensures
        is_token_spec(r@),
{
    random_alphanumeric(TOKEN_LENGTH)
}

} // verus!
