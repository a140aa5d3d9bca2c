//! Input-format validation for the request handlers: length ranges and
//! the identifier character class.

use vstd::prelude::*;
use vstd::string::StrSliceExecFns;

verus! {

pub const USERNAME_MIN_LEN: usize = 3;

pub const USERNAME_MAX_LEN: usize = 24;

pub const PASSWORD_MIN_LEN: usize = 8;

pub const PASSWORD_MAX_LEN: usize = 64;

pub const NICKNAME_MIN_LEN: usize = 1;

pub const NICKNAME_MAX_LEN: usize = 24;

pub const ROOM_NAME_MIN_LEN: usize = 3;

pub const ROOM_NAME_MAX_LEN: usize = 32;

/// An ASCII letter, digit or underscore: the identifier alphabet.
pub open spec fn is_word_char(c: char) -> bool {
    ||| 'a' <= c && c <= 'z'
    ||| 'A' <= c && c <= 'Z'
    ||| '0' <= c && c <= '9'
    ||| c == '_'
}

/// The string is non-empty and made of identifier characters only.
pub open spec fn all_word_chars(s: Seq<char>) -> bool {
    s.len() > 0 && forall|i: int| 0 <= i < s.len() ==> is_word_char(#[trigger] s[i])
}

/// A valid username: within the length bounds, identifier characters
/// only.
pub open spec fn spec_valid_username(s: Seq<char>) -> bool {
    &&& USERNAME_MIN_LEN <= s.len() <= USERNAME_MAX_LEN
    &&& all_word_chars(s)
}

/// A valid password: within the length bounds.
pub open spec fn spec_valid_password(s: Seq<char>) -> bool {
    PASSWORD_MIN_LEN <= s.len() <= PASSWORD_MAX_LEN
}

fn in_range(string: &str, min: usize, max: usize) -> (r: bool)
    ensures
        r == (min <= string@.len() && string@.len() <= max),
{
    let char_count = string.unicode_len();
    char_count >= min && char_count <= max
}

/// Relies on `regex::Regex::is_match` with the anchored pattern
/// `^[a-zA-Z0-9_]+$`: with no flags set, `^` and `$` match only at the
/// two ends of the haystack, so the call returns true exactly when the
/// string is non-empty and every character is an ASCII letter, digit or
/// underscore.
#[verifier::external_body]
fn matches_word_chars(string: &str) -> (r: bool)
    ensures
        r == all_word_chars(string@),
{
    let re = regex::Regex::new("^[a-zA-Z0-9_]+$").unwrap();
    re.is_match(string)
}

/// A character the address rule accepts: ASCII letters, digits, and
/// the punctuation of the class below — where `+-/` in the pattern is
/// the range `'+'` through `'/'`, that is `+ , - . /`.
pub open spec fn is_email_char(c: char) -> bool {
    ||| 'a' <= c && c <= 'z'
    ||| 'A' <= c && c <= 'Z'
    ||| '0' <= c && c <= '9'
    ||| '+' <= c && c <= '/'
    ||| c == '!'
    ||| c == '#'
    ||| c == '$'
    ||| c == '%'
    ||| c == '&'
    ||| c == '\''
    ||| c == '*'
    ||| c == '='
    ||| c == '?'
    ||| c == '^'
    ||| c == '_'
    ||| c == '`'
    ||| c == '{'
    ||| c == '|'
    ||| c == '}'
    ||| c == '~'
    ||| c == '"'
    ||| c == '('
    ||| c == ')'
    ||| c == ':'
    ||| c == ';'
    ||| c == '<'
    ||| c == '>'
    ||| c == '@'
    ||| c == '['
    ||| c == ']'
}

/// The string is non-empty and made of address characters only.
pub open spec fn all_email_chars(s: Seq<char>) -> bool {
    s.len() > 0 && forall|i: int| 0 <= i < s.len() ==> is_email_char(#[trigger] s[i])
}

/// A valid address: within the length bounds, address characters only.
pub open spec fn spec_valid_email(s: Seq<char>) -> bool {
    &&& 3 <= s.len() <= 320
    &&& all_email_chars(s)
}

/// Relies on `regex::Regex::is_match` with the anchored address
/// pattern: with no flags set, `^` and `$` match only at the two ends
/// of the haystack, so the call returns true exactly when the string is
/// non-empty and every character is in the class — ASCII letters,
/// digits, and the listed punctuation, `+-/` being the range `'+'`
/// through `'/'`. The fixed pattern compiles, so the `unwrap` cannot
/// panic.
#[verifier::external_body]
fn matches_email_chars(string: &str) -> (r: bool)
    ensures
        r == all_email_chars(string@),
{
    let re = regex::Regex::new(
        r#"^[a-zA-Z0-9!#$%&'*+-/=?^_`{|}~."\(\),:;<>@\[\]]+$"#,
    ).unwrap();
    re.is_match(string)
}

/// A username must be 3 to 24 identifier characters.
pub fn valid_username(username: &str) -> (r: bool)
    ensures
        r == spec_valid_username(username@),
{
    in_range(username, USERNAME_MIN_LEN, USERNAME_MAX_LEN) && matches_word_chars(username)
}

/// A password must be 8 to 64 characters.
pub fn valid_password(password: &str) -> (r: bool)
    ensures
        r == spec_valid_password(password@),
{
    in_range(password, PASSWORD_MIN_LEN, PASSWORD_MAX_LEN)
}

/// A nickname must be 1 to 24 characters.
pub fn valid_nickname(nickname: &str) -> (r: bool)
    ensures
        r == (NICKNAME_MIN_LEN <= nickname@.len() && nickname@.len() <= NICKNAME_MAX_LEN),
{
    in_range(nickname, NICKNAME_MIN_LEN, NICKNAME_MAX_LEN)
}

/// An address must be 3 to 320 characters, all from the address
/// character class.
pub fn valid_email(email: String) -> (r: bool)
    ensures
        r == spec_valid_email(email@),
{
    in_range(email.as_str(), 3, 320) && matches_email_chars(email.as_str())
}

/// A room name must be 3 to 32 characters.
pub fn valid_room_name(name: &str) -> (r: bool)
    ensures
        r == (ROOM_NAME_MIN_LEN <= name@.len() && name@.len() <= ROOM_NAME_MAX_LEN),
{
    in_range(name, ROOM_NAME_MIN_LEN, ROOM_NAME_MAX_LEN)
}

/// A room path is held to the same rule as a username.
pub fn valid_room_path(username: &str) -> (r: bool)
    ensures
        r == spec_valid_username(username@),
{
    in_range(username, USERNAME_MIN_LEN, USERNAME_MAX_LEN) && matches_word_chars(username)
}

} // verus!
