//! Small validation helpers: building findings and recognising method names
//! and URIs.

use vstd::prelude::*;
use super::{Finding, ValidationError, ValidationWarning};

verus! {

/// Whether `c` is an ASCII letter.
pub open spec fn is_ascii_letter(c: char) -> bool {
    ('a' <= c <= 'z') || ('A' <= c <= 'Z')
}

/// Whether `c` is an ASCII digit.
pub open spec fn is_ascii_digit(c: char) -> bool {
    '0' <= c <= '9'
}

/// Whether `c` may follow the first character of a method name.
pub open spec fn is_method_char(c: char) -> bool {
    is_ascii_letter(c) || is_ascii_digit(c) || c == '_' || c == '/'
}

/// Whether `c` may follow the first character of a URI scheme.
pub open spec fn is_scheme_char(c: char) -> bool {
    is_ascii_letter(c) || is_ascii_digit(c) || c == '+' || c == '.' || c == '-'
}

/// A method name: an ASCII letter followed by letters, digits, `_` and `/`
/// (`^[a-zA-Z][a-zA-Z0-9_/]*$`).
pub open spec fn valid_method_name(s: Seq<char>) -> bool {
    &&& s.len() > 0
    &&& is_ascii_letter(s[0])
    &&& forall|i: int| 1 <= i < s.len() ==> is_method_char(#[trigger] s[i])
}

/// A URI: it starts with a scheme, an ASCII letter followed by letters,
/// digits, `+`, `.` and `-`, which a `:` ends (`^[a-zA-Z][a-zA-Z0-9+.-]*:`).
pub open spec fn valid_uri(s: Seq<char>) -> bool {
    exists|k: int|
        #![trigger s[k]]
        1 <= k < s.len() && s[k] == ':' && is_ascii_letter(s[0]) && forall|j: int|
            1 <= j < k ==> is_scheme_char(#[trigger] s[j])
}

fn char_is_ascii_letter(c: char) -> (b: bool)
    ensures
        b == is_ascii_letter(c),
{
    ('a' <= c && c <= 'z') || ('A' <= c && c <= 'Z')
}

fn char_is_ascii_digit(c: char) -> (b: bool)
    ensures
        b == is_ascii_digit(c),
{
    '0' <= c && c <= '9'
}

/// A validation error with no field path.
pub fn error(code: &str, message: &str) -> (e: ValidationError)
    ensures
        e@ == (Finding { code: code@, message: message@, field_path: None }),
{
    ValidationError { code: code.to_string(), message: message.to_string(), field_path: None }
}

/// A validation warning with no field path.
pub fn warning(code: &str, message: &str) -> (w: ValidationWarning)
    ensures
        w@ == (Finding { code: code@, message: message@, field_path: None }),
{
    ValidationWarning { code: code.to_string(), message: message.to_string(), field_path: None }
}

/// Whether `name` is a well-formed method name.
pub fn is_valid_method_name(name: &str) -> (b: bool)
    ensures
        b == valid_method_name(name@),
{
    let mut first = true;
    for c in it: name.chars()
        invariant
            it.seq() == name@,
            first == (it.index() == 0),
            it.index() > 0 ==> is_ascii_letter(name@[0]),
            forall|j: int| 1 <= j < it.index() ==> is_method_char(#[trigger] name@[j]),
    {
        let ghost k = it.index() as int;
        assert(c == name@[k]);
        if first {
            if !char_is_ascii_letter(c) {
                return false;
            }
            first = false;
        } else if !(char_is_ascii_letter(c) || char_is_ascii_digit(c) || c == '_' || c == '/') {
            assert(!is_method_char(name@[k]));
            return false;
        }
    }
    !first
}

/// Whether `uri` starts with a URI scheme and its `:`.
pub fn is_valid_uri(uri: &str) -> (b: bool)
    ensures
        b == valid_uri(uri@),
{
    let mut first = true;
    for c in it: uri.chars()
        invariant
            it.seq() == uri@,
            first == (it.index() == 0),
            it.index() > 0 ==> is_ascii_letter(uri@[0]),
            forall|j: int| 1 <= j < it.index() ==> is_scheme_char(#[trigger] uri@[j]),
    {
        let ghost k = it.index() as int;
        assert(c == uri@[k]);
        if first {
            if !char_is_ascii_letter(c) {
                return false;
            }
            first = false;
        } else if c == ':' {
            return true;
        } else if !(char_is_ascii_letter(c) || char_is_ascii_digit(c) || c == '+' || c == '.' || c
            == '-') {
            proof {
                if valid_uri(uri@) {
                    let m = choose|m: int|
                        #![trigger uri@[m]]
                        1 <= m < uri@.len() && uri@[m] == ':' && is_ascii_letter(uri@[0])
                            && forall|j: int| 1 <= j < m ==> is_scheme_char(#[trigger] uri@[j]);
                    if m > k {
                        assert(is_scheme_char(uri@[k]));
                    }
                }
            }
            return false;
        }
    }
    proof {
        if valid_uri(uri@) {
            let m = choose|m: int|
                #![trigger uri@[m]]
                1 <= m < uri@.len() && uri@[m] == ':' && is_ascii_letter(uri@[0]) && forall|j: int|
                    1 <= j < m ==> is_scheme_char(#[trigger] uri@[j]);
            assert(is_scheme_char(uri@[m]));
        }
    }
    false
}

} // verus!
