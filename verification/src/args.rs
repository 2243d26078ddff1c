//! Parsing of the two kinds of `key:rest` arguments: literal parameter pairs
//! and wordlist declarations. The text before the first `:` is the parameter
//! name; everything after it is the value (or the file path).

use vstd::prelude::*;
use vstd::string::*;

verus! {

/// Finds the first occurrence of `c` in `s`, as a character index.
fn find_char(s: &str, c: char) -> (r: Option<usize>)
    ensures
        match r {
            Some(i) => {
                &&& i < s@.len()
                &&& s@[i as int] == c
                &&& forall|j: int| 0 <= j < i ==> s@[j] != c
            },
            None => !s@.contains(c),
        },
{
    let n = s.unicode_len();
    let mut i: usize = 0;
    while i < n
        invariant
            n == s@.len(),
            i <= n,
            forall|j: int| 0 <= j < i ==> s@[j] != c,
        decreases n - i,
    {
        if s.get_char(i) == c {
            return Some(i);
        }
        i = i + 1;
    }
    None
}

/// Splits `s` at its first `:` into a `(name, value)` pair.
///
/// Returns `Ok((name, value))` exactly when `s` contains a colon, with `name`
/// the characters before the first colon and `value` everything after it;
/// otherwise returns the diagnostic message.
pub fn parse_param(s: &str) -> (r: Result<(String, String), String>)
    ensures
        r is Ok <==> s@.contains(':'),
        r matches Ok(p) ==> match s@.index_of_first(':') {
            Some(i) => p.0@ == s@.subrange(0, i) && p.1@ == s@.subrange(i + 1, s@.len() as int),
            None => false,
        },
        r matches Err(m) ==> m@ == "Invalid key:value : no : found in "@ + s@,
{
    match find_char(s, ':') {
        Some(pos) => {
            proof {
                s@.index_of_first_ensures(':');
            }
            let n = s.unicode_len();
            let key = s.substring_char(0, pos).to_owned();
            let value = s.substring_char(pos + 1, n).to_owned();
            Ok((key, value))
        },
        None => {
            let mut msg = String::from_str("Invalid key:value : no : found in ");
            msg.append(s);
            Err(msg)
        },
    }
}

/// Splits `s` at its first `:` into a `(name, file path)` pair. The path is
/// returned as plain text; the caller turns it into a filesystem path.
///
/// Returns `Ok((name, path))` exactly when `s` contains a colon, split as in
/// [`parse_param`]; otherwise returns the diagnostic message.
pub fn parse_wordlist(s: &str) -> (r: Result<(String, String), String>)
    ensures
        r is Ok <==> s@.contains(':'),
        r matches Ok(p) ==> match s@.index_of_first(':') {
            Some(i) => p.0@ == s@.subrange(0, i) && p.1@ == s@.subrange(i + 1, s@.len() as int),
            None => false,
        },
        r matches Err(m) ==> m@ == "invalid key, `:` not found in "@ + s@,
{
    match find_char(s, ':') {
        Some(pos) => {
            proof {
                s@.index_of_first_ensures(':');
            }
            let n = s.unicode_len();
            let key = s.substring_char(0, pos).to_owned();
            let path = s.substring_char(pos + 1, n).to_owned();
            Ok((key, path))
        },
        None => {
            let mut msg = String::from_str("invalid key, `:` not found in ");
            msg.append(s);
            Err(msg)
        },
    }
}

} // verus!
