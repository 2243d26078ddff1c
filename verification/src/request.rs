//! The request builder: from a method name, a base URL and one parameter
//! set to a complete description of one outbound call.
//!
//! The method is matched case-insensitively (ASCII case) against the closed
//! set GET, POST, PUT, DELETE; anything else is a configuration error,
//! raised once before any request is built. Placement is by method: GET and
//! DELETE carry the parameters in the URL's query string, POST and PUT
//! carry them form-urlencoded in the body.

use crate::generator::SpecPair;
use vstd::prelude::*;
use vstd::string::*;

verus! {

/// The recognized HTTP methods.
#[derive(Clone, Copy, PartialEq, Eq, Structural, Debug)]
pub enum Method {
    Get,
    Post,
    Put,
    Delete,
}

/// ASCII lowering of one character; other characters stand unchanged.
pub open spec fn lower_char(c: char) -> char {
    if 'A' <= c && c <= 'Z' {
        ((c as u8) + 32) as char
    } else {
        c
    }
}

/// ASCII lowering of a whole character sequence.
pub open spec fn ascii_lower(s: Seq<char>) -> Seq<char> {
    s.map_values(|c: char| lower_char(c))
}

/// The method a name denotes, compared without regard to ASCII case;
/// `None` for every unrecognized name.
pub open spec fn method_of(s: Seq<char>) -> Option<Method> {
    if ascii_lower(s) == "get"@ {
        Some(Method::Get)
    } else if ascii_lower(s) == "post"@ {
        Some(Method::Post)
    } else if ascii_lower(s) == "put"@ {
        Some(Method::Put)
    } else if ascii_lower(s) == "delete"@ {
        Some(Method::Delete)
    } else {
        None
    }
}

fn to_lower(c: char) -> (r: char)
    ensures
        r == lower_char(c),
{
    if c >= 'A' && c <= 'Z' {
        ((c as u8) + 32) as char
    } else {
        c
    }
}

fn eq_ignore_case(s: &str, t: &str) -> (b: bool)
    ensures
        b == (ascii_lower(s@) == ascii_lower(t@)),
{
    let n = s.unicode_len();
    let m = t.unicode_len();
    if n != m {
        return false;
    }
    let mut i: usize = 0;
    while i < n
        invariant
            n == s@.len(),
            n == t@.len(),
            i <= n,
            forall|j: int| 0 <= j < i ==> lower_char(s@[j]) == lower_char(t@[j]),
        decreases n - i,
    {
        if to_lower(s.get_char(i)) != to_lower(t.get_char(i)) {
            proof {
                assert(ascii_lower(s@)[i as int] == lower_char(s@[i as int]));
                assert(ascii_lower(t@)[i as int] == lower_char(t@[i as int]));
            }
            return false;
        }
        i = i + 1;
    }
    proof {
        assert(ascii_lower(s@) =~= ascii_lower(t@));
    }
    true
}

/// Resolves a method name, case-insensitively, to one of the four
/// recognized methods; every other name is rejected with the diagnostic
/// message, before any request is built.
pub fn parse_method(s: &str) -> (r: Result<Method, String>)
    ensures
        r matches Ok(m) ==> method_of(s@) == Some(m),
        r is Err <==> method_of(s@) is None,
        r matches Err(msg) ==> msg@ == "unsuported method "@ + s@ + ", only support(POST, GET,PUT, DELETE )"@,
{
    proof {
        reveal_strlit("get");
        reveal_strlit("post");
        reveal_strlit("put");
        reveal_strlit("delete");
        assert(ascii_lower("get"@) =~= "get"@);
        assert(ascii_lower("post"@) =~= "post"@);
        assert(ascii_lower("put"@) =~= "put"@);
        assert(ascii_lower("delete"@) =~= "delete"@);
    }
    if eq_ignore_case(s, "get") {
        Ok(Method::Get)
    } else if eq_ignore_case(s, "post") {
        Ok(Method::Post)
    } else if eq_ignore_case(s, "put") {
        Ok(Method::Put)
    } else if eq_ignore_case(s, "delete") {
        Ok(Method::Delete)
    } else {
        let mut msg = String::from_str("unsuported method ");
        msg.append(s);
        msg.append(", only support(POST, GET,PUT, DELETE )");
        Err(msg)
    }
}

/// What the form-urlencoding of a parameter set is: named, not restated,
/// since the encoding (percent escapes, `+` for spaces, `&` and `=`
/// separators) is the outside encoder's.
pub uninterp spec fn form_encoded(pairs: Seq<SpecPair>) -> Seq<char>;

/// Relies on serde_urlencoded::to_string: the encoding of a sequence of
/// (name, value) string pairs is a function of the pairs alone, and with no
/// pairs the encoder yields the empty string. Serializing string pairs
/// cannot fail.
#[verifier::external_body]
fn encode_pairs(pairs: &Vec<(String, String)>) -> (r: String)
    ensures
        r@ == form_encoded(pairs.deep_view()),
        pairs@.len() == 0 ==> r@.len() == 0,
{
    match serde_urlencoded::to_string(pairs) {
        Ok(s) => s,
        Err(_) => String::new(),
    }
}

/// One fully described outbound call: the URL already carries the query
/// string where the method asks for one, and the body the form-urlencoded
/// parameters where it does not.
pub struct RequestSpec {
    pub method: Method,
    pub url: String,
    pub body: String,
}

/// The URL with `enc` appended as its query string: unchanged when `enc` is
/// empty, joined with `&` when the URL already has a query, with `?`
/// otherwise.
pub open spec fn query_url(base: Seq<char>, enc: Seq<char>) -> Seq<char> {
    if enc.len() == 0 {
        base
    } else if base.contains('?') {
        base + seq!['&'] + enc
    } else {
        base + seq!['?'] + enc
    }
}

/// The `(url, body)` a request for `m` must carry.
pub open spec fn spec_request(m: Method, base: Seq<char>, pairs: Seq<SpecPair>) -> (Seq<char>, Seq<
    char,
>) {
    match m {
        Method::Get | Method::Delete => (query_url(base, form_encoded(pairs)), Seq::empty()),
        Method::Post | Method::Put => (base, form_encoded(pairs)),
    }
}

fn contains_char(s: &str, c: char) -> (b: bool)
    ensures
        b == s@.contains(c),
{
    let n = s.unicode_len();
    let mut i: usize = 0;
    while i < n
        invariant
            n == s@.len(),
            i <= n,
            forall|j: int| 0 <= j < i ==> s@[j] != c,
        decreases n - i,
    {
        if s.get_char(i) == c {
            return true;
        }
        i = i + 1;
    }
    false
}

/// Builds the request for an already-validated method: the parameters land
/// in the query string or the body exactly as [`spec_request`] places them.
pub fn build_with(m: Method, url: &String, params: &Vec<(String, String)>) -> (r: RequestSpec)
    ensures
        r.method == m,
        (r.url@, r.body@) == spec_request(m, url@, params.deep_view()),
{
    let enc = encode_pairs(params);
    match m {
        Method::Get | Method::Delete => {
            let u = if enc.as_str().is_empty() {
                url.clone()
            } else {
                let mut u = url.clone();
                if contains_char(url.as_str(), '?') {
                    u.append("&");
                    proof {
                        reveal_strlit("&");
                        assert("&"@ =~= seq!['&']);
                    }
                } else {
                    u.append("?");
                    proof {
                        reveal_strlit("?");
                        assert("?"@ =~= seq!['?']);
                    }
                }
                u.append(enc.as_str());
                u
            };
            RequestSpec { method: m, url: u, body: String::new() }
        },
        Method::Post | Method::Put => {
            RequestSpec { method: m, url: url.clone(), body: enc }
        },
    }
}

/// Builds the request for one parameter set.
///
/// Returns `Err` exactly when the method name is unrecognized, with the
/// diagnostic of [`parse_method`]; otherwise the built request is the one
/// [`spec_request`] describes.
pub fn build_request(method: &str, url: &String, params: &Vec<(String, String)>) -> (r: Result<
    RequestSpec,
    String,
>)
    ensures
        r is Err <==> method_of(method@) is None,
        r matches Ok(spec) ==> {
            &&& Some(spec.method) == method_of(method@)
            &&& (spec.url@, spec.body@) == spec_request(spec.method, url@, params.deep_view())
        },
        r matches Err(msg) ==> msg@ == "unsuported method "@ + method@ + ", only support(POST, GET,PUT, DELETE )"@,
{
    match parse_method(method) {
        Ok(m) => Ok(build_with(m, url, params)),
        Err(e) => Err(e),
    }
}

/// Builds one request per parameter set, in the sets' order — or rejects
/// the method once, before any request is built, when it is unrecognized.
pub fn build_all(method: &str, url: &String, param_sets: &Vec<Vec<(String, String)>>) -> (r: Result<
    Vec<RequestSpec>,
    String,
>)
    ensures
        r is Err <==> method_of(method@) is None,
        r matches Ok(v) ==> {
            &&& v@.len() == param_sets@.len()
            &&& forall|i: int| 0 <= i < v@.len() ==> {
                &&& Some((#[trigger] v@[i]).method) == method_of(method@)
                &&& (v@[i].url@, v@[i].body@) == spec_request(
                    v@[i].method,
                    url@,
                    param_sets@[i].deep_view(),
                )
            }
        },
        r matches Err(msg) ==> msg@ == "unsuported method "@ + method@ + ", only support(POST, GET,PUT, DELETE )"@,
{
    match parse_method(method) {
        Err(e) => Err(e),
        Ok(m) => {
            let mut out: Vec<RequestSpec> = Vec::new();
            let n = param_sets.len();
            let mut i: usize = 0;
            while i < n
                invariant
                    n == param_sets@.len(),
                    i <= n,
                    method_of(method@) == Some(m),
                    out@.len() == i,
                    forall|j: int| 0 <= j < i ==> {
                        &&& (#[trigger] out@[j]).method == m
                        &&& (out@[j].url@, out@[j].body@) == spec_request(
                            m,
                            url@,
                            param_sets@[j].deep_view(),
                        )
                    },
                decreases n - i,
            {
                out.push(build_with(m, url, &param_sets[i]));
                i = i + 1;
            }
            Ok(out)
        },
    }
}

} // verus!
