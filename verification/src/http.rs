//! HTTP method validation and request framing.
//!
//! When an HTTP method is requested, the supplied name is uppercased and
//! checked against the nine recognized methods (unless the force flag waives
//! the check), and the outgoing buffer is assembled as a request line, four
//! fixed headers, a blank line, and the body.

use vstd::prelude::*;
use vstd::string::*;
use vstd::utf8::encode_utf8;
use crate::text::upper_of;
use crate::text::to_uppercase_string;

verus! {

/// The request carried an HTTP method outside the recognized set, and the
/// force flag was not given to waive the check.
#[derive(Debug)]
pub enum HttpMethodError {
    InvalidMethod,
}

/// The nine recognized HTTP method names, in their canonical uppercase form.
pub open spec fn is_http_method(m: Seq<char>) -> bool {
    ||| m == "GET"@
    ||| m == "POST"@
    ||| m == "PUT"@
    ||| m == "DELETE"@
    ||| m == "PATCH"@
    ||| m == "HEAD"@
    ||| m == "OPTIONS"@
    ||| m == "CONNECT"@
    ||| m == "TRACE"@
}

/// Whether `method` may be used: always under force, otherwise exactly when
/// its uppercase form is one of the nine recognized methods.
pub fn http_method_validity_check(method: &str, force: bool) -> (r: bool)
    ensures
        r == (force || is_http_method(upper_of(method@))),
{
    if force {
        return true;
    }
    let u = to_uppercase_string(method);
    let r = u == "GET".to_owned() || u == "POST".to_owned() || u == "PUT".to_owned() || u
        == "DELETE".to_owned() || u == "PATCH".to_owned() || u == "HEAD".to_owned() || u
        == "OPTIONS".to_owned() || u == "CONNECT".to_owned() || u == "TRACE".to_owned();
    r
}

/// The decimal digit characters of `n`, most significant first, with no
/// leading zero except for `n == 0` itself.
pub open spec fn dec_rep(n: nat) -> Seq<char>
    decreases n,
{
    if n < 10 {
        seq![digit_char(n)]
    } else {
        dec_rep(n / 10) + seq![digit_char(n % 10)]
    }
}

/// The character for one decimal digit; values ten and over are never
/// produced by `dec_rep`.
pub open spec fn digit_char(d: nat) -> char {
    if d == 0 {
        '0'
    } else if d == 1 {
        '1'
    } else if d == 2 {
        '2'
    } else if d == 3 {
        '3'
    } else if d == 4 {
        '4'
    } else if d == 5 {
        '5'
    } else if d == 6 {
        '6'
    } else if d == 7 {
        '7'
    } else if d == 8 {
        '8'
    } else {
        '9'
    }
}

/// The decimal rendering of `n`.
fn dec_string(n: usize) -> (r: String)
    ensures
        r@ == dec_rep(n as nat),
    decreases n,
{
    proof {
        reveal_strlit("0123456789");
    }
    let d = n % 10;
    let digit = "0123456789".substring_char(d, d + 1);
    proof {
        assert(digit@ =~= seq![digit_char((n % 10) as nat)]);
    }
    if n < 10 {
        digit.to_owned()
    } else {
        let mut r = dec_string(n / 10);
        r.append(digit);
        r
    }
}

/// The full wire buffer for an HTTP request: the request line built from the
/// (already uppercased) method and the path, the four fixed headers in
/// order, a blank line, and the body verbatim. The content length counts the
/// bytes of the body's UTF-8 encoding.
pub open spec fn framed_request(
    method_upper: Seq<char>,
    path: Seq<char>,
    host: Seq<char>,
    body: Seq<char>,
) -> Seq<char> {
    method_upper + " "@ + path + " "@ + "HTTP/1.1"@ + "\r\n"@ + "Host: "@ + host + "\r\n"@
        + "User-Agent: turl"@ + "\r\n"@ + "Accept: */*"@ + "\r\n"@ + "Content-Length: "@ + dec_rep(
        encode_utf8(body).len(),
    ) + "\r\n"@ + "\r\n"@ + body
}

/// Assembles the outgoing buffer from an uppercased method, the parsed path
/// and host address, and the request body.
fn frame_request(method_upper: &str, path: &str, host: &str, body: &str) -> (r: String)
    ensures
        r@ == framed_request(method_upper@, path@, host@, body@),
{
    let mut r = method_upper.to_owned();
    r.append(" ");
    r.append(path);
    r.append(" ");
    r.append("HTTP/1.1");
    r.append("\r\n");
    r.append("Host: ");
    r.append(host);
    r.append("\r\n");
    r.append("User-Agent: turl");
    r.append("\r\n");
    r.append("Accept: */*");
    r.append("\r\n");
    r.append("Content-Length: ");
    let body_bytes = body.as_bytes();
    let n = body_bytes.len();
    proof {
        vstd::slice::axiom_spec_len(body_bytes);
        assert(n as nat == encode_utf8(body@).len());
    }
    let ns = dec_string(n);
    r.append(ns.as_str());
    r.append("\r\n");
    r.append("\r\n");
    r.append(body);
    r
}

/// Validates `method` and, when it passes, assembles the full HTTP request
/// buffer from its uppercase form, the parsed path and host, and the body.
/// Rejected exactly when the method is unrecognized and force is not set.
pub fn build_http_request(method: &str, path: &str, host: &str, body: &str, force: bool) -> (r:
    Result<String, HttpMethodError>)
    ensures
        r is Ok <==> force || is_http_method(upper_of(method@)),
        r is Ok ==> r->Ok_0@ == framed_request(upper_of(method@), path@, host@, body@),
{
    if !http_method_validity_check(method, force) {
        return Err(HttpMethodError::InvalidMethod);
    }
    let upper = to_uppercase_string(method);
    Ok(frame_request(upper.as_str(), path, host, body))
}

/// The invalid-method diagnostic.
pub fn invalid_method_message() -> (r: String)
    ensures
        r@ == "Error: Invalid HTTP Method, use a valid HTTP method or use --force to ignore this check"@,
{
    "Error: Invalid HTTP Method, use a valid HTTP method or use --force to ignore this check".to_owned()
}

} // verus!
