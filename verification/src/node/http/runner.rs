//! The parameters of an HTTP request, and how they are read.

use vstd::prelude::*;
use crate::text::{ascii_lower_seq, chars_of, matches_ignore_case, trim_range, trimmed};

verus! {

#[derive(Clone, Debug)]
pub struct HttpParams {
    /// `GET` or `POST`, in either case.
    pub method: String,
    pub url: String,
    /// Each as `Key: Value`.
    pub headers: Option<Vec<String>>,
    pub body: String,
    pub timeout_ms: u64,
}

/// The methods that a request may have.
#[derive(Clone, Copy, Debug, PartialEq, Eq, Structural)]
pub enum HttpMethod {
    Get,
    Post,
}

/// The method that a text names.
pub open spec fn method_of(method: Seq<char>) -> Option<HttpMethod> {
    if ascii_lower_seq(method) == "get"@ {
        Some(HttpMethod::Get)
    } else if ascii_lower_seq(method) == "post"@ {
        Some(HttpMethod::Post)
    } else {
        None
    }
}

/// Index of the first colon at or behind `i`; the length where there is none.
pub open spec fn colon_at(s: Seq<char>, i: int) -> int
    decreases s.len() - i,
{
    if 0 <= i < s.len() && s[i] != ':' {
        colon_at(s, i + 1)
    } else {
        i
    }
}

/// The name and the value of a header that is written `Key: Value`: what
/// stands before the first colon and what stands behind it, each without the
/// white space at its ends.
pub open spec fn header_of(item: Seq<char>) -> Option<(Seq<char>, Seq<char>)> {
    let p = colon_at(item, 0);
    if p < item.len() {
        Some((trimmed(item, 0, p), trimmed(item, p + 1, item.len() as int)))
    } else {
        None
    }
}

/// The method that a text names.
pub fn parse_method(method: &str) -> (r: Option<HttpMethod>)
    ensures
        r == method_of(method@),
{
    if matches_ignore_case(method, "get") {
        Some(HttpMethod::Get)
    } else if matches_ignore_case(method, "post") {
        Some(HttpMethod::Post)
    } else {
        None
    }
}

/// The name and the value of a header that is written `Key: Value`.
pub fn split_header(item: &str) -> (r: Option<(String, String)>)
    ensures
        match header_of(item@) {
            Some((name, value)) => r matches Some(pair) && pair.0@ == name && pair.1@ == value,
            None => r is None,
        },
{
    let chars = chars_of(item);
    let n = chars.len();
    let mut p: usize = 0;
    while p < n && chars[p] != ':'
        invariant
            p <= n,
            n == chars.len(),
            colon_at(chars@, p as int) == colon_at(chars@, 0),
        decreases n - p,
    {
        p += 1;
    }
    if p >= n {
        return None;
    }
    let name = trim_range(&chars, 0, p);
    let value = trim_range(&chars, p + 1, n);
    Some((name, value))
}

impl HttpParams {
    /// How long a request may take where nothing else is said, in milliseconds.
    pub fn default_timeout() -> (r: u64)
        ensures
            r == 30_000,
    {
        30_000
    }

    /// Whether the request carries its body: it is a `POST` and the body is not
    /// empty.
    pub fn sends_body(&self) -> (r: bool)
        ensures
            r == (ascii_lower_seq(self.method@) == "post"@ && self.body@.len() > 0),
    {
        matches_ignore_case(self.method.as_str(), "post") && self.body.as_str().unicode_len() > 0
    }
}

pub struct HttpRunnerFactory;

impl HttpRunnerFactory {
    pub fn new() -> Self {
        Self {  }
    }
}

impl Default for HttpRunnerFactory {
    fn default() -> Self {
        Self::new()
    }
}

} // verus!
