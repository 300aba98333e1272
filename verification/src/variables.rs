//! Variable tokens in template strings: `${KEY}` and `${KEY:DEFAULT}`.
//!
//! A key is one or more characters other than `}` and `:`. A default is any
//! run of characters other than `}`. Tokens are found from left to right and
//! do not overlap; text that is no token passes through unchanged.

use vstd::prelude::*;
use crate::context::Context;
use crate::json::{JsonView, json_text};
use crate::text::{chars_of, string_of_range};

verus! {

/// One token of a template: where it stands, its key and its default.
pub struct Token {
    /// Index of the `$`.
    pub start: int,
    /// Index just behind the closing `}`.
    pub end: int,
    pub key: Seq<char>,
    /// The text behind the colon, where the token has one.
    pub default: Option<Seq<char>>,
}

pub open spec fn is_key_char(c: char) -> bool {
    c != '}' && c != ':'
}

/// Length of the longest run of key characters that starts at `i`.
pub open spec fn key_run(s: Seq<char>, i: int) -> nat
    decreases s.len() - i,
{
    if 0 <= i < s.len() && is_key_char(s[i]) {
        1 + key_run(s, i + 1)
    } else {
        0
    }
}

/// Length of the longest run of characters other than `}` that starts at `i`.
pub open spec fn default_run(s: Seq<char>, i: int) -> nat
    decreases s.len() - i,
{
    if 0 <= i < s.len() && s[i] != '}' {
        1 + default_run(s, i + 1)
    } else {
        0
    }
}

/// The token that starts at `i`, if one does.
pub open spec fn token_at(s: Seq<char>, i: int) -> Option<Token> {
    if 0 <= i && i + 1 < s.len() && s[i] == '$' && s[i + 1] == '{' {
        let k = key_run(s, i + 2);
        let p = i + 2 + k;
        if k > 0 && p < s.len() {
            if s[p] == '}' {
                Some(Token { start: i, end: p + 1, key: s.subrange(i + 2, p), default: None })
            } else {
                let d = default_run(s, p + 1);
                let q = p + 1 + d;
                if q < s.len() {
                    Some(
                        Token {
                            start: i,
                            end: q + 1,
                            key: s.subrange(i + 2, p),
                            default: Some(s.subrange(p + 1, q)),
                        },
                    )
                } else {
                    None
                }
            }
        } else {
            None
        }
    } else {
        None
    }
}

/// Whether `s` holds no token at or behind index `i`.
pub open spec fn token_free_from(s: Seq<char>, i: int) -> bool {
    forall|j: int| i <= j < s.len() ==> token_at(s, j) is None
}

/// Whether `s` holds no token.
pub open spec fn token_free(s: Seq<char>) -> bool {
    token_free_from(s, 0)
}

/// The text that stands for a stored value: a string's own characters, the
/// compact JSON text of any other value.
pub open spec fn value_text(v: JsonView) -> Seq<char> {
    match v {
        JsonView::String(s) => s,
        _ => json_text(v),
    }
}

/// What a token is replaced by: the text of the value stored under its key,
/// or its default where the key is absent (nothing where it has no default).
pub open spec fn substitution(store: Map<Seq<char>, JsonView>, t: Token) -> Seq<char> {
    if store.contains_key(t.key) {
        value_text(store[t.key])
    } else {
        match t.default {
            Some(d) => d,
            None => Seq::empty(),
        }
    }
}

/// The part of `s` from index `i` on, with every token replaced.
pub open spec fn resolve_from(store: Map<Seq<char>, JsonView>, s: Seq<char>, i: int) -> Seq<char>
    decreases s.len() - i,
{
    if i < 0 || i >= s.len() {
        Seq::empty()
    } else {
        match token_at(s, i) {
            Some(t) => substitution(store, t) + resolve_from(store, s, t.end),
            None => seq![s[i]] + resolve_from(store, s, i + 1),
        }
    }
}

/// `s` with every token replaced.
pub open spec fn resolve(store: Map<Seq<char>, JsonView>, s: Seq<char>) -> Seq<char> {
    resolve_from(store, s, 0)
}

/// The key of the first token, at or behind index `i`, that has no default
/// and whose key is absent from the store.
pub open spec fn first_missing_from(store: Map<Seq<char>, JsonView>, s: Seq<char>, i: int) -> Option<
    Seq<char>,
>
    decreases s.len() - i,
{
    if i < 0 || i >= s.len() {
        None
    } else {
        match token_at(s, i) {
            Some(t) => if !store.contains_key(t.key) && t.default is None {
                Some(t.key)
            } else {
                first_missing_from(store, s, t.end)
            },
            None => first_missing_from(store, s, i + 1),
        }
    }
}

/// The key of the first token of `s` that has no default and whose key is absent.
pub open spec fn first_missing(store: Map<Seq<char>, JsonView>, s: Seq<char>) -> Option<Seq<char>> {
    first_missing_from(store, s, 0)
}

/// A token as the scanner reports it, by indices into the scanned characters.
pub struct TokenSpan {
    /// Index just behind the closing `}`.
    pub end: usize,
    /// The key is `chars[key_from..key_to]`.
    pub key_from: usize,
    pub key_to: usize,
    /// The default is `chars[key_to + 1..end - 1]`, where there is one.
    pub has_default: bool,
}

impl TokenSpan {
    /// The token that the span stands for, started at `start` in `s`.
    pub open spec fn token(&self, s: Seq<char>, start: int) -> Token {
        Token {
            start,
            end: self.end as int,
            key: s.subrange(self.key_from as int, self.key_to as int),
            default: if self.has_default {
                Some(s.subrange(self.key_to + 1, self.end - 1))
            } else {
                None
            },
        }
    }

    /// Whether the indices lie in `s` in the order a token at `start` has them.
    pub open spec fn in_bounds(&self, s: Seq<char>, start: int) -> bool {
        &&& self.key_from == start + 2
        &&& self.key_from < self.key_to
        &&& self.key_to < self.end
        &&& self.has_default ==> self.key_to + 2 <= self.end
        &&& self.end <= s.len()
    }
}

proof fn lemma_key_run(s: Seq<char>, i: int, j: int)
    requires
        0 <= i <= j <= s.len(),
        forall|k: int| i <= k < j ==> is_key_char(s[k]),
    ensures
        key_run(s, i) == (j - i) + key_run(s, j),
    decreases j - i,
{
    if i < j {
        lemma_key_run(s, i + 1, j);
    }
}

proof fn lemma_default_run(s: Seq<char>, i: int, j: int)
    requires
        0 <= i <= j <= s.len(),
        forall|k: int| i <= k < j ==> s[k] != '}',
    ensures
        default_run(s, i) == (j - i) + default_run(s, j),
    decreases j - i,
{
    if i < j {
        lemma_default_run(s, i + 1, j);
    }
}

/// Looks for a token that starts at index `i` of `chars`.
pub fn scan_token(chars: &Vec<char>, i: usize) -> (r: Option<TokenSpan>)
    ensures
        match r {
            Some(span) => span.in_bounds(chars@, i as int) && token_at(chars@, i as int) == Some(
                span.token(chars@, i as int),
            ),
            None => token_at(chars@, i as int) is None,
        },
{
    let n = chars.len();
    if n < 2 || i >= n - 1 {
        return None;
    }
    if chars[i] != '$' || chars[i + 1] != '{' {
        return None;
    }
    let key_from: usize = i + 2;
    let mut p: usize = key_from;
    while p < n && chars[p] != '}' && chars[p] != ':'
        invariant
            key_from <= p <= n,
            n == chars.len(),
            forall|k: int| key_from <= k < p ==> is_key_char(chars@[k]),
        decreases n - p,
    {
        p += 1;
    }
    proof {
        lemma_key_run(chars@, key_from as int, p as int);
    }
    if p == key_from || p >= n {
        return None;
    }
    if chars[p] == '}' {
        return Some(TokenSpan { end: p + 1, key_from, key_to: p, has_default: false });
    }
    let mut q: usize = p + 1;
    while q < n && chars[q] != '}'
        invariant
            p + 1 <= q <= n,
            n == chars.len(),
            forall|k: int| p + 1 <= k < q ==> chars@[k] != '}',
        decreases n - q,
    {
        q += 1;
    }
    proof {
        lemma_default_run(chars@, p + 1, q as int);
    }
    if q >= n {
        return None;
    }
    Some(TokenSpan { end: q + 1, key_from, key_to: p, has_default: true })
}

/// Replaces every `${KEY}` and `${KEY:DEFAULT}` in `input` by the text of the
/// value that `context` holds under `KEY`, or by the default where it holds none.
pub fn parse_variables(context: &Context, input: &str) -> (r: String)
    ensures
        r@ == resolve(context.store(), input@),
{
    let chars = chars_of(input);
    let n = chars.len();
    let mut out = String::new();
    let mut i: usize = 0;
    while i < n
        invariant
            i <= n,
            n == chars.len(),
            chars@ == input@,
            out@ + resolve_from(context.store(), chars@, i as int) == resolve(
                context.store(),
                chars@,
            ),
        decreases n - i,
    {
        let ghost rest = resolve_from(context.store(), chars@, i as int);
        match scan_token(&chars, i) {
            Some(span) => {
                let key = string_of_range(&chars, span.key_from, span.key_to);
                let ghost before = out@;
                match context.get_value(key.as_str()) {
                    Some(value) => {
                        match value.as_str() {
                            Some(text) => out.push_str(text),
                            None => value.write_text(&mut out),
                        }
                    },
                    None => {
                        if span.has_default {
                            let d = string_of_range(&chars, span.key_to + 1, span.end - 1);
                            out.push_str(d.as_str());
                        }
                    },
                }
                proof {
                    let t = span.token(chars@, i as int);
                    assert(out@ == before + substitution(context.store(), t));
                    assert(rest == substitution(context.store(), t) + resolve_from(
                        context.store(),
                        chars@,
                        t.end,
                    ));
                    assert(out@ + resolve_from(context.store(), chars@, t.end) == before + rest);
                }
                i = span.end;
            },
            None => {
                let ghost before = out@;
                out.push(chars[i]);
                proof {
                    assert(rest == seq![chars@[i as int]] + resolve_from(
                        context.store(),
                        chars@,
                        i + 1,
                    ));
                    assert(out@ + resolve_from(context.store(), chars@, i + 1) == before + rest);
                }
                i += 1;
            },
        }
    }
    assert(out@ + Seq::<char>::empty() == out@);
    out
}

/// A variable that a template needs and the context does not hold.
#[derive(Debug)]
pub struct MissingVariable {
    pub key: String,
}

impl MissingVariable {
    /// The error as a sentence.
    pub fn message(&self) -> (r: String)
        ensures
            r@ == "variable '"@ + self.key@ + "' is not set"@,
    {
        let mut r = String::new();
        r.push_str("variable '");
        r.push_str(self.key.as_str());
        r.push_str("' is not set");
        assert(r@ == "variable '"@ + self.key@ + "' is not set"@);
        r
    }
}

/// As [`parse_variables`], but fails at the first token that has no default
/// and whose key the context does not hold.
pub fn try_parse_variables(context: &Context, input: &str) -> (r: Result<String, MissingVariable>)
    ensures
        match first_missing(context.store(), input@) {
            Some(key) => r matches Err(e) && e.key@ == key,
            None => r matches Ok(text) && text@ == resolve(context.store(), input@),
        },
{
    let chars = chars_of(input);
    let n = chars.len();
    let mut out = String::new();
    let mut i: usize = 0;
    while i < n
        invariant
            i <= n,
            n == chars.len(),
            chars@ == input@,
            first_missing_from(context.store(), chars@, i as int) == first_missing(
                context.store(),
                chars@,
            ),
            out@ + resolve_from(context.store(), chars@, i as int) == resolve(
                context.store(),
                chars@,
            ),
        decreases n - i,
    {
        let ghost rest = resolve_from(context.store(), chars@, i as int);
        match scan_token(&chars, i) {
            Some(span) => {
                let key = string_of_range(&chars, span.key_from, span.key_to);
                let ghost before = out@;
                match context.get_value(key.as_str()) {
                    Some(value) => {
                        match value.as_str() {
                            Some(text) => out.push_str(text),
                            None => value.write_text(&mut out),
                        }
                    },
                    None => {
                        if span.has_default {
                            let d = string_of_range(&chars, span.key_to + 1, span.end - 1);
                            out.push_str(d.as_str());
                        } else {
                            return Err(MissingVariable { key });
                        }
                    },
                }
                proof {
                    let t = span.token(chars@, i as int);
                    assert(out@ == before + substitution(context.store(), t));
                    assert(rest == substitution(context.store(), t) + resolve_from(
                        context.store(),
                        chars@,
                        t.end,
                    ));
                    assert(out@ + resolve_from(context.store(), chars@, t.end) == before + rest);
                }
                i = span.end;
            },
            None => {
                let ghost before = out@;
                out.push(chars[i]);
                proof {
                    assert(rest == seq![chars@[i as int]] + resolve_from(
                        context.store(),
                        chars@,
                        i + 1,
                    ));
                    assert(out@ + resolve_from(context.store(), chars@, i + 1) == before + rest);
                }
                i += 1;
            },
        }
    }
    assert(out@ + Seq::<char>::empty() == out@);
    Ok(out)
}

proof fn lemma_token_free_text(store: Map<Seq<char>, JsonView>, s: Seq<char>, i: int)
    requires
        0 <= i <= s.len(),
        token_free_from(s, i),
    ensures
        resolve_from(store, s, i) == s.subrange(i, s.len() as int),
    decreases s.len() - i,
{
    if i < s.len() {
        lemma_token_free_text(store, s, i + 1);
        assert(seq![s[i]] + s.subrange(i + 1, s.len() as int) == s.subrange(i, s.len() as int));
    } else {
        assert(s.subrange(i, s.len() as int) == Seq::<char>::empty());
    }
}

/// Text without tokens resolves to itself, whatever the store holds.
pub proof fn lemma_resolve_token_free(store: Map<Seq<char>, JsonView>, s: Seq<char>)
    requires
        token_free(s),
    ensures
        resolve(store, s) == s,
{
    lemma_token_free_text(store, s, 0);
    assert(s.subrange(0, s.len() as int) == s);
}

/// Resolving is idempotent wherever the first pass leaves no token: a second
/// pass over the result, against the same store, changes nothing.
pub proof fn lemma_resolve_idempotent(store: Map<Seq<char>, JsonView>, s: Seq<char>)
    requires
        token_free(resolve(store, s)),
    ensures
        resolve(store, resolve(store, s)) == resolve(store, s),
{
    lemma_resolve_token_free(store, resolve(store, s));
}

} // verus!
