//! Conditions that gate a node.

use vstd::prelude::*;
use crate::context::Context;
use crate::json::JsonView;
use crate::text::chars_of;
use crate::variables::{first_missing, resolve, try_parse_variables};

verus! {

/// What must hold of the context for a node to run.
#[derive(Clone, Debug, Default)]
pub struct Conditions {
    /// A key that must be there.
    pub exist: Option<String>,
    /// An expression, with variables, that must be true.
    pub condition: Option<String>,
    /// A key that must not be there.
    pub not_exist: Option<String>,
}

/// Whether a node may run, and why not.
#[derive(Clone, Debug, Default)]
pub struct ConditionResult {
    pub pass: bool,
    pub reason: Option<String>,
}

/// The mathematical value of a [`ConditionResult`].
pub struct Verdict {
    pub pass: bool,
    pub reason: Option<Seq<char>>,
}

impl View for ConditionResult {
    type V = Verdict;

    open spec fn view(&self) -> Verdict {
        Verdict {
            pass: self.pass,
            reason: match self.reason {
                Some(t) => Some(t@),
                None => None,
            },
        }
    }
}

/// Where a reader of an expression stands: in the expression itself, behind a
/// `/` that may open a comment, in a string literal, behind a `\` in one, in a
/// comment that ends with its line, in a comment between `/*` and `*/`, or
/// behind a `*` in one.
#[derive(Clone, Copy, Debug, PartialEq, Eq, Structural)]
pub enum Lex {
    Code,
    Slash,
    Text,
    Escape,
    Line,
    Block,
    BlockStar,
}

/// Where the reader stands after a character that it read as part of the
/// expression itself.
pub open spec fn code_step(c: char) -> Lex {
    if c == '"' {
        Lex::Text
    } else if c == '/' {
        Lex::Slash
    } else {
        Lex::Code
    }
}

/// Where the reader stands after the character `c`.
pub open spec fn lex_step(mode: Lex, c: char) -> Lex {
    match mode {
        Lex::Code => code_step(c),
        Lex::Slash => if c == '/' {
            Lex::Line
        } else if c == '*' {
            Lex::Block
        } else {
            code_step(c)
        },
        Lex::Text => if c == '"' {
            Lex::Code
        } else if c == '\\' {
            Lex::Escape
        } else {
            Lex::Text
        },
        Lex::Escape => Lex::Text,
        Lex::Line => if c == '\n' {
            Lex::Code
        } else {
            Lex::Line
        },
        Lex::Block => if c == '*' {
            Lex::BlockStar
        } else {
            Lex::Block
        },
        Lex::BlockStar => if c == '/' {
            Lex::Code
        } else if c == '*' {
            Lex::BlockStar
        } else {
            Lex::Block
        },
    }
}

/// Whether the next character is read outside string literals and comments.
pub open spec fn in_code(mode: Lex) -> bool {
    mode == Lex::Code || mode == Lex::Slash
}

/// Where the reader stands after the first `n` characters of `s`.
pub open spec fn lex_after(s: Seq<char>, n: nat) -> Lex
    decreases n,
{
    if n == 0 || n > s.len() {
        Lex::Code
    } else {
        lex_step(lex_after(s, (n - 1) as nat), s[n - 1])
    }
}

/// Whether a `^` stands among the first `n` characters of `s`, outside string
/// literals and comments.
pub open spec fn power_within(s: Seq<char>, n: nat) -> bool
    decreases n,
{
    if n == 0 || n > s.len() {
        false
    } else {
        power_within(s, (n - 1) as nat) || (s[n - 1] == '^' && in_code(
            lex_after(s, (n - 1) as nat),
        ))
    }
}

/// How many of the first `n` characters of `s` stand outside string literals
/// and comments.
pub open spec fn weight_within(s: Seq<char>, n: nat) -> nat
    decreases n,
{
    if n == 0 || n > s.len() {
        0
    } else {
        weight_within(s, (n - 1) as nat) + if in_code(lex_after(s, (n - 1) as nat)) {
            1nat
        } else {
            0nat
        }
    }
}

/// Whether the expression raises a number to a power: a `^` stands in it
/// outside string literals and comments.
pub open spec fn uses_power(s: Seq<char>) -> bool {
    power_within(s, s.len())
}

/// The weight of an expression: the number of its characters outside string
/// literals and comments. Every operator, bracket and name of an expression is
/// one of them, so the weight bounds how deep the expression nests.
pub open spec fn weight(s: Seq<char>) -> nat {
    weight_within(s, s.len())
}

/// The greatest weight of an expression that is handed to the evaluator. The
/// evaluator descends one level for each level of an expression, and a stack
/// of two mebibytes, which a thread has where nothing else is asked for, holds
/// between 1200 and 1400 of its levels: the bound leaves more than half of
/// that free.
pub const MAX_EXPRESSION_WEIGHT: usize = 512;

/// Whether an expression is handed to the evaluator.
pub open spec fn evaluable(s: Seq<char>) -> bool {
    !uses_power(s) && weight(s) <= MAX_EXPRESSION_WEIGHT
}

/// What `evalexpr::eval_boolean_with_context_mut` makes of an expression in a
/// new context whose built-in functions are switched off: its truth value, or
/// the text of the error where the expression is ill-formed or no truth value.
pub uninterp spec fn evaluated(expression: Seq<char>) -> Result<bool, Seq<char>>;

/// The views of what an evaluation gave.
pub open spec fn evaluation_view(r: Result<bool, String>) -> Result<bool, Seq<char>> {
    match r {
        Ok(b) => Ok(b),
        Err(e) => Err(e@),
    }
}

/// Calls `evalexpr::eval_boolean_with_context_mut` with a new `HashMapContext`
/// whose built-in functions are switched off, so that the expression is made of
/// literals, operators, brackets and its own variables only. It gives the truth
/// value, or an error whose text is kept. It is called on expressions without
/// `^`, whose operators are exact, and of a bounded weight, so that either
/// depends on the text alone.
#[verifier::external_body]
fn eval_boolean(expression: &str) -> (r: Result<bool, String>)
    requires
        evaluable(expression@),
    ensures
        evaluation_view(r) == evaluated(expression@),
{
    let mut context = evalexpr::HashMapContext::<evalexpr::DefaultNumericTypes>::new();
    let _ = evalexpr::Context::set_builtin_functions_disabled(&mut context, true);
    match evalexpr::eval_boolean_with_context_mut(expression, &mut context) {
        Ok(b) => Ok(b),
        Err(e) => Err(e.to_string()),
    }
}

/// Where the reader stands after the character `c`.
pub fn advance(mode: Lex, c: char) -> (r: Lex)
    ensures
        r == lex_step(mode, c),
{
    match mode {
        Lex::Code | Lex::Slash => {
            if mode == Lex::Slash && c == '/' {
                Lex::Line
            } else if mode == Lex::Slash && c == '*' {
                Lex::Block
            } else if c == '"' {
                Lex::Text
            } else if c == '/' {
                Lex::Slash
            } else {
                Lex::Code
            }
        },
        Lex::Text => {
            if c == '"' {
                Lex::Code
            } else if c == '\\' {
                Lex::Escape
            } else {
                Lex::Text
            }
        },
        Lex::Escape => Lex::Text,
        Lex::Line => {
            if c == '\n' {
                Lex::Code
            } else {
                Lex::Line
            }
        },
        Lex::Block => {
            if c == '*' {
                Lex::BlockStar
            } else {
                Lex::Block
            }
        },
        Lex::BlockStar => {
            if c == '/' {
                Lex::Code
            } else if c == '*' {
                Lex::BlockStar
            } else {
                Lex::Block
            }
        },
    }
}

/// Reads an expression once: whether it raises a number to a power, and its
/// weight.
pub fn examine(expression: &str) -> (r: (bool, usize))
    ensures
        r.0 == uses_power(expression@),
        r.1 == weight(expression@),
{
    let chars = chars_of(expression);
    let mut mode = Lex::Code;
    let mut power = false;
    let mut count: usize = 0;
    let mut i: usize = 0;
    while i < chars.len()
        invariant
            chars@ == expression@,
            i <= chars@.len(),
            mode == lex_after(chars@, i as nat),
            power == power_within(chars@, i as nat),
            count == weight_within(chars@, i as nat),
            count <= i,
        decreases chars@.len() - i,
    {
        if mode == Lex::Code || mode == Lex::Slash {
            count += 1;
            if chars[i] == '^' {
                power = true;
            }
        }
        mode = advance(mode, chars[i]);
        i += 1;
    }
    (power, count)
}

/// A key that is set and not empty.
pub open spec fn named(key: Option<String>) -> Option<Seq<char>> {
    match key {
        Some(k) => if k@.len() > 0 {
            Some(k@)
        } else {
            None
        },
        None => None,
    }
}

/// What the evaluation of a resolved condition says of a node: an error where
/// the expression could not be evaluated, a skip where it is false.
pub open spec fn judged(resolved: Seq<char>, evaluation: Result<bool, Seq<char>>) -> Result<
    Verdict,
    Seq<char>,
> {
    match evaluation {
        Err(e) => Err(e + " is not boolean"@),
        Ok(true) => Ok(Verdict { pass: true, reason: None }),
        Ok(false) => Ok(Verdict { pass: false, reason: Some(resolved) }),
    }
}

/// What the `condition` says of a node: a skip where it names a variable that
/// is not there; an error where it, once resolved, raises to a power or weighs
/// too much to be evaluated, and only there; else what its evaluation says.
pub open spec fn condition_verdict(store: Map<Seq<char>, JsonView>, condition: Seq<char>) -> Result<
    Verdict,
    Seq<char>,
> {
    match first_missing(store, condition) {
        Some(key) => Ok(
            Verdict { pass: false, reason: Some("variable '"@ + key + "' is not set"@) },
        ),
        None => if uses_power(resolve(store, condition)) {
            Err("condition uses the operator ^, which is not supported"@)
        } else if weight(resolve(store, condition)) > MAX_EXPRESSION_WEIGHT {
            Err("condition is nested too deep to evaluate"@)
        } else {
            judged(resolve(store, condition), evaluated(resolve(store, condition)))
        },
    }
}

/// What the conditions say of a node against a store: `exist` first, then
/// `not_exist`, then `condition`; a node without conditions may run.
pub open spec fn verdict(c: Conditions, store: Map<Seq<char>, JsonView>) -> Result<
    Verdict,
    Seq<char>,
> {
    if named(c.exist) is Some && !store.contains_key(named(c.exist)->0) {
        Ok(Verdict { pass: false, reason: Some(named(c.exist)->0 + " does not exist"@) })
    } else if named(c.not_exist) is Some && store.contains_key(named(c.not_exist)->0) {
        Ok(Verdict { pass: false, reason: Some(named(c.not_exist)->0 + " exists"@) })
    } else if named(c.condition) is Some {
        condition_verdict(store, named(c.condition)->0)
    } else {
        Ok(Verdict { pass: true, reason: None })
    }
}

/// The views of what a check gave.
pub open spec fn check_view(r: Result<ConditionResult, String>) -> Result<Verdict, Seq<char>> {
    match r {
        Ok(v) => Ok(v@),
        Err(e) => Err(e@),
    }
}

/// Judges a resolved condition by what its evaluation gave.
pub fn judge(resolved: String, evaluation: Result<bool, String>) -> (r: Result<
    ConditionResult,
    String,
>)
    ensures
        check_view(r) == judged(resolved@, evaluation_view(evaluation)),
{
    match evaluation {
        Err(e) => {
            let mut message = e;
            message.push_str(" is not boolean");
            Err(message)
        },
        Ok(true) => Ok(ConditionResult { pass: true, reason: None }),
        Ok(false) => Ok(ConditionResult { pass: false, reason: Some(resolved) }),
    }
}

/// A copy of a text that may be absent.
pub fn copy_text(t: &Option<String>) -> (r: Option<String>)
    ensures
        r == *t,
{
    match t {
        Some(s) => Some(s.clone()),
        None => None,
    }
}

impl Conditions {
    /// A copy of the conditions.
    pub fn duplicate(&self) -> (r: Conditions)
        ensures
            r == *self,
    {
        Conditions {
            exist: copy_text(&self.exist),
            condition: copy_text(&self.condition),
            not_exist: copy_text(&self.not_exist),
        }
    }

    /// Conditions that ask for nothing.
    pub fn none() -> (r: Conditions)
        ensures
            r.exist is None,
            r.condition is None,
            r.not_exist is None,
    {
        Conditions { exist: None, condition: None, not_exist: None }
    }

    /// Checks the conditions against the context.
    pub fn check(&self, ctx: &Context) -> (r: Result<ConditionResult, String>)
        ensures
            check_view(r) == verdict(*self, ctx.store()),
    {
        if let Some(key) = &self.exist {
            if key.as_str().unicode_len() > 0 && !ctx.contains_key(key.as_str()) {
                let mut reason = key.clone();
                reason.push_str(" does not exist");
                return Ok(ConditionResult { pass: false, reason: Some(reason) });
            }
        }
        if let Some(key) = &self.not_exist {
            if key.as_str().unicode_len() > 0 && ctx.contains_key(key.as_str()) {
                let mut reason = key.clone();
                reason.push_str(" exists");
                return Ok(ConditionResult { pass: false, reason: Some(reason) });
            }
        }
        if let Some(condition) = &self.condition {
            if condition.as_str().unicode_len() > 0 {
                return match try_parse_variables(ctx, condition.as_str()) {
                    Err(missing) => Ok(
                        ConditionResult { pass: false, reason: Some(missing.message()) },
                    ),
                    Ok(resolved) => {
                        let (power, weight) = examine(resolved.as_str());
                        if power {
                            Err("condition uses the operator ^, which is not supported".to_owned())
                        } else if weight > MAX_EXPRESSION_WEIGHT {
                            Err("condition is nested too deep to evaluate".to_owned())
                        } else {
                            let evaluation = eval_boolean(resolved.as_str());
                            judge(resolved, evaluation)
                        }
                    },
                };
            }
        }
        Ok(ConditionResult { pass: true, reason: None })
    }
}

} // verus!
