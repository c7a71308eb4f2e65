use vstd::prelude::*;

use crate::rates::{substituted, Rates};

verus! {

#[verifier::external_type_specification]
#[verifier::external_body]
pub struct ExValue(evalexpr::Value);

/// Whether evalexpr, with no variables bound, evaluates `text` to a number.
pub uninterp spec fn evaluates_to_number(text: Seq<char>) -> bool;

/// Relies on `evalexpr::eval_number`: it evaluates the text in a fresh context and
/// succeeds exactly when the result is an integer or a float, which it returns as a
/// float. Without the crate's `rand` feature no builtin draws a random number, so
/// the outcome depends on the text alone. The error is kept as its `Debug` text.
/// Only plain arithmetic of bounded length is handed over: evalexpr's builtins
/// (`str::substring`, `shl`, `math::abs`) can panic, and its evaluation recurses
/// once per node of the expression tree.
#[verifier::external_body]
fn eval_number(text: &str) -> (r: Result<evalexpr::Value, String>)
    requires
        arithmetic(text@),
    ensures
        r is Ok <==> evaluates_to_number(text@),
{
    evalexpr::eval_number(text).map(evalexpr::Value::Float).map_err(|e| format!("{:?}", e))
}

/// Unicode's White_Space property, which `char::is_whitespace` follows.
pub open spec fn white_space(c: char) -> bool {
    ('\u{9}' <= c && c <= '\u{d}') || c == ' ' || c == '\u{85}' || c == '\u{a0}'
        || c == '\u{1680}' || ('\u{2000}' <= c && c <= '\u{200a}') || c == '\u{2028}'
        || c == '\u{2029}' || c == '\u{202f}' || c == '\u{205f}' || c == '\u{3000}'
}

/// A text with nothing but white space in it, the empty text included.
pub open spec fn blank(text: Seq<char>) -> bool {
    forall|i: int| 0 <= i < text.len() ==> white_space(#[trigger] text[i])
}

/// The longest expression that is evaluated, in characters.
pub const MAX_EXPRESSION_CHARS: usize = 256;

/// A character of plain arithmetic: a digit, a decimal point, white space, an
/// operator or a parenthesis.
pub open spec fn arithmetic_char(c: char) -> bool {
    ('0' <= c && c <= '9') || c == '.' || white_space(c) || c == '+' || c == '-' || c == '*'
        || c == '/' || c == '%' || c == '^' || c == '(' || c == ')'
}

/// Plain arithmetic, short enough to evaluate: no names, no strings, no function
/// calls, and at most `MAX_EXPRESSION_CHARS` characters, which also bounds how
/// deeply it nests.
pub open spec fn arithmetic(text: Seq<char>) -> bool {
    text.len() <= MAX_EXPRESSION_CHARS && forall|i: int|
        0 <= i < text.len() ==> arithmetic_char(#[trigger] text[i])
}

/// Whether an expression is accepted: a blank one stands for zero, any other must
/// be plain arithmetic that evaluates to a number.
pub open spec fn accepted(text: Seq<char>) -> bool {
    blank(text) || (arithmetic(text) && evaluates_to_number(text))
}

/// The value of an accepted expression.
pub enum Number {
    /// A blank expression: a cleared field means zero.
    Zero,
    /// The number that evalexpr computed, as a float value.
    Computed(evalexpr::Value),
}

/// An expression that does not evaluate to a number, with evalexpr's description
/// of what went wrong.
#[derive(Debug)]
pub struct EvalError {
    pub description: String,
}

pub fn is_white_space(c: char) -> (r: bool)
    ensures
        r == white_space(c),
{
    ('\u{9}' <= c && c <= '\u{d}') || c == ' ' || c == '\u{85}' || c == '\u{a0}'
        || c == '\u{1680}' || ('\u{2000}' <= c && c <= '\u{200a}') || c == '\u{2028}'
        || c == '\u{2029}' || c == '\u{202f}' || c == '\u{205f}' || c == '\u{3000}'
}

pub fn is_arithmetic_char(c: char) -> (r: bool)
    ensures
        r == arithmetic_char(c),
{
    ('0' <= c && c <= '9') || c == '.' || is_white_space(c) || c == '+' || c == '-' || c == '*'
        || c == '/' || c == '%' || c == '^' || c == '(' || c == ')'
}

/// Whether `text` is plain arithmetic of at most `MAX_EXPRESSION_CHARS` characters.
pub fn is_arithmetic(text: &str) -> (r: bool)
    ensures
        r == arithmetic(text@),
{
    let n: usize = text.unicode_len();
    if n > MAX_EXPRESSION_CHARS {
        return false;
    }
    let mut i: usize = 0;
    while i < n
        invariant
            n == text@.len(),
            n <= MAX_EXPRESSION_CHARS,
            i <= n,
            forall|k: int| 0 <= k < i ==> arithmetic_char(#[trigger] text@[k]),
        decreases n - i,
    {
        if !is_arithmetic_char(text.get_char(i)) {
            return false;
        }
        i += 1;
    }
    true
}

/// Whether `text` holds nothing but white space.
pub fn is_blank(text: &str) -> (r: bool)
    ensures
        r == blank(text@),
{
    let n: usize = text.unicode_len();
    let mut i: usize = 0;
    while i < n
        invariant
            n == text@.len(),
            i <= n,
            forall|k: int| 0 <= k < i ==> white_space(#[trigger] text@[k]),
        decreases n - i,
    {
        if !is_white_space(text.get_char(i)) {
            return false;
        }
        i += 1;
    }
    true
}

/// Evaluates an arithmetic expression. A blank one is zero; any other must be plain
/// arithmetic, which is handed to evalexpr, and anything but a number is an error.
pub fn evaluate(text: &str) -> (r: Result<Number, EvalError>)
    ensures
        r is Ok <==> accepted(text@),
        blank(text@) ==> r matches Ok(Number::Zero),
        !blank(text@) && r is Ok ==> r matches Ok(Number::Computed(_)),
{
    if is_blank(text) {
        return Ok(Number::Zero);
    }
    if !is_arithmetic(text) {
        let description = String::from_str(
            "only numbers, + - * / % ^ and parentheses, in at most 256 characters",
        );
        return Err(EvalError { description });
    }
    match eval_number(text) {
        Ok(v) => Ok(Number::Computed(v)),
        Err(description) => Err(EvalError { description }),
    }
}

/// Evaluates `text` once every currency code of `rates` in it has been replaced by
/// its rate.
pub fn evaluate_with_rates(text: &str, rates: &Rates) -> (r: Result<Number, EvalError>)
    ensures
        r is Ok <==> accepted(substituted(rates.table(), text@)),
        blank(substituted(rates.table(), text@)) ==> r matches Ok(Number::Zero),
        !blank(substituted(rates.table(), text@)) && r is Ok ==> r matches Ok(Number::Computed(_)),
{
    let expr = rates.replace(text);
    evaluate(expr.as_str())
}

} // verus!
