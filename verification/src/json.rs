//! JSON values and texts, as `serde_json` has them.

use serde_json::Error as JsonError;
use vstd::prelude::*;

verus! {

/// A JSON value of `serde_json`, carried through as it is.
#[verifier::external_type_specification]
#[verifier::external_body]
pub struct ExValue(serde_json::Value);

/// What `serde_json` reports of a text or a value that it cannot read.
#[verifier::external_type_specification]
#[verifier::external_body]
pub struct ExJsonError(JsonError);

/// `<serde_json::Value as Clone>::clone` hands back an equal value.
pub assume_specification[ <serde_json::Value as Clone>::clone ](value: &serde_json::Value) -> (copy:
    serde_json::Value)
    ensures
        copy == *value,
;

/// The compact JSON text that `serde_json` writes for what a value holds.
pub uninterp spec fn value_text(value: serde_json::Value) -> Seq<char>;

/// The hexadecimal digit for `n`, in lower case.
pub open spec fn lower_hex_digit(n: int) -> char {
    if n < 10 {
        ('0' as int + n) as char
    } else {
        ('a' as int + n - 10) as char
    }
}

/// How a character stands in a JSON string.
pub open spec fn escaped(c: char) -> Seq<char> {
    if c == '"' || c == '\\' {
        seq!['\\', c]
    } else if c == '\u{8}' {
        seq!['\\', 'b']
    } else if c == '\t' {
        seq!['\\', 't']
    } else if c == '\n' {
        seq!['\\', 'n']
    } else if c == '\u{c}' {
        seq!['\\', 'f']
    } else if c == '\r' {
        seq!['\\', 'r']
    } else if c <= '\u{1f}' {
        seq![
            '\\',
            'u',
            '0',
            '0',
            lower_hex_digit(c as int / 16),
            lower_hex_digit(c as int % 16),
        ]
    } else {
        seq![c]
    }
}

/// How a text stands in a JSON string: its characters one after the other.
pub open spec fn escaped_text(text: Seq<char>) -> Seq<char>
    decreases text.len(),
{
    if text.len() == 0 {
        Seq::empty()
    } else {
        escaped(text.first()) + escaped_text(text.drop_first())
    }
}

/// The JSON string literal for a text, quotes included.
pub open spec fn string_literal(text: Seq<char>) -> Seq<char> {
    seq!['"'] + escaped_text(text) + seq!['"']
}

/// `serde_json::to_string` on a value: its compact JSON text, named
/// [`value_text`]. Every object key of a value is a string, so it cannot fail.
#[verifier::external_body]
pub(crate) fn write_value(value: &serde_json::Value) -> (text: String)
    ensures
        text@ == value_text(*value),
{
    serde_json::to_string(value).unwrap()
}

/// `serde_json::to_string` on a text: the JSON string literal for it. Quotes,
/// backslashes and control characters are escaped, all else stands as it is.
/// Writing a text into memory cannot fail.
#[verifier::external_body]
pub(crate) fn write_string(text: &str) -> (literal: String)
    ensures
        literal@ == string_literal(text@),
{
    serde_json::to_string(text).unwrap()
}

/// Characters that stand in a JSON string in the same way, whatever follows
/// them, are the same, and so is what follows them.
proof fn lemma_escapes_part(a: char, b: char, after_a: Seq<char>, after_b: Seq<char>)
    requires
        escaped(a) + after_a == escaped(b) + after_b,
    ensures
        a == b,
        after_a == after_b,
{
    let left = escaped(a) + after_a;
    let right = escaped(b) + after_b;
    assert(left[0] == escaped(a)[0] && right[0] == escaped(b)[0]);
    if escaped(a).len() > 1 && escaped(b).len() > 1 {
        assert(left[1] == escaped(a)[1] && right[1] == escaped(b)[1]);
        if escaped(a).len() > 2 && escaped(b).len() > 2 {
            assert(left[4] == escaped(a)[4] && right[4] == escaped(b)[4]);
            assert(left[5] == escaped(a)[5] && right[5] == escaped(b)[5]);
        }
    }
    assert(a == b);
    assert(after_a == left.skip(escaped(a).len() as int));
    assert(after_b == right.skip(escaped(b).len() as int));
}

/// Different texts have different JSON string literals.
pub proof fn string_literal_is_injective(a: Seq<char>, b: Seq<char>)
    requires
        string_literal(a) == string_literal(b),
    ensures
        a == b,
{
    let left = string_literal(a);
    let right = string_literal(b);
    assert(escaped_text(a) == left.subrange(1, left.len() - 1));
    assert(escaped_text(b) == right.subrange(1, right.len() - 1));
    lemma_escaped_text_is_injective(a, b);
}

/// Different texts stand differently in a JSON string.
proof fn lemma_escaped_text_is_injective(a: Seq<char>, b: Seq<char>)
    requires
        escaped_text(a) == escaped_text(b),
    ensures
        a == b,
    decreases a.len(),
{
    if a.len() > 0 && b.len() > 0 {
        lemma_escapes_part(
            a.first(),
            b.first(),
            escaped_text(a.drop_first()),
            escaped_text(b.drop_first()),
        );
        lemma_escaped_text_is_injective(a.drop_first(), b.drop_first());
        assert(a == seq![a.first()] + a.drop_first());
        assert(b == seq![b.first()] + b.drop_first());
    } else if a.len() > 0 {
        assert(escaped_text(a).len() > 0);
    } else if b.len() > 0 {
        assert(escaped_text(b).len() > 0);
    }
}

} // verus!
