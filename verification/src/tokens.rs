//! Role-mention tokens: finding them in a message and reading the role they name.

use regex::Regex;
use vstd::prelude::*;
use crate::text::chars_of;

verus! {

/// The views of a list of strings, in order.
pub open spec fn views(items: Seq<String>) -> Seq<Seq<char>> {
    Seq::new(items.len(), |i: int| items[i]@)
}

/// Whether the `regex` crate accepts `pattern` as a regular expression.
pub uninterp spec fn regex_accepts(pattern: Seq<char>) -> bool;

/// The successive non-overlapping matches of `pattern` in `text`, as the `regex` crate
/// finds them from left to right.
pub uninterp spec fn regex_matches(pattern: Seq<char>, text: Seq<char>) -> Seq<Seq<char>>;

/// Compiles `pattern` with `regex::Regex::new` and collects the substrings that
/// `Regex::find_iter` yields on `text`. Compilation fails or succeeds by the pattern
/// alone, and the matches are a function of pattern and text; both are only named here.
#[verifier::external_body]
fn regex_find_all(pattern: &str, text: &str) -> (found: Option<Vec<String>>)
    ensures
        found is Some <==> regex_accepts(pattern@),
        found matches Some(items) ==> views(items@) == regex_matches(pattern@, text@),
{
    match Regex::new(pattern) {
        Ok(re) => Some(re.find_iter(text).map(|m| m.as_str().to_string()).collect()),
        Err(_) => None,
    }
}

/// The pattern of a raw role mention: the role marker, any run of digits, the closing
/// bracket.
pub open spec fn role_mention_pattern() -> Seq<char> {
    "<@&(\\d*?)>"@
}

/// Extracts the raw role-mention tokens of a message, in the order in which they occur,
/// repeats included. `None` only if the pattern itself is rejected.
pub fn role_mention_tokens(message_text: &str) -> (tokens: Option<Vec<String>>)
    ensures
        tokens is Some <==> regex_accepts(role_mention_pattern()),
        tokens matches Some(items) ==> views(items@) == regex_matches(
            role_mention_pattern(),
            message_text@,
        ),
{
    regex_find_all("<@&(\\d*?)>", message_text)
}

/// `c` is one of the ten ASCII digits.
pub open spec fn is_digit(c: char) -> bool {
    '0' <= c <= '9'
}

/// The value of a digit, zero for any other character.
pub open spec fn digit_value(c: char) -> nat {
    if is_digit(c) {
        (c as u32 - '0' as u32) as nat
    } else {
        0
    }
}

/// The number that a run of digits writes in base ten.
pub open spec fn decimal_value(digits: Seq<char>) -> nat
    decreases digits.len(),
{
    if digits.len() == 0 {
        0
    } else {
        decimal_value(digits.drop_last()) * 10 + digit_value(digits.last())
    }
}

/// Every character of the run is a digit.
pub open spec fn all_digits(digits: Seq<char>) -> bool {
    forall|i: int| 0 <= i < digits.len() ==> is_digit(#[trigger] digits[i])
}

/// `token` has the shape of a role mention: `<@&`, then anything, then `>`.
pub open spec fn is_framed(token: Seq<char>) -> bool {
    &&& token.len() >= 4
    &&& token[0] == '<'
    &&& token[1] == '@'
    &&& token[2] == '&'
    &&& token.last() == '>'
}

/// What stands between the marker and the closing bracket of a framed token.
pub open spec fn token_body(token: Seq<char>) -> Seq<char> {
    token.subrange(3, token.len() - 1)
}

/// The role that a raw token names: the token is framed, its body is a non-empty run
/// of digits, and their value fits an identifier. Any other token names no role.
pub open spec fn token_role_id(token: Seq<char>) -> Option<u64> {
    if is_framed(token) && token_body(token).len() > 0 && all_digits(token_body(token))
        && decimal_value(token_body(token)) <= u64::MAX {
        Some(decimal_value(token_body(token)) as u64)
    } else {
        None
    }
}

/// A run of digits is worth at least as much as any of its prefixes.
proof fn lemma_decimal_value_prefix(digits: Seq<char>, k: int)
    requires
        0 <= k <= digits.len(),
    ensures
        decimal_value(digits.take(k)) <= decimal_value(digits),
    decreases digits.len(),
{
    if k == digits.len() {
        assert(digits.take(k) =~= digits);
    } else {
        lemma_decimal_value_prefix(digits.drop_last(), k);
        assert(digits.drop_last().take(k) =~= digits.take(k));
    }
}

/// Reads the role identifier out of a raw role-mention token. A malformed token, or one
/// whose number does not fit an identifier, yields `None`.
pub fn parse_role_token(token: &str) -> (id: Option<u64>)
    ensures
        id == token_role_id(token@),
{
    let chars = chars_of(token);
    let n: usize = chars.len();
    if n < 5 {
        return None;
    }
    if chars[0] != '<' || chars[1] != '@' || chars[2] != '&' || chars[n - 1] != '>' {
        return None;
    }
    let ghost body = token_body(token@);
    let mut value: u64 = 0;
    let mut i: usize = 3;
    while i < n - 1
        invariant
            n == chars@.len(),
            chars@ == token@,
            n >= 5,
            3 <= i <= n - 1,
            body == token_body(token@),
            all_digits(body.take(i - 3)),
            value == decimal_value(body.take(i - 3)),
        decreases n - i,
    {
        let c: char = chars[i];
        assert(body[i - 3] == c);
        if c < '0' || c > '9' {
            return None;
        }
        let d: u64 = (c as u32 - '0' as u32) as u64;
        assert(body.take(i - 3 + 1).drop_last() =~= body.take(i - 3));
        assert(body.take(i - 3 + 1).last() == c);
        assert(decimal_value(body.take(i - 3 + 1)) == value * 10 + d);
        if value > (u64::MAX - d) / 10 {
            proof {
                lemma_decimal_value_prefix(body, i - 3 + 1);
            }
            return None;
        }
        value = value * 10 + d;
        i = i + 1;
    }
    assert(body.take(i - 3) =~= body);
    Some(value)
}

} // verus!
