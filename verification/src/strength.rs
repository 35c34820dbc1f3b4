//! The shared strength scorer. It inspects only the textual shape of a
//! finished secret — length and charset diversity — through five weighted
//! rules, independent of which strategy produced the secret. The raw score is
//! out of 30; the caller renders it as a percentage.
use vstd::prelude::*;

verus! {

/// An ASCII lowercase letter.
pub open spec fn is_lower(c: char) -> bool {
    'a' <= c && c <= 'z'
}

/// An ASCII uppercase letter.
pub open spec fn is_upper(c: char) -> bool {
    'A' <= c && c <= 'Z'
}

/// An ASCII decimal digit.
pub open spec fn is_digit_char(c: char) -> bool {
    '0' <= c && c <= '9'
}

/// One of the symbols the strength rules look for.
pub open spec fn is_strength_symbol(c: char) -> bool {
    c == '!' || c == '@' || c == '#' || c == '$' || c == '%' || c == '^' || c == '&' || c == '*'
        || c == '(' || c == ')' || c == '_' || c == '+' || c == '-' || c == '=' || c == '[' || c
        == ']' || c == '{' || c == '}' || c == ';' || c == ':' || c == '\'' || c == '\\' || c == '|'
        || c == ',' || c == '.' || c == '/' || c == '?' || c == '~'
}

pub open spec fn has_lower(s: Seq<char>) -> bool {
    exists|i: int| 0 <= i < s.len() && is_lower(s[i])
}

pub open spec fn has_upper(s: Seq<char>) -> bool {
    exists|i: int| 0 <= i < s.len() && is_upper(s[i])
}

pub open spec fn has_digit(s: Seq<char>) -> bool {
    exists|i: int| 0 <= i < s.len() && is_digit_char(s[i])
}

pub open spec fn has_symbol(s: Seq<char>) -> bool {
    exists|i: int| 0 <= i < s.len() && is_strength_symbol(s[i])
}

/// The score out of 30: each matched rule contributes its weight — 5 for
/// length at least 8, 5 each for containing a lowercase letter, an uppercase
/// letter and a digit, and 10 for containing a symbol. The rendered strength
/// percentage is this score divided by 30 times 100.
pub open spec fn strength_score_spec(s: Seq<char>) -> int {
    (if s.len() >= 8 {
        5int
    } else {
        0int
    }) + (if has_lower(s) {
        5int
    } else {
        0int
    }) + (if has_upper(s) {
        5int
    } else {
        0int
    }) + (if has_digit(s) {
        5int
    } else {
        0int
    }) + (if has_symbol(s) {
        10int
    } else {
        0int
    })
}

/// Executable check for [`is_strength_symbol`].
pub fn is_strength_symbol_exec(c: char) -> (r: bool)
    ensures
        r == is_strength_symbol(c),
{
    match c {
        '!' | '@' | '#' | '$' | '%' | '^' | '&' | '*' | '(' | ')' | '_' | '+' | '-' | '=' | '['
            | ']' | '{' | '}' | ';' | ':' | '\'' | '\\' | '|' | ',' | '.' | '/' | '?' | '~' => true,
        _ => false,
    }
}

/// Scores the textual shape of a finished secret: the sum of the weights of
/// the five rules the text matches, out of 30.
pub fn calculate_strength(password: &str) -> (score: u32)
    ensures
        score == strength_score_spec(password@),
        score <= 30,
{
    let n = password.unicode_len();
    let mut found_lower = false;
    let mut found_upper = false;
    let mut found_digit = false;
    let mut found_symbol = false;
    let mut i: usize = 0;
    while i < n
        invariant
            n == password@.len(),
            i <= n,
            found_lower == has_lower(password@.take(i as int)),
            found_upper == has_upper(password@.take(i as int)),
            found_digit == has_digit(password@.take(i as int)),
            found_symbol == has_symbol(password@.take(i as int)),
        decreases n - i,
    {
        let c = password.get_char(i);
        let u = c as u32;
        if 97 <= u && u <= 122 {
            found_lower = true;
        }
        if 65 <= u && u <= 90 {
            found_upper = true;
        }
        if 48 <= u && u <= 57 {
            found_digit = true;
        }
        if is_strength_symbol_exec(c) {
            found_symbol = true;
        }
        proof {
            assert(password@.take(i + 1).drop_last() =~= password@.take(i as int));
            assert(password@.take(i + 1).last() == password@[i as int]);
        }
        i = i + 1;
    }
    proof {
        assert(password@.take(n as int) =~= password@);
    }
    let mut score: u32 = 0;
    if n >= 8 {
        score = score + 5;
    }
    if found_lower {
        score = score + 5;
    }
    if found_upper {
        score = score + 5;
    }
    if found_digit {
        score = score + 5;
    }
    if found_symbol {
        score = score + 10;
    }
    score
}

/// The score is bounded: always between 0 and 30, so the rendered percentage
/// is always between 0 and 100.
pub proof fn lemma_strength_range(s: Seq<char>)
    ensures
        0 <= strength_score_spec(s) <= 30,
{
}

/// The score is monotone: a text that matches every rule another text matches
/// scores at least as much, so adding rule-matching properties to a base
/// string never decreases the strength.
pub proof fn lemma_strength_monotone(s: Seq<char>, t: Seq<char>)
    requires
        s.len() >= 8 ==> t.len() >= 8,
        has_lower(s) ==> has_lower(t),
        has_upper(s) ==> has_upper(t),
        has_digit(s) ==> has_digit(t),
        has_symbol(s) ==> has_symbol(t),
    ensures
        strength_score_spec(s) <= strength_score_spec(t),
{
}

} // verus!
