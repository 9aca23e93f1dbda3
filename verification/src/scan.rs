//! The functional model of the scanner.
//!
//! [`spec_step`] says what one call of the tokenizer produces on a given
//! remaining input: nothing at end of input, otherwise one token or one
//! error together with the input left over. The executable scanner is
//! proved to follow this model exactly.

use vstd::prelude::*;

use crate::classify::is_alphabetic_char;
use crate::classify::is_alphanumeric_char;
use crate::classify::is_ascii_digit_char;
use crate::classify::is_numeric_char;
use crate::classify::is_whitespace_char;
use crate::token::LexError;
use crate::token::TokenView;

verus! {

/// The input with its maximal leading run of whitespace removed.
pub open spec fn skip_ws(s: Seq<char>) -> Seq<char>
    decreases s.len(),
{
    if s.len() > 0 && is_whitespace_char(s[0]) {
        skip_ws(s.skip(1))
    } else {
        s
    }
}

/// A character that may stand in an identifier: alphanumeric, underscore
/// or dot.
pub open spec fn is_id_char(c: char) -> bool {
    is_alphanumeric_char(c) || c == '_' || c == '.'
}

/// The maximal leading run of identifier characters.
pub open spec fn id_run(s: Seq<char>) -> Seq<char>
    decreases s.len(),
{
    if s.len() > 0 && is_id_char(s[0]) {
        seq![s[0]] + id_run(s.skip(1))
    } else {
        Seq::empty()
    }
}

/// The maximal leading run of numeric characters.
pub open spec fn digit_run(s: Seq<char>) -> Seq<char>
    decreases s.len(),
{
    if s.len() > 0 && is_numeric_char(s[0]) {
        seq![s[0]] + digit_run(s.skip(1))
    } else {
        Seq::empty()
    }
}

/// The token a single punctuation or operator character stands for, if
/// any.
pub open spec fn punct_token(c: char) -> Option<TokenView> {
    if c == '{' {
        Some(TokenView::LeftBracket)
    } else if c == '}' {
        Some(TokenView::RightBracket)
    } else if c == ',' {
        Some(TokenView::Comma)
    } else if c == ':' {
        Some(TokenView::Colon)
    } else if c == ';' {
        Some(TokenView::SemiColon)
    } else if c == '(' {
        Some(TokenView::LeftParenthesis)
    } else if c == ')' {
        Some(TokenView::RightParenthesis)
    } else if c == '[' {
        Some(TokenView::LeftArray)
    } else if c == ']' {
        Some(TokenView::RightArray)
    } else if c == '+' {
        Some(TokenView::Plus)
    } else if c == '-' {
        Some(TokenView::Minus)
    } else if c == '*' {
        Some(TokenView::Multiply)
    } else if c == '/' {
        Some(TokenView::Divide)
    } else if c == '^' {
        Some(TokenView::Power)
    } else if c == '=' {
        Some(TokenView::Equal)
    } else if c == '$' {
        Some(TokenView::Dollar)
    } else {
        None
    }
}

/// The keyword a collected identifier run spells, if any. The reserved
/// words form a closed, case-sensitive set.
pub open spec fn keyword_token(w: Seq<char>) -> Option<TokenView> {
    if w == "rand"@ {
        Some(TokenView::Rand)
    } else if w == "min"@ {
        Some(TokenView::Min)
    } else if w == "max"@ {
        Some(TokenView::Max)
    } else if w == "sin"@ {
        Some(TokenView::Sin)
    } else if w == "cos"@ {
        Some(TokenView::Cos)
    } else {
        None
    }
}

/// The token a collected identifier run yields: its keyword if it spells
/// one, otherwise the identifier verbatim.
pub open spec fn word_token(w: Seq<char>) -> TokenView {
    match keyword_token(w) {
        Some(t) => t,
        None => TokenView::Ident(w),
    }
}

/// What an escape introducer makes of the character after it: `n` and `t`
/// become newline and tab; every other character, quote and backslash
/// included, stands for itself.
pub open spec fn escape_char_spec(c: char) -> char {
    if c == 'n' {
        '\n'
    } else if c == 't' {
        '\t'
    } else {
        c
    }
}

/// Scan a quoted string body, the opening quote already consumed: the
/// value accumulated up to the closing quote with escapes translated, and
/// the number of characters consumed, closing quote included. `None` when
/// the input ends before the closing quote, or ends just after an escape
/// introducer.
pub open spec fn scan_string(s: Seq<char>) -> Option<(Seq<char>, nat)>
    decreases s.len(),
{
    if s.len() == 0 {
        None
    } else if s[0] == '"' {
        Some((Seq::empty(), 1nat))
    } else if s[0] == '\\' {
        if s.len() == 1 {
            None
        } else {
            match scan_string(s.skip(2)) {
                Some((v, n)) => Some((seq![escape_char_spec(s[1])] + v, (n + 2) as nat)),
                None => None,
            }
        }
    } else {
        match scan_string(s.skip(1)) {
            Some((v, n)) => Some((seq![s[0]] + v, (n + 1) as nat)),
            None => None,
        }
    }
}

/// The numeric value of one ASCII decimal digit.
pub open spec fn digit_val(c: char) -> int {
    (c as u32) - ('0' as u32)
}

/// Whether every character of the run is an ASCII decimal digit.
pub open spec fn all_ascii_digits(s: Seq<char>) -> bool {
    forall|i: int| 0 <= i < s.len() ==> is_ascii_digit_char(s[i])
}

/// The base-10 value of a digit run, most significant digit first.
pub open spec fn digits_value(s: Seq<char>) -> int
    decreases s.len(),
{
    if s.len() == 0 {
        0
    } else {
        digits_value(s.drop_last()) * 10 + digit_val(s.last())
    }
}

/// What a collected numeric run yields: the number it denotes when it is
/// made of ASCII decimal digits and its value is in range, and the
/// invalid-number error otherwise.
pub open spec fn number_result(run: Seq<char>) -> Result<TokenView, LexError> {
    if all_ascii_digits(run) && digits_value(run) <= i64::MAX as int {
        Ok(TokenView::Float(digits_value(run)))
    } else {
        Err(LexError::InvalidNumber)
    }
}

/// One step of the scanner on the remaining input `s`: `None` when only
/// whitespace is left, otherwise the item produced and the input left
/// over. Dispatch order is that of the scanner: single-character symbols,
/// then identifier, quoted string and number runs, and an unrecognized
/// character as the last resort.
pub open spec fn spec_step(s: Seq<char>) -> Option<(Result<TokenView, LexError>, Seq<char>)> {
    let t = skip_ws(s);
    if t.len() == 0 {
        None
    } else {
        let c = t[0];
        match punct_token(c) {
            Some(g) => Some((Ok(g), t.skip(1))),
            None => {
                if is_alphabetic_char(c) {
                    Some((Ok(word_token(id_run(t))), t.skip(id_run(t).len() as int)))
                } else if c == '"' {
                    match scan_string(t.skip(1)) {
                        Some((v, n)) => Some(
                            (Ok(TokenView::QuotedString(v)), t.skip(1 + n as int)),
                        ),
                        None => Some((Err(LexError::UnterminatedString), Seq::empty())),
                    }
                } else if is_numeric_char(c) {
                    Some((number_result(digit_run(t)), t.skip(digit_run(t).len() as int)))
                } else {
                    Some((Err(LexError::UnrecognizedCharacter(c)), t.skip(1)))
                }
            },
        }
    }
}

/// Skipping leading whitespace twice is the same as skipping it once.
pub proof fn lemma_skip_ws_idempotent(s: Seq<char>)
    ensures
        skip_ws(skip_ws(s)) == skip_ws(s),
    decreases s.len(),
{
    if s.len() > 0 && is_whitespace_char(s[0]) {
        lemma_skip_ws_idempotent(s.skip(1));
    }
}

/// An input of whitespace alone is skipped entirely.
pub proof fn lemma_skip_ws_all(s: Seq<char>)
    requires
        forall|i: int| 0 <= i < s.len() ==> is_whitespace_char(s[i]),
    ensures
        skip_ws(s).len() == 0,
    decreases s.len(),
{
    if s.len() > 0 {
        assert(forall|i: int| 0 <= i < s.skip(1).len() ==> is_whitespace_char(s.skip(1)[i]));
        lemma_skip_ws_all(s.skip(1));
    }
}

/// An input made of identifier characters alone is one identifier run.
pub proof fn lemma_id_run_all(s: Seq<char>)
    requires
        forall|i: int| 0 <= i < s.len() ==> is_id_char(s[i]),
    ensures
        id_run(s) == s,
    decreases s.len(),
{
    if s.len() > 0 {
        assert(forall|i: int| 0 <= i < s.skip(1).len() ==> is_id_char(s.skip(1)[i]));
        lemma_id_run_all(s.skip(1));
        assert(seq![s[0]] + s.skip(1) =~= s);
    }
}

/// An input made of numeric characters alone is one digit run.
pub proof fn lemma_digit_run_all(s: Seq<char>)
    requires
        forall|i: int| 0 <= i < s.len() ==> is_numeric_char(s[i]),
    ensures
        digit_run(s) == s,
    decreases s.len(),
{
    if s.len() > 0 {
        assert(forall|i: int| 0 <= i < s.skip(1).len() ==> is_numeric_char(s.skip(1)[i]));
        lemma_digit_run_all(s.skip(1));
        assert(seq![s[0]] + s.skip(1) =~= s);
    }
}

/// A string body in which no quote occurs never scans successfully: with
/// no closing quote the scan runs off the end of the input.
pub proof fn lemma_scan_string_no_quote(s: Seq<char>)
    requires
        forall|i: int| 0 <= i < s.len() ==> s[i] != '"',
    ensures
        scan_string(s) is None,
    decreases s.len(),
{
    if s.len() == 0 {
    } else if s[0] == '\\' {
        if s.len() > 1 {
            assert(forall|i: int| 0 <= i < s.skip(2).len() ==> s.skip(2)[i] != '"');
            lemma_scan_string_no_quote(s.skip(2));
        }
    } else {
        assert(forall|i: int| 0 <= i < s.skip(1).len() ==> s.skip(1)[i] != '"');
        lemma_scan_string_no_quote(s.skip(1));
    }
}

/// A successful string scan consumes no more characters than the input
/// holds.
pub proof fn lemma_scan_string_len(s: Seq<char>)
    ensures
        scan_string(s) matches Some(st) ==> st.1 <= s.len(),
    decreases s.len(),
{
    if s.len() == 0 {
    } else if s[0] == '"' {
    } else if s[0] == '\\' {
        if s.len() > 1 {
            lemma_scan_string_len(s.skip(2));
        }
    } else {
        lemma_scan_string_len(s.skip(1));
    }
}

/// The value of an ASCII digit run is non-negative.
pub proof fn lemma_digits_value_nonneg(s: Seq<char>)
    requires
        all_ascii_digits(s),
    ensures
        digits_value(s) >= 0,
    decreases s.len(),
{
    if s.len() > 0 {
        assert(all_ascii_digits(s.drop_last()));
        lemma_digits_value_nonneg(s.drop_last());
    }
}

/// Extending an ASCII digit run never decreases its value: the value of a
/// prefix bounds the value of the whole run.
pub proof fn lemma_digits_value_mono(s: Seq<char>, i: int)
    requires
        all_ascii_digits(s),
        0 <= i <= s.len(),
    ensures
        digits_value(s.take(i)) <= digits_value(s),
    decreases s.len(),
{
    if i == s.len() {
        assert(s.take(i) =~= s);
    } else {
        assert(all_ascii_digits(s.drop_last()));
        assert(s.take(i) =~= s.drop_last().take(i));
        lemma_digits_value_mono(s.drop_last(), i);
        lemma_digits_value_nonneg(s.drop_last());
    }
}

} // verus!
