//! Laws of the scanner, proved of the functional model [`spec_step`] that
//! [`crate::Tokenizer::next`] is proved to follow.

use vstd::prelude::*;

use crate::classify::is_alphabetic_char;
use crate::classify::is_ascii_digit_char;
use crate::classify::is_numeric_char;
use crate::classify::is_whitespace_char;
use crate::scan::digits_value;
use crate::scan::id_run;
use crate::scan::is_id_char;
use crate::scan::keyword_token;
use crate::scan::lemma_digit_run_all;
use crate::scan::lemma_id_run_all;
use crate::scan::lemma_scan_string_no_quote;
use crate::scan::lemma_skip_ws_all;
use crate::scan::lemma_skip_ws_idempotent;
use crate::scan::punct_token;
use crate::scan::skip_ws;
use crate::scan::spec_step;
use crate::token::LexError;
use crate::token::TokenView;

verus! {

/// Law: a single punctuation or operator character tokenizes to exactly
/// its token, and the scan then ends.
pub proof fn lemma_single_punct_token(c: char)
    requires
        punct_token(c) is Some,
    ensures
        spec_step(seq![c]) matches Some(step) && step.0 == Ok::<TokenView, LexError>(
            punct_token(c)->0,
        ) && step.1.len() == 0,
        spec_step(Seq::<char>::empty()) is None,
{
    assert(!is_whitespace_char(c));
    assert(skip_ws(seq![c]) == seq![c]);
    assert(seq![c][0] == c);
}

/// Law: a maximal identifier run that spells a reserved word yields that
/// keyword token, never an identifier.
pub proof fn lemma_keyword_run(run: Seq<char>)
    requires
        run.len() > 0,
        is_alphabetic_char(run[0]),
        forall|i: int| 0 <= i < run.len() ==> is_id_char(run[i]),
        keyword_token(run) is Some,
    ensures
        spec_step(run) matches Some(step) && step.0 == Ok::<TokenView, LexError>(
            keyword_token(run)->0,
        ) && step.1.len() == 0,
{
    assert(!is_whitespace_char(run[0]));
    assert(skip_ws(run) == run);
    lemma_id_run_all(run);
}

/// Law: a maximal run of identifier characters that starts alphabetic and
/// spells no reserved word yields an identifier holding exactly that run,
/// and the scan then ends.
pub proof fn lemma_identifier_verbatim(run: Seq<char>)
    requires
        run.len() > 0,
        is_alphabetic_char(run[0]),
        forall|i: int| 0 <= i < run.len() ==> is_id_char(run[i]),
        keyword_token(run) is None,
    ensures
        spec_step(run) matches Some(step) && step.0 == Ok::<TokenView, LexError>(
            TokenView::Ident(run),
        ) && step.1.len() == 0,
{
    assert(!is_whitespace_char(run[0]));
    assert(skip_ws(run) == run);
    lemma_id_run_all(run);
}

/// Law: a run of ASCII decimal digits whose value is in range tokenizes
/// to the number it denotes, and the scan then ends.
pub proof fn lemma_number_run(run: Seq<char>)
    requires
        run.len() > 0,
        forall|i: int| 0 <= i < run.len() ==> is_ascii_digit_char(run[i]),
        digits_value(run) <= i64::MAX as int,
    ensures
        spec_step(run) matches Some(step) && step.0 == Ok::<TokenView, LexError>(
            TokenView::Float(digits_value(run)),
        ) && step.1.len() == 0,
{
    assert(!is_whitespace_char(run[0]));
    assert(skip_ws(run) == run);
    assert(forall|i: int| 0 <= i < run.len() ==> is_numeric_char(run[i]));
    lemma_digit_run_all(run);
}

/// Law: a quoted string that never closes yields the unterminated-string
/// error, and the rest of the input is consumed by it.
pub proof fn lemma_unterminated_string(body: Seq<char>)
    requires
        forall|i: int| 0 <= i < body.len() ==> body[i] != '"',
    ensures
        spec_step(seq!['"'] + body) matches Some(step) && step.0 == Err::<TokenView, LexError>(
            LexError::UnterminatedString,
        ) && step.1.len() == 0,
{
    let s = seq!['"'] + body;
    assert(s[0] == '"');
    assert(!is_whitespace_char('"'));
    assert(skip_ws(s) == s);
    assert(s.skip(1) =~= body);
    lemma_scan_string_no_quote(body);
}

/// Law: whitespace between tokens never appears as an item: the scan of
/// an input and of that input stripped of its leading whitespace agree.
pub proof fn lemma_whitespace_invisible(s: Seq<char>)
    ensures
        spec_step(s) == spec_step(skip_ws(s)),
{
    lemma_skip_ws_idempotent(s);
}

/// Law: an input of whitespace alone yields no item at all.
pub proof fn lemma_whitespace_only(s: Seq<char>)
    requires
        forall|i: int| 0 <= i < s.len() ==> is_whitespace_char(s[i]),
    ensures
        spec_step(s) is None,
{
    lemma_skip_ws_all(s);
}

/// Law: an unrecognized character yields exactly one error carrying that
/// character, and the scan resumes at the very next character, which is
/// untouched.
pub proof fn lemma_unrecognized_resumes(c: char, rest: Seq<char>)
    requires
        !is_whitespace_char(c),
        punct_token(c) is None,
        !is_alphabetic_char(c),
        c != '"',
        !is_numeric_char(c),
    ensures
        spec_step(seq![c] + rest) matches Some(step) && step.0 == Err::<TokenView, LexError>(
            LexError::UnrecognizedCharacter(c),
        ) && step.1 == rest,
{
    let s = seq![c] + rest;
    assert(s[0] == c);
    assert(skip_ws(s) == s);
    assert(s.skip(1) =~= rest);
}

} // verus!
