//! The tokenizer.
//!
//! [`Tokenizer`] turns source text into a sequence of tokens or lexical
//! errors, produced one at a time by [`Tokenizer::next`]. Each call skips
//! whitespace, reads one character, and either maps it directly to a
//! single-character token or hands over to a sub-scanner for identifiers
//! and keywords, quoted strings, or integer literals. The sub-scanners
//! read until a character fails their predicate and put that one character
//! back through the cursor's rewind. Every call is proved to produce
//! exactly what the functional model [`spec_step`] says.

use vstd::prelude::*;

use crate::classify::is_alphabetic_char;
use crate::classify::is_alphanumeric_char;
use crate::classify::is_ascii_digit_char;
use crate::classify::is_numeric_char;
use crate::classify::is_whitespace_char;
use crate::memory::Memory;
use crate::scan::all_ascii_digits;
use crate::scan::digit_run;
use crate::scan::digits_value;
use crate::scan::escape_char_spec;
use crate::scan::id_run;
use crate::scan::is_id_char;
use crate::scan::keyword_token;
use crate::scan::lemma_digits_value_mono;
use crate::scan::lemma_scan_string_len;
use crate::scan::number_result;
use crate::scan::punct_token;
use crate::scan::scan_string;
use crate::scan::skip_ws;
use crate::scan::spec_step;
use crate::scan::word_token;
use crate::token::LexError;
use crate::token::Token;
use crate::token::TokenView;
use vstd::string::StrSliceExecFns;

verus! {

/// Whether a character may stand in an identifier: alphanumeric,
/// underscore or dot.
pub fn is_valid_id(c: char) -> (r: bool)
    ensures
        r == is_id_char(c),
{
    c.is_alphanumeric() || c == '_' || c == '.'
}

/// The character an escape introducer and `c` stand for: `n` and `t`
/// become newline and tab, every other character stands for itself.
fn escape_char(c: char) -> (r: char)
    ensures
        r == escape_char_spec(c),
{
    if c == 'n' {
        '\n'
    } else if c == 't' {
        '\t'
    } else {
        c
    }
}

/// Whether the collected characters spell exactly the text `s`.
fn word_is(w: &Vec<char>, s: &str) -> (r: bool)
    ensures
        r == (w@ == s@),
{
    let n = s.unicode_len();
    if w.len() != n {
        return false;
    }
    let mut i: usize = 0;
    while i < n
        invariant
            i <= n,
            n == s@.len(),
            w@.len() == n,
            forall|j: int| 0 <= j < i ==> w@[j] == s@[j],
        decreases n - i,
    {
        if w[i] != s.get_char(i) {
            return false;
        }
        i = i + 1;
    }
    proof {
        assert(w@ =~= s@);
    }
    true
}

/// Relies on `String`'s `FromIterator` over characters: collecting yields
/// the string of exactly those characters in order.
#[verifier::external_body]
fn string_from_chars(v: &Vec<char>) -> (r: String)
    ensures
        r@ == v@,
{
    v.iter().collect()
}

/// Whether the item produced by the tokenizer agrees with the item of the
/// functional model: same error, or a token whose view is the model's.
pub open spec fn step_matches(
    r: Option<Result<Token, LexError>>,
    g: Result<TokenView, LexError>,
) -> bool {
    match (r, g) {
        (Some(Ok(t)), Ok(gt)) => t@ == gt,
        (Some(Err(e)), Err(ge)) => e == ge,
        _ => false,
    }
}

/// The tokenizer: one rewindable cursor over the source text, and no
/// other state; each call of [`Tokenizer::next`] is self-contained given
/// the cursor's position.
pub struct Tokenizer {
    inner: Memory,
}

impl View for Tokenizer {
    type V = Seq<char>;

    /// The characters not yet consumed.
    closed spec fn view(&self) -> Seq<char> {
        self.inner.future()
    }
}

impl Tokenizer {
    /// The cursor's bookkeeping is consistent.
    pub closed spec fn wf(self) -> bool {
        self.inner.wf()
    }

    /// A tokenizer over the full source text.
    pub fn new(input: &str) -> (t: Tokenizer)
        ensures
            t.wf(),
            t@ == input@,
    {
        let n = input.unicode_len();
        let mut v: Vec<char> = Vec::new();
        let mut i: usize = 0;
        while i < n
            invariant
                i <= n,
                n == input@.len(),
                v@ == input@.take(i as int),
            decreases n - i,
        {
            v.push(input.get_char(i));
            proof {
                assert(v@ =~= input@.take(i + 1 as int));
            }
            i = i + 1;
        }
        proof {
            assert(input@.take(n as int) =~= input@);
        }
        Tokenizer { inner: Memory::new(v) }
    }

    /// Skip the maximal leading run of whitespace. The skipping loop
    /// always overshoots by one character, which is put back.
    fn consume_whitespace(&mut self)
        requires
            old(self).wf(),
        ensures
            final(self).wf(),
            final(self)@ == skip_ws(old(self)@),
    {
        let ghost orig = self.inner.future();
        loop
            invariant_except_break
                skip_ws(self.inner.future()) == skip_ws(orig),
            invariant
                self.inner.wf(),
            ensures
                self.inner.wf(),
                !self.inner.pending(),
                self.inner.last() is None ==> self.inner.future().len() == 0,
                match self.inner.last() {
                    None => skip_ws(orig) == self.inner.future(),
                    Some(c) => skip_ws(orig) == seq![c] + self.inner.future(),
                },
            decreases self.inner.future().len(),
        {
            let ghost f = self.inner.future();
            match self.inner.next() {
                Some(c) => {
                    if !c.is_whitespace() {
                        proof {
                            assert(f =~= seq![c] + self.inner.future());
                        }
                        break ;
                    }
                },
                None => {
                    break ;
                },
            }
        }
        self.inner.rewind();
    }

    /// Collect the maximal run of identifier characters, put the one
    /// character that ended the run back, and classify the collected text:
    /// a reserved word yields its keyword token, anything else an
    /// identifier. The run is never empty: the dispatch only enters here
    /// after seeing an identifier character.
    fn parse_word(&mut self) -> (t: Token)
        requires
            old(self).wf(),
            old(self)@.len() > 0,
            is_id_char(old(self)@[0]),
        ensures
            final(self).wf(),
            final(self)@ == old(self)@.skip(id_run(old(self)@).len() as int),
            t@ == word_token(id_run(old(self)@)),
    {
        let ghost orig = self.inner.future();
        let mut word: Vec<char> = Vec::new();
        loop
            invariant_except_break
                id_run(orig) == word@ + id_run(self.inner.future()),
                orig == word@ + self.inner.future(),
            invariant
                self.inner.wf(),
            ensures
                self.inner.wf(),
                !self.inner.pending(),
                self.inner.last() is None ==> self.inner.future().len() == 0,
                word@ == id_run(orig),
                match self.inner.last() {
                    Some(c) => orig == word@ + seq![c] + self.inner.future(),
                    None => orig == word@ + self.inner.future(),
                },
            decreases self.inner.future().len(),
        {
            let ghost f = self.inner.future();
            match self.inner.next() {
                Some(c) => {
                    if is_valid_id(c) {
                        word.push(c);
                        proof {
                            assert(f =~= seq![c] + self.inner.future());
                            assert(id_run(orig) =~= word@ + id_run(self.inner.future()));
                            assert(orig =~= word@ + self.inner.future());
                        }
                    } else {
                        proof {
                            assert(f =~= seq![c] + self.inner.future());
                            assert(word@ =~= word@ + id_run(f));
                            assert(orig =~= word@ + seq![c] + self.inner.future());
                        }
                        break ;
                    }
                },
                None => {
                    proof {
                        assert(word@ =~= word@ + id_run(f));
                        assert(orig =~= word@ + self.inner.future());
                    }
                    break ;
                },
            }
        }
        self.inner.rewind();
        proof {
            assert(self.inner.future() =~= orig.skip(word@.len() as int));
        }
        if word_is(&word, "rand") {
            Token::Rand
        } else if word_is(&word, "min") {
            Token::Min
        } else if word_is(&word, "max") {
            Token::Max
        } else if word_is(&word, "sin") {
            Token::Sin
        } else if word_is(&word, "cos") {
            Token::Cos
        } else {
            assert(word@.len() != 0);
            Token::Ident(string_from_chars(&word))
        }
    }

    /// Collect the maximal run of numeric characters, put the one
    /// character that ended the run back, and read the run as a base-10
    /// non-negative integer. A run that is not plain ASCII digits, or
    /// whose value does not fit, is an invalid number.
    fn parse_number(&mut self) -> (res: Result<Token, LexError>)
        requires
            old(self).wf(),
            old(self)@.len() > 0,
            is_numeric_char(old(self)@[0]),
        ensures
            final(self).wf(),
            final(self)@ == old(self)@.skip(digit_run(old(self)@).len() as int),
            match (res, number_result(digit_run(old(self)@))) {
                (Ok(t), Ok(g)) => t@ == g,
                (Err(e), Err(ge)) => e == ge,
                _ => false,
            },
    {
        let ghost orig = self.inner.future();
        let mut digits: Vec<char> = Vec::new();
        loop
            invariant_except_break
                digit_run(orig) == digits@ + digit_run(self.inner.future()),
                orig == digits@ + self.inner.future(),
            invariant
                self.inner.wf(),
            ensures
                self.inner.wf(),
                !self.inner.pending(),
                self.inner.last() is None ==> self.inner.future().len() == 0,
                digits@ == digit_run(orig),
                match self.inner.last() {
                    Some(c) => orig == digits@ + seq![c] + self.inner.future(),
                    None => orig == digits@ + self.inner.future(),
                },
            decreases self.inner.future().len(),
        {
            let ghost f = self.inner.future();
            match self.inner.next() {
                Some(c) => {
                    if c.is_numeric() {
                        digits.push(c);
                        proof {
                            assert(f =~= seq![c] + self.inner.future());
                            assert(digit_run(orig) =~= digits@ + digit_run(self.inner.future()));
                            assert(orig =~= digits@ + self.inner.future());
                        }
                    } else {
                        proof {
                            assert(f =~= seq![c] + self.inner.future());
                            assert(digits@ =~= digits@ + digit_run(f));
                            assert(orig =~= digits@ + seq![c] + self.inner.future());
                        }
                        break ;
                    }
                },
                None => {
                    proof {
                        assert(digits@ =~= digits@ + digit_run(f));
                        assert(orig =~= digits@ + self.inner.future());
                    }
                    break ;
                },
            }
        }
        self.inner.rewind();
        proof {
            assert(self.inner.future() =~= orig.skip(digits@.len() as int));
        }
        let n = digits.len();
        let mut all_digits = true;
        let mut i: usize = 0;
        while i < n
            invariant
                self.inner.wf(),
                self.inner.future() == old(self)@.skip(digit_run(old(self)@).len() as int),
                digits@ == digit_run(old(self)@),
                i <= n,
                n == digits@.len(),
                all_digits <==> (forall|j: int| 0 <= j < i ==> is_ascii_digit_char(digits@[j])),
            decreases n - i,
        {
            let u = digits[i] as u32;
            if u < 48 || u > 57 {
                all_digits = false;
            }
            i = i + 1;
        }
        if !all_digits {
            return Err(LexError::InvalidNumber);
        }
        assert(all_ascii_digits(digits@));
        let mut val: i64 = 0;
        let mut i: usize = 0;
        while i < n
            invariant
                self.inner.wf(),
                self.inner.future() == old(self)@.skip(digit_run(old(self)@).len() as int),
                digits@ == digit_run(old(self)@),
                i <= n,
                n == digits@.len(),
                all_ascii_digits(digits@),
                0 <= val,
                val == digits_value(digits@.take(i as int)),
            decreases n - i,
        {
            let u = digits[i] as u32;
            let d = (u - 48) as i64;
            if val > 922337203685477580i64 || (val == 922337203685477580i64 && d > 7) {
                proof {
                    assert(digits@.take(i + 1 as int).drop_last() =~= digits@.take(i as int));
                    assert(digits_value(digits@.take(i + 1 as int)) > i64::MAX as int);
                    lemma_digits_value_mono(digits@, i + 1 as int);
                }
                return Err(LexError::InvalidNumber);
            }
            val = val * 10 + d;
            proof {
                assert(digits@.take(i + 1 as int).drop_last() =~= digits@.take(i as int));
            }
            i = i + 1;
        }
        proof {
            assert(digits@.take(n as int) =~= digits@);
        }
        Ok(Token::Float(val))
    }

    /// Scan a quoted string, the opening quote already consumed. Runs of
    /// ordinary characters are appended verbatim; the cursor's last
    /// produced character then tells why the run stopped: an escape
    /// introducer translates the next character, a closing quote ends the
    /// string, and end of input is the unterminated-string error. No
    /// other stop is possible, which the dead branch below proves.
    fn parse_quoted_string(&mut self) -> (res: Result<Token, LexError>)
        requires
            old(self).wf(),
        ensures
            final(self).wf(),
            match scan_string(old(self)@) {
                Some(st) => res matches Ok(t) && t@ == TokenView::QuotedString(st.0)
                    && final(self)@ == old(self)@.skip(st.1 as int),
                None => res matches Err(e) && e == LexError::UnterminatedString
                    && final(self)@.len() == 0,
            },
    {
        let ghost orig = self.inner.future();
        let mut value: Vec<char> = Vec::new();
        let ghost mut k: int = 0;
        proof {
            assert(orig.skip(0) =~= orig);
            if scan_string(orig) is Some {
                let st = scan_string(orig)->0;
                assert(value@ + st.0 =~= st.0);
            }
        }
        loop
            invariant_except_break
                match scan_string(orig.skip(k)) {
                    Some(st) => scan_string(orig) == Some((value@ + st.0, (k + st.1) as nat)),
                    None => scan_string(orig) is None,
                },
            invariant
                self.inner.wf(),
                0 <= k <= orig.len(),
                self.inner.future() == orig.skip(k),
                orig == old(self)@,
            ensures
                self.inner.wf(),
                0 <= k <= orig.len(),
                self.inner.future() == orig.skip(k),
                orig == old(self)@,
                scan_string(orig) == Some((value@, k as nat)),
            decreases orig.len() - k,
        {
            let ghost k0 = k;
            loop
                invariant_except_break
                    match scan_string(orig.skip(k)) {
                        Some(st) => scan_string(orig) == Some((value@ + st.0, (k + st.1) as nat)),
                        None => scan_string(orig) is None,
                    },
                invariant
                    self.inner.wf(),
                    k0 <= k,
                    0 <= k <= orig.len(),
                    self.inner.future() == orig.skip(k),
                ensures
                    self.inner.wf(),
                    !self.inner.pending(),
                    k0 <= k,
                    0 <= k <= orig.len(),
                    self.inner.future() == orig.skip(k),
                    match self.inner.last() {
                        None => self.inner.future().len() == 0 && scan_string(orig) is None,
                        Some(c) => c == '"' || c == '\\',
                    },
                    self.inner.last() == Some('"') ==> scan_string(orig) == Some(
                        (value@, k as nat),
                    ),
                    self.inner.last() == Some('\\') ==> (if orig.skip(k).len() == 0 {
                        scan_string(orig) is None
                    } else {
                        match scan_string(orig.skip(k + 1)) {
                            Some(st) => scan_string(orig) == Some(
                                (
                                    (value@ + seq![escape_char_spec(orig[k])]) + st.0,
                                    (k + 1 + st.1) as nat,
                                ),
                            ),
                            None => scan_string(orig) is None,
                        }
                    }),
                decreases orig.len() - k,
            {
                let ghost f = self.inner.future();
                match self.inner.next() {
                    Some(c) => {
                        if c != '"' && c != '\\' {
                            let ghost old_value = value@;
                            value.push(c);
                            proof {
                                k = k + 1;
                                assert(f.skip(1) =~= orig.skip(k));
                                if scan_string(orig.skip(k)) is Some {
                                    let st = scan_string(orig.skip(k))->0;
                                    assert(value@ + st.0 =~= old_value + (seq![c] + st.0));
                                }
                            }
                        } else {
                            proof {
                                k = k + 1;
                                assert(f.skip(1) =~= orig.skip(k));
                                if c == '"' {
                                    assert(value@ + Seq::<char>::empty() =~= value@);
                                } else {
                                    if orig.skip(k).len() > 0 {
                                        assert(f.skip(2) =~= orig.skip(k + 1));
                                        assert(f[1] == orig[k]);
                                        if scan_string(orig.skip(k + 1)) is Some {
                                            let st = scan_string(orig.skip(k + 1))->0;
                                            assert(value@ + (seq![escape_char_spec(f[1])] + st.0)
                                                =~= (value@ + seq![escape_char_spec(orig[k])])
                                                + st.0);
                                        }
                                    }
                                }
                            }
                            break ;
                        }
                    },
                    None => {
                        break ;
                    },
                }
            }
            match self.inner.previous() {
                Some(stop) => {
                    if stop == '\\' {
                        let ghost f2 = self.inner.future();
                        match self.inner.next() {
                            Some(e) => {
                                let ec = escape_char(e);
                                let ghost old_value = value@;
                                value.push(ec);
                                proof {
                                    assert(e == orig[k]);
                                    k = k + 1;
                                    assert(f2.skip(1) =~= orig.skip(k));
                                    assert(old_value + seq![escape_char_spec(e)] =~= value@);
                                }
                            },
                            None => {
                                return Err(LexError::UnterminatedString);
                            },
                        }
                    } else if stop == '"' {
                        break ;
                    } else {
                        proof {
                            assert(false);
                        }
                    }
                },
                None => {
                    return Err(LexError::UnterminatedString);
                },
            }
        }
        Ok(Token::QuotedString(string_from_chars(&value)))
    }

    /// Produce the next token or lexical error, or `None` at end of
    /// input. Skips whitespace, reads one character, and either maps it
    /// directly to its single-character token or hands over to the
    /// identifier, quoted-string or number scanner; any other character
    /// is an unrecognized-character error, recoverable per item: the
    /// following call continues just past it. The result is exactly what
    /// the functional model [`spec_step`] says of the remaining input.
    pub fn next(&mut self) -> (r: Option<Result<Token, LexError>>)
        requires
            old(self).wf(),
        ensures
            final(self).wf(),
            spec_step(old(self)@) is None ==> r is None && final(self)@.len() == 0,
            spec_step(old(self)@) matches Some(step) ==> step_matches(r, step.0)
                && final(self)@ == step.1,
    {
        self.consume_whitespace();
        let ghost t = self.inner.future();
        let c = match self.inner.next() {
            None => {
                return None;
            },
            Some(c) => c,
        };
        let token: Token = match c {
            '{' => Token::LeftBracket,
            '}' => Token::RightBracket,
            ',' => Token::Comma,
            ':' => Token::Colon,
            ';' => Token::SemiColon,
            '(' => Token::LeftParenthesis,
            ')' => Token::RightParenthesis,
            '[' => Token::LeftArray,
            ']' => Token::RightArray,
            '+' => Token::Plus,
            '-' => Token::Minus,
            '*' => Token::Multiply,
            '/' => Token::Divide,
            '^' => Token::Power,
            '=' => Token::Equal,
            '$' => Token::Dollar,
            _ => {
                if c.is_alphabetic() {
                    self.inner.rewind();
                    proof {
                        assert(seq![c] + t.skip(1) =~= t);
                    }
                    self.parse_word()
                } else if c == '"' {
                    match self.parse_quoted_string() {
                        Ok(tok) => {
                            proof {
                                lemma_scan_string_len(t.skip(1));
                                let st = scan_string(t.skip(1))->0;
                                assert(t.skip(1).skip(st.1 as int) =~= t.skip(1 + st.1 as int));
                            }
                            tok
                        },
                        Err(e) => {
                            proof {
                                assert(self.inner.future() =~= Seq::<char>::empty());
                            }
                            return Some(Err(e));
                        },
                    }
                } else if c.is_numeric() {
                    self.inner.rewind();
                    proof {
                        assert(seq![c] + t.skip(1) =~= t);
                    }
                    match self.parse_number() {
                        Ok(tok) => tok,
                        Err(e) => {
                            return Some(Err(e));
                        },
                    }
                } else {
                    return Some(Err(LexError::UnrecognizedCharacter(c)));
                }
            },
        };
        Some(Ok(token))
    }
}

} // verus!
