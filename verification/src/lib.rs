//! A tokenizer for a small expression language: structural punctuation,
//! arithmetic operators, quoted string literals with escape sequences,
//! integer literals, identifiers, and a closed set of reserved words.
//!
//! The scanner is a single-pass state machine over a character stream with
//! one character of lookahead-undo, provided by the [`Memory`] cursor.
//! [`Tokenizer::next`] is proved to follow the functional model
//! [`spec_step`] step by step, and the laws of the scanner are proved of
//! that model as public proof functions.

mod classify;
mod laws;
mod lexer;
mod memory;
mod scan;
mod token;

pub use classify::is_alphabetic_char;
pub use classify::is_alphanumeric_char;
pub use classify::is_ascii_digit_char;
pub use classify::is_numeric_char;
pub use classify::is_whitespace_char;
pub use laws::lemma_identifier_verbatim;
pub use laws::lemma_keyword_run;
pub use laws::lemma_number_run;
pub use laws::lemma_single_punct_token;
pub use laws::lemma_unrecognized_resumes;
pub use laws::lemma_unterminated_string;
pub use laws::lemma_whitespace_invisible;
pub use laws::lemma_whitespace_only;
pub use lexer::is_valid_id;
pub use lexer::step_matches;
pub use lexer::Tokenizer;
pub use memory::Memory;
pub use scan::all_ascii_digits;
pub use scan::digit_run;
pub use scan::digits_value;
pub use scan::escape_char_spec;
pub use scan::id_run;
pub use scan::is_id_char;
pub use scan::keyword_token;
pub use scan::number_result;
pub use scan::punct_token;
pub use scan::scan_string;
pub use scan::skip_ws;
pub use scan::spec_step;
pub use scan::word_token;
pub use token::LexError;
pub use token::Token;
pub use token::TokenView;
