use dsl_lexer::LexError;
use dsl_lexer::Token;
use dsl_lexer::Tokenizer;

fn all_tokens(input: &str) -> Vec<Result<Token, LexError>> {
    let mut t = Tokenizer::new(input);
    let mut out = Vec::new();
    while let Some(item) = t.next() {
        out.push(item);
    }
    out
}

#[test]
fn single_punctuation_tokens() {
    let cases: Vec<(&str, Token)> = vec![
        ("{", Token::LeftBracket),
        ("}", Token::RightBracket),
        (",", Token::Comma),
        (":", Token::Colon),
        (";", Token::SemiColon),
        ("(", Token::LeftParenthesis),
        (")", Token::RightParenthesis),
        ("[", Token::LeftArray),
        ("]", Token::RightArray),
        ("+", Token::Plus),
        ("-", Token::Minus),
        ("*", Token::Multiply),
        ("/", Token::Divide),
        ("^", Token::Power),
        ("=", Token::Equal),
        ("$", Token::Dollar),
    ];
    for (input, expected) in cases {
        let mut t = Tokenizer::new(input);
        assert_eq!(t.next(), Some(Ok(expected)));
        assert_eq!(t.next(), None);
    }
}

#[test]
fn keywords_are_never_identifiers() {
    let cases: Vec<(&str, Token)> = vec![
        ("rand", Token::Rand),
        ("min", Token::Min),
        ("max", Token::Max),
        ("sin", Token::Sin),
        ("cos", Token::Cos),
    ];
    for (input, expected) in cases {
        let mut t = Tokenizer::new(input);
        assert_eq!(t.next(), Some(Ok(expected)));
        assert_eq!(t.next(), None);
    }
}

#[test]
fn identifier_runs_verbatim() {
    for input in ["abc", "a_b.c", "ab3", "rand2", "mini", "x"] {
        let mut t = Tokenizer::new(input);
        assert_eq!(t.next(), Some(Ok(Token::Ident(input.to_string()))));
        assert_eq!(t.next(), None);
    }
}

#[test]
fn identifier_run_starting_with_underscore_is_not_one_identifier() {
    // the dispatch enters the identifier scanner only on an alphabetic
    // character; a leading underscore is unrecognized on its own
    assert_eq!(
        all_tokens("_a"),
        vec![
            Err(LexError::UnrecognizedCharacter('_')),
            Ok(Token::Ident("a".to_string())),
        ]
    );
}

#[test]
fn number_run_value() {
    let mut t = Tokenizer::new("123");
    assert_eq!(t.next(), Some(Ok(Token::Float(123))));
    assert_eq!(t.next(), None);
}

#[test]
fn empty_input_yields_nothing() {
    let mut t = Tokenizer::new("");
    assert_eq!(t.next(), None);
    assert_eq!(t.next(), None);
}

#[test]
fn number_at_range_limit() {
    let mut t = Tokenizer::new("9223372036854775807");
    assert_eq!(t.next(), Some(Ok(Token::Float(9223372036854775807))));
    assert_eq!(t.next(), None);
}

#[test]
fn number_overflow_is_invalid() {
    let mut t = Tokenizer::new("9223372036854775808");
    assert_eq!(t.next(), Some(Err(LexError::InvalidNumber)));
    assert_eq!(t.next(), None);
}

#[test]
fn number_with_nonascii_digit_is_invalid() {
    // U+0663 is numeric, so it joins the digit run, but the run is not a
    // plain ASCII decimal integer
    let mut t = Tokenizer::new("1\u{663}");
    assert_eq!(t.next(), Some(Err(LexError::InvalidNumber)));
    assert_eq!(t.next(), None);
}

#[test]
fn number_run_stops_before_letters() {
    assert_eq!(
        all_tokens("123abc"),
        vec![Ok(Token::Float(123)), Ok(Token::Ident("abc".to_string()))]
    );
}

#[test]
fn fractional_syntax_is_not_supported() {
    assert_eq!(
        all_tokens("1.5"),
        vec![
            Ok(Token::Float(1)),
            Err(LexError::UnrecognizedCharacter('.')),
            Ok(Token::Float(5)),
        ]
    );
}

#[test]
fn quoted_string_escapes_round_trip() {
    let mut t = Tokenizer::new("\"a\\nb\\\"c\\\\d\"");
    assert_eq!(
        t.next(),
        Some(Ok(Token::QuotedString("a\nb\"c\\d".to_string())))
    );
    assert_eq!(t.next(), None);
}

#[test]
fn quoted_string_tab_escape() {
    let mut t = Tokenizer::new("\"x\\ty\"");
    assert_eq!(t.next(), Some(Ok(Token::QuotedString("x\ty".to_string()))));
    assert_eq!(t.next(), None);
}

#[test]
fn quoted_string_unnecessary_escape_is_literal() {
    let mut t = Tokenizer::new("\"a\\qb\"");
    assert_eq!(t.next(), Some(Ok(Token::QuotedString("aqb".to_string()))));
    assert_eq!(t.next(), None);
}

#[test]
fn empty_quoted_string() {
    let mut t = Tokenizer::new("\"\"");
    assert_eq!(t.next(), Some(Ok(Token::QuotedString(String::new()))));
    assert_eq!(t.next(), None);
}

#[test]
fn unterminated_string_is_an_error() {
    let mut t = Tokenizer::new("\"abc");
    assert_eq!(t.next(), Some(Err(LexError::UnterminatedString)));
    assert_eq!(t.next(), None);
}

#[test]
fn unterminated_string_during_escape_is_an_error() {
    let mut t = Tokenizer::new("\"ab\\");
    assert_eq!(t.next(), Some(Err(LexError::UnterminatedString)));
    assert_eq!(t.next(), None);
}

#[test]
fn whitespace_never_appears_as_a_token() {
    assert_eq!(
        all_tokens("a  b"),
        vec![
            Ok(Token::Ident("a".to_string())),
            Ok(Token::Ident("b".to_string())),
        ]
    );
}

#[test]
fn whitespace_only_input_yields_nothing() {
    for input in [" ", "   ", "\t\n\r ", "\n\n"] {
        let mut t = Tokenizer::new(input);
        assert_eq!(t.next(), None);
    }
}

#[test]
fn unrecognized_character_is_one_error() {
    let mut t = Tokenizer::new("@");
    assert_eq!(t.next(), Some(Err(LexError::UnrecognizedCharacter('@'))));
    assert_eq!(t.next(), None);
}

#[test]
fn scanning_resumes_after_unrecognized_character() {
    assert_eq!(
        all_tokens("@b"),
        vec![
            Err(LexError::UnrecognizedCharacter('@')),
            Ok(Token::Ident("b".to_string())),
        ]
    );
}

#[test]
fn nonascii_alphabetic_identifier() {
    let mut t = Tokenizer::new("\u{e9}t\u{e9}");
    assert_eq!(
        t.next(),
        Some(Ok(Token::Ident("\u{e9}t\u{e9}".to_string())))
    );
    assert_eq!(t.next(), None);
}

#[test]
fn full_expression() {
    assert_eq!(
        all_tokens("$x = min(1, 2) ^ rand;"),
        vec![
            Ok(Token::Dollar),
            Ok(Token::Ident("x".to_string())),
            Ok(Token::Equal),
            Ok(Token::Min),
            Ok(Token::LeftParenthesis),
            Ok(Token::Float(1)),
            Ok(Token::Comma),
            Ok(Token::Float(2)),
            Ok(Token::RightParenthesis),
            Ok(Token::Power),
            Ok(Token::Rand),
            Ok(Token::SemiColon),
        ]
    );
}

#[test]
fn string_between_tokens() {
    assert_eq!(
        all_tokens("a \"b c\" d"),
        vec![
            Ok(Token::Ident("a".to_string())),
            Ok(Token::QuotedString("b c".to_string())),
            Ok(Token::Ident("d".to_string())),
        ]
    );
}
