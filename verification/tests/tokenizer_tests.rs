use tinyscript::tokenize;
use tinyscript::tokenizer::LexError;
use tinyscript::Token;

#[test]
fn empty_source_yields_exactly_end_of_input() {
    let toks = tokenize("").unwrap();
    assert_eq!(toks, vec![Token::EndOfFile]);
}

#[test]
fn keywords_and_literals() {
    let toks = tokenize("v w i f p r true false").unwrap();
    assert_eq!(
        toks,
        vec![
            Token::V,
            Token::W,
            Token::I,
            Token::F,
            Token::Print,
            Token::Return,
            Token::Boolean(true),
            Token::Boolean(false),
            Token::EndOfFile,
        ]
    );
}

#[test]
fn operators_with_greedy_two_char_matching() {
    let toks = tokenize("= == ! != < <= > >= & | + - * / % ( ) { } ,").unwrap();
    assert_eq!(
        toks,
        vec![
            Token::Equals,
            Token::EqualEqual,
            Token::Bang,
            Token::NotEqual,
            Token::LessThan,
            Token::LessThanEquals,
            Token::GreaterThan,
            Token::GreaterThanEquals,
            Token::And,
            Token::Or,
            Token::Plus,
            Token::Minus,
            Token::Asterisk,
            Token::Slash,
            Token::Percent,
            Token::LeftParen,
            Token::RightParen,
            Token::LeftBrace,
            Token::RightBrace,
            Token::Comma,
            Token::EndOfFile,
        ]
    );
}

#[test]
fn numbers_and_identifiers() {
    let toks = tokenize("v count_a = 41").unwrap();
    assert_eq!(
        toks,
        vec![
            Token::V,
            Token::Identifier(String::from("count_a")),
            Token::Equals,
            Token::Number(41),
            Token::EndOfFile,
        ]
    );
}

#[test]
fn digits_do_not_continue_identifiers() {
    let toks = tokenize("ab1").unwrap();
    assert_eq!(
        toks,
        vec![
            Token::Identifier(String::from("ab")),
            Token::Number(1),
            Token::EndOfFile,
        ]
    );
}

#[test]
fn string_literal_consumes_verbatim() {
    let toks = tokenize("p \"hi there\"").unwrap();
    assert_eq!(
        toks,
        vec![
            Token::Print,
            Token::String(String::from("hi there")),
            Token::EndOfFile,
        ]
    );
}

#[test]
fn unterminated_string_runs_to_end_of_input() {
    let toks = tokenize("\"abc").unwrap();
    assert_eq!(
        toks,
        vec![Token::String(String::from("abc")), Token::EndOfFile]
    );
}

#[test]
fn unknown_character_becomes_unknown_token() {
    let toks = tokenize("p $").unwrap();
    assert_eq!(toks, vec![Token::Print, Token::Unknown, Token::EndOfFile]);
}

#[test]
fn largest_number_fits() {
    let toks = tokenize("2147483647").unwrap();
    assert_eq!(toks, vec![Token::Number(2147483647), Token::EndOfFile]);
}

#[test]
fn number_beyond_range_is_a_lexical_error() {
    assert_eq!(tokenize("2147483648"), Err(LexError::NumberOutOfRange));
}

#[test]
fn negative_pin_literal_overflows_at_the_lexer() {
    // The minus sign is a separate token, so the magnitude alone must fit.
    assert_eq!(tokenize("p -2147483648"), Err(LexError::NumberOutOfRange));
}

#[test]
fn whitespace_is_skipped() {
    let toks = tokenize(" \t\r\n p \n 1 ").unwrap();
    assert_eq!(toks, vec![Token::Print, Token::Number(1), Token::EndOfFile]);
}

#[test]
fn double_ampersand_is_two_tokens() {
    let toks = tokenize("a && b").unwrap();
    assert_eq!(
        toks,
        vec![
            Token::Identifier(String::from("a")),
            Token::And,
            Token::And,
            Token::Identifier(String::from("b")),
            Token::EndOfFile,
        ]
    );
}
