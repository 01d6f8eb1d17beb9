use minilex::error::TError;
use minilex::lexer::Lexer;
use minilex::location::SourceLocation;
use minilex::location::SourceRange;
use minilex::token::LexerTokenType;

#[test]
fn source_location_accessors_and_rendering() {
    let loc = SourceLocation::new(3, 7);
    assert_eq!(loc.line(), 3);
    assert_eq!(loc.col(), 7);
    assert_eq!(loc.to_string(), "<line:3, col:7>");
}

#[test]
fn source_location_renders_multi_digit_numbers() {
    let loc = SourceLocation::new(120, 45);
    assert_eq!(loc.to_string(), "<line:120, col:45>");
    let origin = SourceLocation::new(0, 0);
    assert_eq!(origin.to_string(), "<line:0, col:0>");
}

#[test]
fn source_range_keeps_its_endpoints() {
    let start = SourceLocation::new(1, 2);
    let stop = SourceLocation::new(3, 4);
    let range = SourceRange::new(start, stop);
    assert_eq!(range.get_start().line(), 1);
    assert_eq!(range.get_start().col(), 2);
    assert_eq!(range.get_end().line(), 3);
    assert_eq!(range.get_end().col(), 4);
}

#[test]
fn token_kind_names() {
    assert_eq!(LexerTokenType::ParenOpen.to_string(), "ParenOpen");
    assert_eq!(LexerTokenType::ParenClose.to_string(), "ParenClose");
    assert_eq!(LexerTokenType::FloatToken.to_string(), "FloatToken");
    assert_eq!(LexerTokenType::IntToken.to_string(), "IntToken");
    assert_eq!(LexerTokenType::VarToken.to_string(), "VarToken");
    assert_eq!(LexerTokenType::PlusToken.to_string(), "PlusToken");
    assert_eq!(LexerTokenType::MinusToken.to_string(), "MinusToken");
    assert_eq!(LexerTokenType::DivideToken.to_string(), "DivideToken");
    assert_eq!(LexerTokenType::MultiplyToken.to_string(), "MultiplyToken");
    assert_eq!(LexerTokenType::AssignToken.to_string(), "AssignToken");
    assert_eq!(LexerTokenType::PrintToken.to_string(), "PrintToken");
    assert_eq!(LexerTokenType::Space.to_string(), "Space");
    assert_eq!(LexerTokenType::Tab.to_string(), "Tab");
    assert_eq!(LexerTokenType::Newline.to_string(), "Newline");
    assert_eq!(LexerTokenType::Eof.to_string(), "Eof");
}

#[test]
fn token_rendering() {
    let mut lexer = Lexer::new(String::from("x"));
    let token = lexer.get_next_token().unwrap();
    assert_eq!(token.to_string(), "[x] -> \t<line:1, col:1>;\t VarToken");
}

#[test]
fn error_rendering_without_location() {
    let err = TError::new("boom");
    assert_eq!(err.get_error_message(), "boom<line:0, col:0>");
}

#[test]
fn error_rendering_with_location() {
    let err = TError::with_location("bad input", SourceLocation::new(2, 9));
    assert_eq!(err.get_error_message(), "bad input<line:2, col:9>");
}

#[test]
fn check_returns_error_only_when_condition_fails() {
    let err = TError::new("context");
    assert!(err.check(true, "must hold").is_ok());
    let failed = err.check(false, "must hold").err().unwrap();
    assert_eq!(failed.get_error_message(), "must hold<line:0, col:0>");
}
