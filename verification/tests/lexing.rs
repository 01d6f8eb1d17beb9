use minilex::error::TError;
use minilex::lexer::Lexer;
use minilex::token::LexerToken;
use minilex::token::LexerTokenType;

fn lex(l: &mut Lexer) -> Result<Vec<LexerToken>, TError> {
    let mut result = Vec::new();
    loop {
        let token = l.get_next_token()?;
        match token.type_ {
            LexerTokenType::Eof => {
                result.push(token);
                break;
            }
            _ => result.push(token),
        }
    }
    Ok(result)
}

#[test]
fn simple_lexing_test() {
    let data = "12 + 2 * 3.14 / ( 23 - 3.23 ) * 10.0 ";
    let mut lexer = Lexer::new(String::from(data));
    let result = lex(&mut lexer);

    assert!(
        matches!(result, Ok(..)),
        "Lexer failed to lex the whole program text"
    );
    let actual_result = result
        .unwrap()
        .into_iter()
        .map(|tok| tok.type_)
        .collect::<Vec<_>>();

    let expected_result = vec![
        LexerTokenType::IntToken,
        LexerTokenType::PlusToken,
        LexerTokenType::IntToken,
        LexerTokenType::MultiplyToken,
        LexerTokenType::FloatToken,
        LexerTokenType::DivideToken,
        LexerTokenType::ParenOpen,
        LexerTokenType::IntToken,
        LexerTokenType::MinusToken,
        LexerTokenType::FloatToken,
        LexerTokenType::ParenClose,
        LexerTokenType::MultiplyToken,
        LexerTokenType::FloatToken,
        LexerTokenType::Eof,
    ];

    assert_eq!(
        expected_result.len(),
        actual_result.len(),
        "Unequal length of results"
    );

    for (expected, actual) in expected_result.into_iter().zip(actual_result) {
        assert_eq!(expected, actual)
    }
}

#[test]
fn print_keyword_is_recognized() {
    let mut lexer = Lexer::new(String::from("print x"));
    let tokens = lex(&mut lexer).unwrap();
    assert_eq!(tokens.len(), 3);
    assert_eq!(tokens[0].type_, LexerTokenType::PrintToken);
    assert_eq!(tokens[0].value, "print");
    assert_eq!(tokens[1].type_, LexerTokenType::VarToken);
    assert_eq!(tokens[1].value, "x");
    assert_eq!(tokens[2].type_, LexerTokenType::Eof);
}

#[test]
fn capitalized_print_keyword_is_recognized() {
    let mut lexer = Lexer::new(String::from("Print"));
    let tokens = lex(&mut lexer).unwrap();
    assert_eq!(tokens.len(), 2);
    assert_eq!(tokens[0].type_, LexerTokenType::PrintToken);
    assert_eq!(tokens[0].value, "Print");
}

#[test]
fn words_containing_print_are_identifiers() {
    let mut lexer = Lexer::new(String::from("printx prin"));
    let tokens = lex(&mut lexer).unwrap();
    assert_eq!(tokens[0].type_, LexerTokenType::VarToken);
    assert_eq!(tokens[0].value, "printx");
    assert_eq!(tokens[1].type_, LexerTokenType::VarToken);
    assert_eq!(tokens[1].value, "prin");
}

#[test]
fn assignment_with_newline() {
    let mut lexer = Lexer::new(String::from("x = 5\n"));
    let tokens = lex(&mut lexer).unwrap();
    let kinds: Vec<LexerTokenType> = tokens.iter().map(|t| t.type_).collect();
    assert_eq!(
        kinds,
        vec![
            LexerTokenType::VarToken,
            LexerTokenType::AssignToken,
            LexerTokenType::IntToken,
            LexerTokenType::Newline,
            LexerTokenType::Eof,
        ]
    );
    assert_eq!(tokens[2].value, "5");
    assert_eq!(tokens[3].value, "\n");
}

#[test]
fn unknown_character_is_an_error() {
    let mut lexer = Lexer::new(String::from("@"));
    let result = lexer.get_next_token();
    let err = result.err().expect("scanning `@` must fail");
    assert_eq!(err.get_error_message(), "unknown character<line:1, col:1>");
}

#[test]
fn unknown_character_after_whitespace_keeps_its_column() {
    let mut lexer = Lexer::new(String::from("  @"));
    let err = lexer.get_next_token().err().unwrap();
    assert_eq!(err.get_error_message(), "unknown character<line:1, col:3>");
}

#[test]
fn empty_input_yields_end_of_input() {
    let mut lexer = Lexer::new(String::new());
    let token = lexer.get_next_token().unwrap();
    assert_eq!(token.type_, LexerTokenType::Eof);
    assert_eq!(token.value, "");
    assert_eq!(token.location.line(), 1);
    assert_eq!(token.location.col(), 1);
}

#[test]
fn single_character_operators() {
    let mut lexer = Lexer::new(String::from("()+-*/="));
    let tokens = lex(&mut lexer).unwrap();
    let kinds: Vec<LexerTokenType> = tokens.iter().map(|t| t.type_).collect();
    assert_eq!(
        kinds,
        vec![
            LexerTokenType::ParenOpen,
            LexerTokenType::ParenClose,
            LexerTokenType::PlusToken,
            LexerTokenType::MinusToken,
            LexerTokenType::MultiplyToken,
            LexerTokenType::DivideToken,
            LexerTokenType::AssignToken,
            LexerTokenType::Eof,
        ]
    );
}

#[test]
fn malformed_float_text_is_accepted() {
    let mut lexer = Lexer::new(String::from("1.2.3 . .5."));
    let tokens = lex(&mut lexer).unwrap();
    assert_eq!(tokens[0].type_, LexerTokenType::FloatToken);
    assert_eq!(tokens[0].value, "1.2.3");
    assert_eq!(tokens[1].type_, LexerTokenType::FloatToken);
    assert_eq!(tokens[1].value, ".");
    assert_eq!(tokens[2].type_, LexerTokenType::FloatToken);
    assert_eq!(tokens[2].value, ".5.");
    assert_eq!(tokens[3].type_, LexerTokenType::Eof);
}

#[test]
fn integer_and_float_literals() {
    let mut lexer = Lexer::new(String::from("23 3.14"));
    let tokens = lex(&mut lexer).unwrap();
    assert_eq!(tokens[0].type_, LexerTokenType::IntToken);
    assert_eq!(tokens[0].value, "23");
    assert_eq!(tokens[1].type_, LexerTokenType::FloatToken);
    assert_eq!(tokens[1].value, "3.14");
}

#[test]
fn tab_is_skipped_and_counts_one_column() {
    let mut lexer = Lexer::new(String::from("\ta"));
    let token = lexer.get_next_token().unwrap();
    assert_eq!(token.type_, LexerTokenType::VarToken);
    assert_eq!(token.location.line(), 1);
    assert_eq!(token.location.col(), 2);
}

#[test]
fn recognized_alphabet_never_fails() {
    let data = "abc XYZ 019 . \t\n ( ) + - * / = zz9.";
    let mut lexer = Lexer::new(String::from(data));
    let result = lex(&mut lexer);
    assert!(result.is_ok());
}

#[test]
fn scan_is_lossless_without_trivia() {
    let data = "print(x)=3.14/7\n12*y\n";
    let mut lexer = Lexer::new(String::from(data));
    let tokens = lex(&mut lexer).unwrap();
    let rebuilt: String = tokens.iter().map(|t| t.value.as_str()).collect();
    assert_eq!(rebuilt, data);
}

#[test]
fn scan_is_lossless_with_skipped_whitespace() {
    let data = " 12 +\tx\n";
    let mut lexer = Lexer::new(String::from(data));
    let tokens = lex(&mut lexer).unwrap();
    let values: Vec<&str> = tokens.iter().map(|t| t.value.as_str()).collect();
    assert_eq!(values, vec!["12", "+", "x", "\n", ""]);
    // Reinserting each token's text at the column it was reported with
    // reproduces the buffer: the gaps hold exactly the skipped whitespace.
    assert_eq!(tokens[0].location.col(), 2);
    assert_eq!(tokens[1].location.col(), 5);
    assert_eq!(tokens[2].location.col(), 7);
    assert_eq!(tokens[3].location.col(), 8);
}

#[test]
fn lines_advance_and_columns_reset_after_newline() {
    let mut lexer = Lexer::new(String::from("a\nbb\nc"));
    let tokens = lex(&mut lexer).unwrap();
    let positions: Vec<(usize, usize)> = tokens
        .iter()
        .map(|t| (t.location.line(), t.location.col()))
        .collect();
    assert_eq!(
        positions,
        vec![(1, 1), (1, 2), (2, 1), (2, 3), (3, 1), (3, 2)]
    );
    let lines: Vec<usize> = positions.iter().map(|p| p.0).collect();
    let mut sorted = lines.clone();
    sorted.sort();
    assert_eq!(lines, sorted);
}

#[test]
fn rescanning_yields_the_same_tokens() {
    let data = "x = 5\nprint x + 3.14";
    let mut first = Lexer::new(String::from(data));
    let mut second = Lexer::new(String::from(data));
    let a = lex(&mut first).unwrap();
    let b = lex(&mut second).unwrap();
    assert_eq!(a.len(), b.len());
    for (x, y) in a.iter().zip(b.iter()) {
        assert_eq!(x.type_, y.type_);
        assert_eq!(x.value, y.value);
        assert_eq!(x.location.line(), y.location.line());
        assert_eq!(x.location.col(), y.location.col());
    }
}

#[test]
fn current_location_tracks_the_cursor() {
    let mut lexer = Lexer::new(String::from("ab\nc"));
    assert_eq!(lexer.current_location().line(), 1);
    assert_eq!(lexer.current_location().col(), 1);
    lexer.get_next_token().unwrap();
    assert_eq!(lexer.current_location().line(), 1);
    assert_eq!(lexer.current_location().col(), 3);
    lexer.get_next_token().unwrap();
    assert_eq!(lexer.current_location().line(), 2);
    assert_eq!(lexer.current_location().col(), 1);
}

#[test]
fn classification_helpers() {
    assert!(Lexer::is_integer('0'));
    assert!(Lexer::is_integer('9'));
    assert!(!Lexer::is_integer('.'));
    assert!(Lexer::is_numeric('5'));
    assert!(Lexer::is_numeric('.'));
    assert!(!Lexer::is_numeric('x'));
    assert!(Lexer::is_alpha('a'));
    assert!(Lexer::is_alpha('Z'));
    assert!(!Lexer::is_alpha('1'));
}

#[test]
fn end_of_input_is_repeatable() {
    let mut lexer = Lexer::new(String::from("x "));
    let first = lexer.get_next_token().unwrap();
    assert_eq!(first.type_, LexerTokenType::VarToken);
    let second = lexer.get_next_token().unwrap();
    assert_eq!(second.type_, LexerTokenType::Eof);
    assert_eq!(second.location.col(), 3);
    let third = lexer.get_next_token().unwrap();
    assert_eq!(third.type_, LexerTokenType::Eof);
    assert_eq!(third.value, "");
}
