use hack_toolchain::compile::tokenizer::{tokenize, Keyword, Token, TokenError};

fn toks(source: &str) -> Vec<Token> {
    tokenize(source.chars().collect()).expect("tokenizes")
}

fn token_text(t: &Token) -> String {
    match t {
        Token::IntegerLiteral(n) => n.to_string(),
        Token::StringLiteral(s) => format!("\"{}\"", s),
        Token::Identifier(s) => s.clone(),
        Token::Symbol(c) => c.to_string(),
        Token::Keyword(k) => match k {
            Keyword::Boolean => "boolean".to_string(),
            Keyword::Char => "char".to_string(),
            Keyword::Class => "class".to_string(),
            Keyword::Constructor => "constructor".to_string(),
            Keyword::Do => "do".to_string(),
            Keyword::Else => "else".to_string(),
            Keyword::False => "false".to_string(),
            Keyword::Field => "field".to_string(),
            Keyword::Function => "function".to_string(),
            Keyword::If => "if".to_string(),
            Keyword::Int => "int".to_string(),
            Keyword::Let => "let".to_string(),
            Keyword::Method => "method".to_string(),
            Keyword::Null => "null".to_string(),
            Keyword::Return => "return".to_string(),
            Keyword::Static => "static".to_string(),
            Keyword::This => "this".to_string(),
            Keyword::True => "true".to_string(),
            Keyword::Var => "var".to_string(),
            Keyword::Void => "void".to_string(),
            Keyword::While => "while".to_string(),
        },
    }
}

#[test]
fn integer_literal_32767_accepted_32768_rejected() {
    assert_eq!(toks("32767"), vec![Token::IntegerLiteral(32767)]);
    assert_eq!(
        tokenize("32768".chars().collect()),
        Err(TokenError::IntegerOutOfRange("32768".to_string()))
    );
    assert_eq!(
        tokenize("123456".chars().collect()),
        Err(TokenError::IntegerOutOfRange("123456".to_string()))
    );
}

#[test]
fn nested_block_comment_closes_correctly() {
    assert_eq!(
        toks("/* /* inner */ still outer */ class"),
        vec![Token::Keyword(Keyword::Class)]
    );
}

#[test]
fn unclosed_comment_is_an_error() {
    assert!(matches!(
        tokenize("/* never closed".chars().collect()),
        Err(TokenError::UnclosedComment(_))
    ));
    assert!(matches!(
        tokenize("/* outer /* inner */ still open".chars().collect()),
        Err(TokenError::UnclosedComment(_))
    ));
}

#[test]
fn line_comment_runs_to_end_of_line() {
    assert_eq!(
        toks("let // x y z\nx"),
        vec![Token::Keyword(Keyword::Let), Token::Identifier("x".to_string())]
    );
}

#[test]
fn slash_alone_is_division() {
    assert_eq!(
        toks("a / b"),
        vec![
            Token::Identifier("a".to_string()),
            Token::Symbol('/'),
            Token::Identifier("b".to_string()),
        ]
    );
}

#[test]
fn string_literal_has_no_escapes() {
    assert_eq!(toks("\"hi there\""), vec![Token::StringLiteral("hi there".to_string())]);
    assert_eq!(
        tokenize("\"no end".chars().collect()),
        Err(TokenError::UnclosedString("no end".to_string()))
    );
}

#[test]
fn keywords_and_identifiers_are_distinguished() {
    assert_eq!(
        toks("class classes _x x9"),
        vec![
            Token::Keyword(Keyword::Class),
            Token::Identifier("classes".to_string()),
            Token::Identifier("_x".to_string()),
            Token::Identifier("x9".to_string()),
        ]
    );
}

#[test]
fn invalid_identifier_is_an_error() {
    assert_eq!(
        tokenize("a#b".chars().collect()),
        Err(TokenError::InvalidIdentifier("a#b".to_string()))
    );
    // a digit run ends at the first non-digit; the letters start a new word
    assert_eq!(
        toks("9abc"),
        vec![Token::IntegerLiteral(9), Token::Identifier("abc".to_string())]
    );
}

#[test]
fn stringified_tokens_retokenize_to_the_same_stream() {
    let source = "class Point { field int x; method void set(int v) { \
                  let x = (v + 1) * 2; do Output.printString(\"done\"); return; } }";
    let first = toks(source);
    let rendered =
        first.iter().map(token_text).collect::<Vec<String>>().join(" ");
    let second = toks(rendered.as_str());
    assert_eq!(first, second);
}
