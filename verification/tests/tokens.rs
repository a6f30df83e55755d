use vizsink::tokens::{tokenizer, Token};

fn word(s: &str) -> Token {
    Token::Word(s.to_string())
}

#[test]
fn test_tokenizer() {
    let line = "entity uav shape=my_drone x =0 y= 0 angle = 0deg";
    let tokens = tokenizer(line);
    assert_eq!(
        tokens,
        vec![
            Token::Word("entity".to_string()),
            Token::Word("uav".to_string()),
            Token::Word("shape".to_string()),
            Token::Equal,
            Token::Word("my_drone".to_string()),
            Token::Word("x".to_string()),
            Token::Equal,
            Token::Word("0".to_string()),
            Token::Word("y".to_string()),
            Token::Equal,
            Token::Word("0".to_string()),
            Token::Word("angle".to_string()),
            Token::Equal,
            Token::Word("0deg".to_string()),
        ]
    );

    let line = "draw poly points=[(45, 2), (23,4), ( 4   ,   5)]";
    let tokens = tokenizer(line);
    assert_eq!(
        tokens,
        vec![
            Token::Word("draw".to_string()),
            Token::Word("poly".to_string()),
            Token::Word("points".to_string()),
            Token::Equal,
            Token::LBracket,
            Token::LParen,
            Token::Word("45".to_string()),
            Token::Comma,
            Token::Word("2".to_string()),
            Token::RParen,
            Token::Comma,
            Token::LParen,
            Token::Word("23".to_string()),
            Token::Comma,
            Token::Word("4".to_string()),
            Token::RParen,
            Token::Comma,
            Token::LParen,
            Token::Word("4".to_string()),
            Token::Comma,
            Token::Word("5".to_string()),
            Token::RParen,
            Token::RBracket,
        ]
    );
}

#[test]
fn tokenizer_keeps_decimal_numbers_whole() {
    assert_eq!(
        tokenizer("y= 6.5 z = -0.25"),
        vec![word("y"), Token::Equal, word("6.5"), word("z"), Token::Equal, word("-0.25")]
    );
}

#[test]
fn tokenizer_minus_only_starts_a_word() {
    // A '-' inside a word ends it and starts the next one.
    assert_eq!(tokenizer("a-b"), vec![word("a"), word("-b")]);
    // A '.' cannot start a word and is dropped there.
    assert_eq!(tokenizer(".5"), vec![word("5")]);
}

#[test]
fn tokenizer_drops_other_characters() {
    assert_eq!(tokenizer("  #FF0000 ; \t\r"), vec![word("FF0000")]);
    assert_eq!(tokenizer(""), vec![]);
    assert_eq!(tokenizer("=()[],"), vec![
        Token::Equal,
        Token::LParen,
        Token::RParen,
        Token::LBracket,
        Token::RBracket,
        Token::Comma
    ]);
}

#[test]
fn tokenizer_uses_unicode_letters() {
    // Non-ASCII letters and digits are alphanumeric; symbols are not.
    assert_eq!(tokenizer("héllo ٣x €"), vec![word("héllo"), word("٣x")]);
}

#[test]
fn spaces_and_delimiters_split_tokens() {
    let mut both = tokenizer("shape=my_drone");
    assert_eq!(both, tokenizer("shape = my_drone"));
    both = tokenizer("a b");
    let mut parts = tokenizer("a");
    parts.extend(tokenizer("b"));
    assert_eq!(both, parts);
}
