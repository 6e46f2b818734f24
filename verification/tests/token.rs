use astra::token::{Token, TokenKind};

#[test]
fn display_quotes_the_surface_spelling() {
    assert_eq!(Token::Let.to_string(), "`let`");
    assert_eq!(Token::EqualEqual.to_string(), "`==`");
    assert_eq!(Token::Equal.to_string(), "`=`");
    assert_eq!(Token::AmperAmper.to_string(), "`&&`");
    assert_eq!(Token::LeftBrace.to_string(), "`{`");
    assert_eq!(Token::Dot.to_string(), "`.`");
    assert_eq!(Token::Else.to_string(), "`else`");
}

#[test]
fn display_of_the_sentinels() {
    assert_eq!(Token::EndOfFile.to_string(), "`EOF`");
    assert_eq!(Token::Illegal.to_string(), "`illegal`");
}

#[test]
fn display_of_a_literal_is_its_text() {
    assert_eq!(Token::Name { name: "foo".into() }.to_string(), "`foo`");
    assert_eq!(Token::Int { value: "42".into() }.to_string(), "`42`");
    assert_eq!(Token::Float { value: "1.5".into() }.to_string(), "`1.5`");
    assert_eq!(Token::String { value: "hi there".into() }.to_string(), "`hi there`");
    assert_eq!(Token::Name { name: "".into() }.to_string(), "``");
}

#[test]
fn literal_text_is_kept_unconverted() {
    let token = Token::Int { value: "0000123456789012345678901234567890".into() };
    assert_eq!(token.text(), "0000123456789012345678901234567890");
    assert_eq!(token.lexeme(), "0000123456789012345678901234567890");
    assert_eq!(Token::Plus.text(), "");
    assert_eq!(Token::Plus.lexeme(), "+");
}

#[test]
fn kind_forgets_the_text() {
    assert_eq!(Token::Name { name: "a".into() }.kind(), TokenKind::Name);
    assert_eq!(Token::Int { value: "1".into() }.kind(), TokenKind::Int);
    assert_eq!(Token::Float { value: "1.0".into() }.kind(), TokenKind::Float);
    assert_eq!(Token::String { value: "s".into() }.kind(), TokenKind::String);
    assert_eq!(Token::Return.kind(), TokenKind::Return);
    assert_eq!(Token::EndOfFile.kind(), TokenKind::EndOfFile);
}

#[test]
fn plain_is_the_inverse_of_kind() {
    let tokens = vec![
        Token::Illegal,
        Token::LeftParen,
        Token::RightSquare,
        Token::Percent,
        Token::NotEqual,
        Token::EndOfFile,
        Token::Struct,
        Token::False,
    ];
    for token in tokens {
        assert_eq!(Token::plain(token.kind()), token);
    }
}

#[test]
fn the_spelling_of_a_kind() {
    assert_eq!(TokenKind::GreaterEqual.as_str(), ">=");
    assert_eq!(TokenKind::Struct.as_str(), "struct");
    assert_eq!(TokenKind::Name.as_str(), "");
}

#[test]
fn a_clone_is_equal_and_independent() {
    let long = "a_name_long_enough_to_leave_the_inline_storage_of_the_string";
    let token = Token::Name { name: long.into() };
    let copy = token.clone();
    assert_eq!(copy, token);
    drop(token);
    assert_eq!(copy.text(), long);
    assert_eq!(Token::Plus.clone(), Token::Plus);
    assert_eq!(Token::Int { value: "7".into() }.clone(), Token::Int { value: "7".into() });
    assert_eq!(Token::Float { value: "7.5".into() }.clone(), Token::Float { value: "7.5".into() });
    assert_eq!(Token::String { value: "s".into() }.clone(), Token::String { value: "s".into() });
}

#[test]
fn equality_is_by_variant_and_payload() {
    assert_eq!(Token::Name { name: "a".into() }, Token::Name { name: "a".into() });
    assert_ne!(Token::Name { name: "a".into() }, Token::Name { name: "b".into() });
    assert_ne!(Token::Name { name: "1".into() }, Token::Int { value: "1".into() });
    assert_ne!(Token::Equal, Token::EqualEqual);
}
