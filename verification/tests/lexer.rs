use astra::lexer::{is_digit_of_radix, is_name, is_number, is_whitespace, str_to_identifier, Lexer};
use astra::token::Token;

#[test]
fn test_str_to_identifier() {
    let input = String::from("fun");
    let expected = Token::Fun;
    let result = str_to_identifier(&input).unwrap();

    assert_eq!(expected, result);

    let input = String::from("let");
    let expected = Token::Let;
    let result = str_to_identifier(&input).unwrap();

    assert_eq!(expected, result);

    let input = String::from("struct");
    let expected = Token::Struct;
    let result = str_to_identifier(&input).unwrap();

    assert_eq!(expected, result);

    let input = String::from("enum");
    let expected = Token::Enum;
    let result = str_to_identifier(&input).unwrap();

    assert_eq!(expected, result);

    let input = String::from("my_function_name");
    let expected: Option<Token> = None;
    let result = str_to_identifier(&input);

    assert_eq!(expected, result);
}

#[test]
fn test_is_number() {
    let input = '8';
    let result = is_number(input);
    assert!(result == true);

    let input = 'r';
    let result = is_number(input);
    assert!(result == false);
}

#[test]
fn test_is_name() {
    let input = 'r';
    let result = is_name(input);
    assert!(result == true);

    let input = '8';
    let result = is_name(input);
    assert!(result == false);

    let input = '-';
    let result = is_name(input);
    assert!(result == false);
}

#[test]
fn test_next_token() {
    let input = String::from(
        r#"
            fun do_thing() {
    let x = 0;
    let b = 1;

    b + x;
}
        "#,
    );

    let mut lexer = Lexer::new(input);
    let expected = vec![
        Token::Fun,
        Token::Name {
            name: "do_thing".into(),
        },
        Token::LeftParen,
        Token::RightParen,
        Token::LeftBrace,
        Token::Let,
        Token::Name { name: "x".into() },
        Token::Equal,
        Token::Int { value: "0".into() },
        Token::SemiColon,
        Token::Let,
        Token::Name { name: "b".into() },
        Token::Equal,
        Token::Int { value: "1".into() },
        Token::SemiColon,
        Token::Name { name: "b".into() },
        Token::Plus,
        Token::Name { name: "x".into() },
        Token::SemiColon,
    ];

    for expected_token in expected {
        let result: Option<Token> = lexer.next_token();

        if let Some(result) = result {
            assert_eq!(result, expected_token);
        }
    }
}

fn lex_all(source: &str) -> Vec<Token> {
    let mut lexer = Lexer::new(String::from(source));
    lexer.tokenize()
}

fn word(text: &str) -> Token {
    Token::Name { name: text.into() }
}

fn number(text: &str) -> Token {
    Token::Int { value: text.into() }
}

#[test]
fn let_statement_lexes_to_exactly_six_tokens() {
    let mut lexer = Lexer::new(String::from("let x = 0;"));
    let expected = vec![
        Token::Let,
        word("x"),
        Token::Equal,
        number("0"),
        Token::SemiColon,
        Token::EndOfFile,
    ];
    for token in expected {
        assert_eq!(lexer.next_token(), Some(token));
    }
}

#[test]
fn tokenize_gives_the_same_tokens_as_repeated_calls() {
    assert_eq!(
        lex_all("let x = 0;"),
        vec![
            Token::Let,
            word("x"),
            Token::Equal,
            number("0"),
            Token::SemiColon,
            Token::EndOfFile,
        ]
    );
}

#[test]
fn end_of_file_is_returned_forever() {
    let mut lexer = Lexer::new(String::from("x  "));
    assert_eq!(lexer.next_token(), Some(word("x")));
    for _ in 0..100 {
        assert_eq!(lexer.next_token(), Some(Token::EndOfFile));
    }
}

#[test]
fn empty_input_is_end_of_file() {
    assert_eq!(lex_all(""), vec![Token::EndOfFile]);
    assert_eq!(lex_all(" \t\r\n "), vec![Token::EndOfFile]);
}

#[test]
fn tokenize_after_the_end_gives_one_end_of_file() {
    let mut lexer = Lexer::new(String::from("a"));
    assert_eq!(lexer.tokenize(), vec![word("a"), Token::EndOfFile]);
    assert_eq!(lexer.tokenize(), vec![Token::EndOfFile]);
}

#[test]
fn maximal_munch_keeps_letter_whole() {
    assert_eq!(lex_all("letter"), vec![word("letter"), Token::EndOfFile]);
    assert_eq!(lex_all("lets"), vec![word("lets"), Token::EndOfFile]);
    assert_eq!(lex_all("iffy"), vec![word("iffy"), Token::EndOfFile]);
    assert_eq!(lex_all("let2"), vec![word("let2"), Token::EndOfFile]);
    assert_eq!(lex_all("fun_"), vec![word("fun_"), Token::EndOfFile]);
}

#[test]
fn every_keyword_is_recognised() {
    assert_eq!(
        lex_all("fun let struct enum return if else true false"),
        vec![
            Token::Fun,
            Token::Let,
            Token::Struct,
            Token::Enum,
            Token::Return,
            Token::If,
            Token::Else,
            Token::True,
            Token::False,
            Token::EndOfFile,
        ]
    );
}

#[test]
fn keywords_through_str_to_identifier() {
    assert_eq!(str_to_identifier("return"), Some(Token::Return));
    assert_eq!(str_to_identifier("true"), Some(Token::True));
    assert_eq!(str_to_identifier("false"), Some(Token::False));
    assert_eq!(str_to_identifier("if"), Some(Token::If));
    assert_eq!(str_to_identifier("else"), Some(Token::Else));
    assert_eq!(str_to_identifier(""), None);
    assert_eq!(str_to_identifier("Let"), None);
    assert_eq!(str_to_identifier("le"), None);
    assert_eq!(str_to_identifier("lett"), None);
}

#[test]
fn names_may_start_with_an_underscore() {
    assert!(is_name('_'));
    assert!(is_name('a'));
    assert!(is_name('z'));
    assert!(is_name('A'));
    assert!(is_name('Z'));
    assert!(!is_name('0'));
    assert!(!is_name('é'));
    assert_eq!(lex_all("_x1 y_2"), vec![word("_x1"), word("y_2"), Token::EndOfFile]);
}

#[test]
fn digits_are_the_ten_decimal_ones() {
    assert!(is_number('0'));
    assert!(is_number('9'));
    assert!(!is_number('a'));
    assert!(!is_number('/'));
    assert!(!is_number(':'));
}

#[test]
fn white_space_is_space_tab_and_line_ends() {
    assert!(is_whitespace(Some(' ')));
    assert!(is_whitespace(Some('\t')));
    assert!(is_whitespace(Some('\n')));
    assert!(is_whitespace(Some('\r')));
    assert!(!is_whitespace(Some('a')));
    assert!(!is_whitespace(Some('\u{a0}')));
    assert!(!is_whitespace(None));
}

#[test]
fn digits_of_each_radix() {
    assert!(is_digit_of_radix(Some('1'), 2));
    assert!(!is_digit_of_radix(Some('2'), 2));
    assert!(is_digit_of_radix(Some('7'), 8));
    assert!(!is_digit_of_radix(Some('8'), 8));
    assert!(is_digit_of_radix(Some('9'), 10));
    assert!(!is_digit_of_radix(Some('a'), 10));
    assert!(is_digit_of_radix(Some('f'), 16));
    assert!(is_digit_of_radix(Some('F'), 16));
    assert!(is_digit_of_radix(Some('0'), 16));
    assert!(!is_digit_of_radix(Some('g'), 16));
    assert!(!is_digit_of_radix(Some('G'), 16));
    assert!(!is_digit_of_radix(None, 10));
}

#[test]
fn a_number_is_a_maximal_run_of_digits() {
    assert_eq!(lex_all("12345"), vec![number("12345"), Token::EndOfFile]);
    assert_eq!(lex_all("007"), vec![number("007"), Token::EndOfFile]);
    assert_eq!(lex_all("123abc"), vec![number("123"), word("abc"), Token::EndOfFile]);
    assert_eq!(
        lex_all("99999999999999999999999"),
        vec![number("99999999999999999999999"), Token::EndOfFile]
    );
}

#[test]
fn a_dot_after_digits_is_a_token_of_its_own() {
    assert_eq!(lex_all("1.5"), vec![number("1"), Token::Dot, number("5"), Token::EndOfFile]);
}

#[test]
fn two_character_operators_win_over_one() {
    assert_eq!(
        lex_all("== != <= >= &&"),
        vec![
            Token::EqualEqual,
            Token::NotEqual,
            Token::LessEqual,
            Token::GreaterEqual,
            Token::AmperAmper,
            Token::EndOfFile,
        ]
    );
    assert_eq!(lex_all("==="), vec![Token::EqualEqual, Token::Equal, Token::EndOfFile]);
    assert_eq!(lex_all("= ="), vec![Token::Equal, Token::Equal, Token::EndOfFile]);
    assert_eq!(lex_all("!x"), vec![Token::Bang, word("x"), Token::EndOfFile]);
    assert_eq!(lex_all("<>"), vec![Token::Less, Token::Greater, Token::EndOfFile]);
    assert_eq!(lex_all("a<=b"), vec![word("a"), Token::LessEqual, word("b"), Token::EndOfFile]);
}

#[test]
fn every_single_character_token() {
    assert_eq!(
        lex_all("( ) [ ] { } + - * / % < > : ; , ! = ."),
        vec![
            Token::LeftParen,
            Token::RightParen,
            Token::LeftSquare,
            Token::RightSquare,
            Token::LeftBrace,
            Token::RightBrace,
            Token::Plus,
            Token::Minus,
            Token::Star,
            Token::Slash,
            Token::Percent,
            Token::Less,
            Token::Greater,
            Token::Colon,
            Token::SemiColon,
            Token::Comma,
            Token::Bang,
            Token::Equal,
            Token::Dot,
            Token::EndOfFile,
        ]
    );
}

#[test]
fn an_unmatched_character_is_illegal_and_skipped() {
    assert_eq!(lex_all("@"), vec![Token::Illegal, Token::EndOfFile]);
    assert_eq!(lex_all("a # b"), vec![word("a"), Token::Illegal, word("b"), Token::EndOfFile]);
    assert_eq!(lex_all("&"), vec![Token::Illegal, Token::EndOfFile]);
    assert_eq!(lex_all("&x"), vec![Token::Illegal, word("x"), Token::EndOfFile]);
    assert_eq!(
        lex_all("\"hi\""),
        vec![Token::Illegal, word("hi"), Token::Illegal, Token::EndOfFile]
    );
    assert_eq!(lex_all("\0"), vec![Token::Illegal, Token::EndOfFile]);
    assert_eq!(
        lex_all("@@@"),
        vec![Token::Illegal, Token::Illegal, Token::Illegal, Token::EndOfFile]
    );
}

#[test]
fn indexing_is_by_character_not_by_byte() {
    assert_eq!(
        lex_all("é=ü;x"),
        vec![
            Token::Illegal,
            Token::Equal,
            Token::Illegal,
            Token::SemiColon,
            word("x"),
            Token::EndOfFile,
        ]
    );
    assert_eq!(lex_all("🌱let"), vec![Token::Illegal, Token::Let, Token::EndOfFile]);
}

#[test]
fn the_spelling_of_every_symbol_lexes_back_to_it() {
    let symbols = vec![
        Token::LeftParen,
        Token::RightParen,
        Token::LeftSquare,
        Token::RightSquare,
        Token::LeftBrace,
        Token::RightBrace,
        Token::Plus,
        Token::Minus,
        Token::Star,
        Token::Slash,
        Token::Less,
        Token::Greater,
        Token::LessEqual,
        Token::GreaterEqual,
        Token::Percent,
        Token::Colon,
        Token::SemiColon,
        Token::Comma,
        Token::Bang,
        Token::Equal,
        Token::EqualEqual,
        Token::NotEqual,
        Token::AmperAmper,
        Token::Dot,
    ];
    for symbol in symbols {
        let spelling = String::from(symbol.lexeme());
        let display = symbol.to_string();
        assert_eq!(display, format!("`{}`", spelling));
        let mut lexer = Lexer::new(spelling);
        assert_eq!(lexer.next_token(), Some(symbol));
        assert_eq!(lexer.next_token(), Some(Token::EndOfFile));
    }
}

#[test]
fn the_spelling_of_every_keyword_lexes_back_to_it() {
    let keywords = vec![
        (Token::Fun, "fun"),
        (Token::Let, "let"),
        (Token::Struct, "struct"),
        (Token::Enum, "enum"),
        (Token::Return, "return"),
        (Token::True, "true"),
        (Token::False, "false"),
        (Token::If, "if"),
        (Token::Else, "else"),
    ];
    for (keyword, spelling) in keywords {
        assert_eq!(keyword.lexeme(), spelling);
        assert_eq!(lex_all(spelling), vec![keyword, Token::EndOfFile]);
    }
}
